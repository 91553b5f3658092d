//! Default names: a fixed word, a space, and a number in decimal.
use vstd::prelude::*;

verus! {

/// The decimal digit character for `d` (below 10).
pub open spec fn digit_char(d: nat) -> char {
    (d + 48) as char
}

/// The decimal digits of `n`, most significant first, without leading zeros.
pub open spec fn decimal(n: nat) -> Seq<char>
    decreases n,
{
    if n < 10 {
        seq![digit_char(n)]
    } else {
        decimal(n / 10).push(digit_char(n % 10))
    }
}

/// The name of bus `id`: "Bus " and the id in decimal.
pub open spec fn bus_default_name(id: u8) -> Seq<char> {
    seq!['B', 'u', 's', ' '] + decimal(id as nat)
}

/// The name of clip `id`: "Clip " and the id in decimal.
pub open spec fn clip_default_name(id: u32) -> Seq<char> {
    seq!['C', 'l', 'i', 'p', ' '] + decimal(id as nat)
}

/// Calls `ToString::to_string` on a `u32`, whose `Display` writes the number
/// in decimal without leading zeros.
#[verifier::external_body]
fn decimal_string(n: u32) -> (s: String)
    ensures
        s@ == decimal(n as nat),
{
    n.to_string()
}

/// A word followed by a space and a number in decimal.
fn numbered(word: &str, n: u32) -> (s: String)
    ensures
        s@ == word@ + seq![' '] + decimal(n as nat),
{
    let mut s = word.to_owned();
    s.append(" ");
    proof { reveal_strlit(" "); }
    let digits = decimal_string(n);
    s.append(digits.as_str());
    assert(s@ =~= word@ + seq![' '] + decimal(n as nat));
    s
}

/// The default name of bus `id`.
pub fn default_bus_name(id: u8) -> (name: String)
    ensures
        name@ == bus_default_name(id),
{
    let s = numbered("Bus", id as u32);
    proof { reveal_strlit("Bus"); }
    assert(s@ =~= bus_default_name(id));
    s
}

/// The default name of clip `id`.
pub fn default_clip_name(id: u32) -> (name: String)
    ensures
        name@ == clip_default_name(id),
{
    let s = numbered("Clip", id);
    proof { reveal_strlit("Clip"); }
    assert(s@ =~= clip_default_name(id));
    s
}

} // verus!
