use imbolc_core::names::{default_bus_name, default_clip_name};

#[test]
fn default_names_are_word_space_decimal() {
    assert_eq!(default_bus_name(1), "Bus 1");
    assert_eq!(default_bus_name(255), "Bus 255");
    assert_eq!(default_clip_name(0), "Clip 0");
    assert_eq!(default_clip_name(4294967295), "Clip 4294967295");
}
