# imbolc_core

The core of the imbolc audio workstation, written in Verus. The functions in
`src/` carry contracts that Verus proves, with two exceptions: the trusted
wrappers `duration_as_micros` (`Duration::as_micros`) and `decimal_string`
(`u32::to_string`), whose contracts are taken from the standard library's
documentation.

- `state`, `action`: the application state (instruments, mixer, piano roll,
  arrangement, automation lanes) and what dispatchers return.
- `names`: default names of buses and clips.
- `instrument`, `mixer`, `bus`, `piano_roll`, `sequencer`, `chopper`,
  `arrangement`, `automation`, `session`, `server`, `dispatch`,
  `audio_feedback`: the dispatchers, one per kind of action, and `domain`,
  which routes an action to its dispatcher, decides when the audio thread
  needs the full state, and applies an action to the audio thread's copies of
  the instruments and the session as the dispatcher does.
- `routing`: the signal chain of an instrument, with its node ids and the
  audio buses that chain its stages, and the phases of an amortized routing
  rebuild.
- `audio_thread`: one step of the audio thread's command handling, from state
  and command to the next state and the engine operations to perform.
- `voice_allocator`: polyphonic voices, voice stealing and the control bus pool.
- `playback`: the crossed stretches of the timeline, note-ons and note-offs of
  a playback tick, arpeggiator held notes, the click's beat.
- `telemetry`: the audio thread's tick timing window.
- `properties`: properties that relate several operations.

Continuous values (tempo, levels, effect parameters, sample positions other
than a slice's bounds, timing) are not part of the verified model. `app/` holds
the parts that talk to the audio server and measure time.
