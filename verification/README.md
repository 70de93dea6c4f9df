# Sphere UI components

The editing logic of the Sphere MIDI piano roll, of its controller lanes, of the
pitch wheel, and of the windows that host plug-in editors, verified with Verus.

- `src/` is the library. Every function states what it returns or changes, and
  Verus proves it, with one exception: `image_from_raw` in `src/lane_image.rs`
  hands bytes to the `image` crate, and what it states of
  `image::ImageBuffer::from_raw` is trusted. Laws that relate several functions
  are the public proof functions named `law_*`.
- `app/` is ordinary Rust around the library: conversions from and to floating
  point, curve shapes, the GPU painters, and the native content windows.
- `tests/` runs the library on concrete values.

## Units

The library computes with integers. A beat is 960 000 ticks, a pixel and a
semitone are a million units each, and parts of a whole (controller values,
colours, zoom factors) are billionths. `src/fixed.rs` holds the units and the
rounding; `app/units.rs` converts.

## Shape

The editor's state is `roll::PianoRoll`. The surrounding program hands in events
(`press`, `lane_press`, `motion`, `release`, `commands`, `toolbar`, `session`)
together with what the timeline holds, and gets back an `Outcome`: the edit that
the timeline should perform (`roll_edit::RollEdit`) and the notes to audition.
What is on screen is computed by `body`, `canvas`, `note_blocks`, `grid_render`,
`lane_image` and `inspector`. The plug-in editor windows are in `editor_backend`,
`editor_chrome` and `content_host`, the pitch wheel in `wheel` and `pitch`.
