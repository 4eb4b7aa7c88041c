# sparkamp

The core of a music player, verified with Verus: the transport and its fadeout,
the equalizer and normalization chain, the playlist and the play queue, the
settings, the media library's requests, discs, portable devices and tags, and
the boundary through which a C caller reaches all of it.

- `src/` is the library. Every item is verified but these, whose contracts are
  taken on trust: the specification of `String::push` in `text`, and in `json` the
  calls into serde_json, `serde_read_strings`, `serde_write_strings` and
  `serde_write_object`, with the names that stand for what they return,
  `strings_read`, `strings_written` and `object_written`. What a backend answers is
  not known either: the contracts of `engine` say what is asked of it, and what
  follows from each answer.
  - `engine` drives an audio backend through the `AudioBackend` trait.
    `engine::gst` and `engine::avf` decide what the two audio systems are asked to
    do; `engine::null` is a backend that keeps state and makes no sound.
  - `model`, `queue`, `order`, `shuffle` and `config` hold the playlist, the queue
    and the settings.
  - `ffi` is the boundary: one function for each call a C caller makes, on plain
    values in place of raw pointers.
- `tests/` runs the library.
- `app/` is the C interface around it, with the audio adapters, the JSON types
  and the threads.

Levels are counted in billionths of full scale, gains in millionths of a decibel
and times in nanoseconds; the conversion to floating point stands in
`app/units.rs`.
