# audio_recorder_rs

Records an input device alone, or an input and an output device together, and hands out
single-precision samples.

- `src/` is the verified library: when a recording may start and what ends it, which streams are
  resampled and to which rate, how samples wait in ring buffers, how blocks are mixed, and the
  laws that tie these together. `laws.rs` holds those of the recorder and its sessions, `walk.rs`
  those of the linear resampler. Samples are held by their bit patterns.
- `app/` opens devices with `cpal`, runs the streams and the `rubato` resamplers on threads, and
  sends the samples over a channel. The threads share the state of the library under a lock.
- `tests/` runs the library, with `ringbuf` and `dasp_sample` linked.

The library trusts six operations of `ringbuf` (`src/recorder/ring.rs`) and eight conversions of
`dasp_sample` (`src/recorder/constants.rs`). The contract of each says what is believed of it.
