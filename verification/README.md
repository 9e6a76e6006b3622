# aurelis

Core of the AURELIS audio player, verified with Verus.

- `src/` is the verified library. `audio::types` holds the PCM buffer and
  its format; `audio::stream` the bounded PCM queue; `audio::track` what a
  container reports of its tracks and packets, and how the decoder reacts;
  `audio::decoder_stream` the chunking state of the streaming decoder;
  `audio::decoder` the whole-file accumulation; `audio::resampler` the
  validation and channel (de)interleaving around the sample-rate converter;
  `audio::output` the drain of the playback queue into device buffers;
  `audio::playback` the protocol between decoder, converter and device.
  Samples are carried as the bit patterns of their `f32` values.
- `app/` is the player: file and device I/O (symphonia, cpal), the FFT
  sample-rate conversion itself (rubato, on floating-point samples), and
  the playback loop, each step of which asks the library what to do.
- `tests/` exercises the library, and drives the converter through its
  plans.
