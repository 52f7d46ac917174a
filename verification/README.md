# plust-core

The core of a small fragmented-MP4 / MPEG-DASH video player. `src/` is the
verified library, with its contracts and proofs; `app/` holds what cannot be verified
here (HTTP fetching, the floating-point playback clock, the loader thread,
and the C and WebAssembly bindings).

Library modules:

- `bytes` – big-endian integers read from byte slices.
- `text` – string helpers: character-exact comparison, and the few standard
  library string functions the library calls (lossy UTF-8 decoding, decimal
  parsing and printing, pattern replacement), each with its contract.
- `fmp4` – walking ISO-BMFF boxes along a path of box types, reading box
  headers, keyframe (IDR) detection in length-prefixed NAL units, and the
  H.264 decoder setup (`avcC`) of an initialization segment.
- `segment` – the sample table of a media segment (`tfhd` defaults and
  `trun` records) and where its sample data starts.
- `demuxer` – turning segments into samples whose decode times continue
  from segment to segment.
- `sample_buffer` – the queue of samples waiting to be decoded, with seeking
  to the last keyframe at or before a time.
- `manifest` – reading a DASH manifest (via `roxmltree`) and forming segment
  URLs from its template.
- `loader` – which segments to load and which sample ends the presentation.

Times in the library are integer ticks with their timescale; `app/` turns
them into seconds.
