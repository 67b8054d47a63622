# flipper

The verified library of a toy remote desktop. The capturing end sends a screen
configuration, then zlib-compressed xor deltas of successive screens; the viewing end
rebuilds each screen from the deltas and turns it into RGBA image bytes.

- `src/` is the library, verified with Verus: message wire forms and their decoders, the
  length-framed codec, compression, the image conversion and the per-frame decisions of
  both ends.
- `tests/` exercises the library on concrete values.
- `app/` is the server program around it: screen capture, TCP, `tokio` framing and the
  `eframe` viewer.
