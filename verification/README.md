# csw

A converter between sampled tape audio and the CSW (Compressed Square Wave)
tape-image format, with its logic verified by Verus. It encodes WAV, VOC,
IFF/8SVX and Z80-emulator port traces (OUT) to CSW v1.01 or v2, and decodes
CSW back to WAV or VOC.

## Layout

- `src/` is the verified library. Each module states its behaviour as
  `requires`/`ensures` over spec functions and proves it:
  - `rle`, `container`: the CSW run-length stream and the container, with
    the round trips of both;
  - `wav`, `voc`, `iff`, `out`, `source`: the input readers and the WAV and
    VOC writers;
  - `detect`, `encode`, `signal`: the pulse detector and the encode runs;
  - `convert`, `naming`, `switch`, `filter`: a conversion's steps, its file
    names and its command line;
  - `ui`, `term`, `session`, `spool`, `audio`, `alsa`: console lines and the
    decisions of a soundcard recording.
- `tests/` runs the library on concrete inputs.
- `app/` is the program around it: argument and file I/O, the
  floating-point digital filter and the console lines that print floats, and
  the zlib deflate the Z-RLE writer goes through.

zlib inflate (reading Z-RLE) is called from the library through `flate2`;
its result is named, not restated, and the laws about Z-RLE are stated over
that name.
