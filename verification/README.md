# rmpeg

A media probing and decoding library whose parsers and decoders are verified with
Verus, and a small command-line tool around it that prints frame-checksum listings in
the style of `ffmpeg -f framemd5`.

## Layout

- `src/` — the verified library.
  - `format/` — container and elementary-stream probes, one module per format; each
    `parse_*` function equals a spec function of the input bytes; `probe` tries them in a
    fixed order.
  - `codec/` — image, audio and video decoders and the frame-checksum listings built
    from their frames.
  - `text.rs`, `bytes.rs`, `bits.rs` — UTF-8, number-text, byte-reading and bit-reading
    helpers with their specifications.
  - `tool.rs` — the decisions of the command-line tool: PCM conversions, AVI and MP4
    PCM listings, WAV output, seeking, rate parsing and decoder selection.
- `tests/` — tests on concrete inputs.
- `app/` — the command line: file I/O, printing, and the work that
  needs floating point (volume, resampling, FITS scaling, float PCM conversion) or
  outside decoders driven through trait objects and dynamic libraries (symphonia,
  the system mpg123 and libopus, opus-decoder).

## Outside crates

- `md5` computes the MD5 digests of the listings. The checksum is an outside
  algorithm: the library calls `md5::compute` behind one trusted wrapper and names its
  result, rather than carrying a digest implementation of its own.
- `png` decodes PNG images and reads their header size, behind two trusted wrappers
  whose results are named.
- `symphonia`, `opus-decoder` and `libc` are used by `app/` only.
- `openh264` decodes H.264 behind three trusted wrappers (open, decode a packet,
  flush) around a verified loop in `codec::h264`; the tool itself does not read MP4
  sample tables, so the command line does not reach it.
