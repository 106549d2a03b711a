# xc2bit

A verified library for the configuration parts of Xilinx Coolrunner-II
CPLD bitstreams: the crbit fuse-array format, PLA terms, global nets, the
clock divider and macrocells, together with the bit-pattern and
bit-fragment machinery that describes where each setting lives in the fuse
arrays. Assembling whole-device bitstreams is not part of it.

The library is written in Verus: every public function in `src/` carries a
contract, and Verus proves every function against the contracts it uses.

## Layout

- `src/bitpattern.rs` — enums encoded as fixed-width groups of bits, pattern
  strings with don't-care bits, and the documentation tables of encodings.
- `src/bitfragment.rs` — layouts that place the bits of a value in a one- or
  two-dimensional fuse array, with offsets and mirroring, and the laws of
  reading back what was written.
- `src/pict.rs` — the picture notation for layouts.
- `src/crbit.rs` — `FuseArray` and the text-based crbit format.
- `src/pla.rs` — AND and OR terms of the PLA.
- `src/globalbits.rs` — global nets and the clock divider.
- `src/mc.rs` — macrocell configuration.
- `src/fb.rs` — special product terms, AND block maps and ZIA rows.
- `app/lib.rs` — serialisable copies of the configuration types, JED file
  loading and crbit output to any writer.
- `tests/` — tests of the library.
