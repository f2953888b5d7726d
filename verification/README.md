# bms_rs

A reader and writer of BMS scores and bmson charts, verified with Verus.

- `src/bms`: the score model (`model`, `objects`, `command`), the key layouts, the random
  and switch scopes, the processors that read header and message commands into a score,
  the validity checks and the writer that turns a score back into commands (`unparse`).
- `src/bmson`: bmson charts held as plain values, a JSON reader (`json`), the pulse
  converter, and the conversions between charts and scores (`to_bms`, `to_bmson`).
- `src/chart`: format independent checks and processing of a score (playability, missing
  definitions, overlapping notes, the tempo at the start and its alternatives).
- `src/number.rs`, `src/text.rs`: numbers and texts, with the few calls into
  `strict_num_extended` and std that the library rests on.
- `app/`: serde reading and writing of bmson text, floating-point section lengths, and the
  checks before the conversions.

Numbers that bmson writes in floating point are kept as their text (and the judge rank as
a ratio), so that every conversion inside the library is exact.
