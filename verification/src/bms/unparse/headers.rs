//! The header and definition lines of a score, in the order they are written back.
use crate::bms::command::{JudgeLevel, LnMode, LnType, ObjId, PlayerMode, PoorMode, StringValue};
use crate::bms::lex::Token;
use crate::bms::model::ObjIdMap;
use crate::bms::model::Bms;
use crate::bms::objects::{AtBgaDef, BgaDef, Bmp, ExRankDef, ExWavDef, ExtChrEvent, SwBgaEvent, WavCmdEvent, WavCmdParam};
use crate::chart::types::Argb;
use crate::text::{concat, decimal_text, i64_to_text, owned, signed_decimal_text, u64_to_text};
use vstd::prelude::*;

verus! {

/// What a token says: `(0, name, args)` for a header, `(1, "", message)` for a message and
/// `(2, line, "")` for a line that is no command.
pub open spec fn token_text(t: Token) -> (u8, Seq<char>, Seq<char>) {
    match t {
        Token::Header { name, args } => (0, name@, args@),
        Token::Message { message, .. } => (1, Seq::empty(), message@),
        Token::NotACommand(line) => (2, line@, Seq::empty()),
    }
}

/// What the tokens say, in order.
pub open spec fn texts(v: Seq<Token>) -> Seq<(u8, Seq<char>, Seq<char>)> {
    v.map_values(|t: Token| token_text(t))
}

/// A header line.
pub open spec fn hd(name: Seq<char>, args: Seq<char>) -> (u8, Seq<char>, Seq<char>) {
    (0, name, args)
}

/// The header `name` with the text, if there is one.
pub open spec fn opt_text(name: Seq<char>, o: Option<String>) -> Seq<(u8, Seq<char>, Seq<char>)> {
    match o {
        Some(s) => seq![hd(name, s@)],
        None => Seq::empty(),
    }
}

/// The header `name` with the path, if there is one and it is not empty.
pub open spec fn opt_path(name: Seq<char>, o: Option<String>) -> Seq<(u8, Seq<char>, Seq<char>)> {
    match o {
        Some(s) => if s@.len() > 0 {
            seq![hd(name, s@)]
        } else {
            Seq::empty()
        },
        None => Seq::empty(),
    }
}

/// The header `name` with the text of a value, if there is one.
pub open spec fn opt_value(name: Seq<char>, o: Option<StringValue>) -> Seq<(u8, Seq<char>, Seq<char>)> {
    match o {
        Some(v) => seq![hd(name, v.text())],
        None => Seq::empty(),
    }
}

/// The header `name` with a number in decimal, if there is one.
pub open spec fn opt_number(name: Seq<char>, o: Option<u8>) -> Seq<(u8, Seq<char>, Seq<char>)> {
    match o {
        Some(v) => seq![hd(name, decimal_text(v as nat))],
        None => Seq::empty(),
    }
}

/// The two characters of an id.
pub open spec fn spec_id_text(id: ObjId) -> Seq<char> {
    seq![id.high() as char, id.low() as char]
}

/// Writes the two characters of an id.
pub fn id_text(id: ObjId) -> (r: String)
    ensures
        r@ == spec_id_text(id),
{
    let cs = id.to_chars();
    let mut v: Vec<char> = Vec::new();
    v.push(cs[0]);
    v.push(cs[1]);
    assert(v@ =~= spec_id_text(id));
    crate::text::string_of(v.as_slice())
}

/// The text of a judge level: its number.
pub open spec fn judge_level_text(level: JudgeLevel) -> Seq<char> {
    match level {
        JudgeLevel::VeryHard => seq!['0'],
        JudgeLevel::Hard => seq!['1'],
        JudgeLevel::Normal => seq!['2'],
        JudgeLevel::Easy => seq!['3'],
        JudgeLevel::OtherInt(v) => signed_decimal_text(v as int),
    }
}

/// Writes a judge level as its number.
pub fn judge_level_to_text(level: JudgeLevel) -> (r: String)
    ensures
        r@ == judge_level_text(level),
{
    match level {
        JudgeLevel::VeryHard => owned_digit('0'),
        JudgeLevel::Hard => owned_digit('1'),
        JudgeLevel::Normal => owned_digit('2'),
        JudgeLevel::Easy => owned_digit('3'),
        JudgeLevel::OtherInt(v) => i64_to_text(v),
    }
}

fn owned_digit(c: char) -> (r: String)
    ensures
        r@ == seq![c],
{
    let mut v: Vec<char> = Vec::new();
    v.push(c);
    assert(v@ =~= seq![c]);
    crate::text::string_of(v.as_slice())
}

/// Adds a header.
pub fn push_header(out: &mut Vec<Token>, name: String, args: String)
    ensures
        texts(final(out)@) == texts(old(out)@).push(hd(name@, args@)),
{
    let ghost before = texts(out@);
    out.push(Token::Header { name, args });
    assert(texts(out@) =~= before.push(hd(name@, args@)));
}

/// Adds a line that is no command.
pub fn push_line(out: &mut Vec<Token>, line: String)
    ensures
        texts(final(out)@) == texts(old(out)@).push((2u8, line@, Seq::empty())),
{
    let ghost before = texts(out@);
    out.push(Token::NotACommand(line));
    assert(texts(out@) =~= before.push((2u8, line@, Seq::empty())));
}

/// Adds the header `name` with the text, if there is one.
pub fn push_opt_text(out: &mut Vec<Token>, name: &str, o: &Option<String>)
    ensures
        texts(final(out)@) == texts(old(out)@) + opt_text(name@, *o),
{
    match o {
        Some(s) => push_header(out, owned(name), s.clone()),
        None => {},
    }
    assert(texts(out@) =~= texts(old(out)@) + opt_text(name@, *o));
}

/// Adds the header `name` with the path, if there is one and it is not empty.
pub fn push_opt_path(out: &mut Vec<Token>, name: &str, o: &Option<String>)
    ensures
        texts(final(out)@) == texts(old(out)@) + opt_path(name@, *o),
{
    match o {
        Some(s) => {
            if !crate::text::is_empty_text(s.as_str()) {
                push_header(out, owned(name), s.clone());
            }
        },
        None => {},
    }
    assert(texts(out@) =~= texts(old(out)@) + opt_path(name@, *o));
}

/// Adds the header `name` with the text of a value, if there is one.
pub fn push_opt_value(out: &mut Vec<Token>, name: &str, o: &Option<StringValue>)
    ensures
        texts(final(out)@) == texts(old(out)@) + opt_value(name@, *o),
{
    match o {
        Some(v) => push_header(out, owned(name), owned(v.raw())),
        None => {},
    }
    assert(texts(out@) =~= texts(old(out)@) + opt_value(name@, *o));
}

/// Adds the header `name` with a number in decimal, if there is one.
pub fn push_opt_number(out: &mut Vec<Token>, name: &str, o: Option<u8>)
    ensures
        texts(final(out)@) == texts(old(out)@) + opt_number(name@, o),
{
    match o {
        Some(v) => push_header(out, owned(name), u64_to_text(v as u64)),
        None => {},
    }
    assert(texts(out@) =~= texts(old(out)@) + opt_number(name@, o));
}

/// The headers `prefix` + id of the values of the ids from `0` up to `n`, in that order.
pub open spec fn value_defs(m: ObjIdMap<StringValue>, prefix: Seq<char>, n: int) -> Seq<(u8, Seq<char>, Seq<char>)>
    decreases n,
{
    if n <= 0 {
        Seq::empty()
    } else {
        value_defs(m, prefix, n - 1) + match m.at(n - 1) {
            Some(v) => seq![hd(prefix + spec_id_text(ObjId::spec_from_value(n - 1)), v.text())],
            None => Seq::empty(),
        }
    }
}

/// The headers `prefix` + id of the texts of the ids from `0` up to `n`; with `skip_empty`,
/// an empty text is left out.
pub open spec fn text_defs(m: ObjIdMap<String>, prefix: Seq<char>, skip_empty: bool, n: int) -> Seq<(u8, Seq<char>, Seq<char>)>
    decreases n,
{
    if n <= 0 {
        Seq::empty()
    } else {
        text_defs(m, prefix, skip_empty, n - 1) + match m.at(n - 1) {
            Some(s) => if skip_empty && s@.len() == 0 {
                Seq::empty()
            } else {
                seq![hd(prefix + spec_id_text(ObjId::spec_from_value(n - 1)), s@)]
            },
            None => Seq::empty(),
        }
    }
}

/// Adds `prefix` + id with the text of each value, by increasing id.
pub fn push_value_defs(out: &mut Vec<Token>, m: &ObjIdMap<StringValue>, prefix: &str)
    ensures
        texts(final(out)@) == texts(old(out)@) + value_defs(*m, prefix@, 3844),
{
    let mut k: u16 = 0;
    while k < 3844
        invariant
            k <= 3844,
            texts(out@) == texts(old(out)@) + value_defs(*m, prefix@, k as int),
        decreases 3844 - k,
    {
        let ghost before = texts(out@);
        match m.get_at(k) {
            Some(v) => {
                let id = ObjId::from_u16(k).unwrap();
                let name = concat(prefix, id_text(id).as_str());
                push_header(out, name, owned(v.raw()));
            },
            None => {},
        }
        assert(texts(out@) =~= texts(old(out)@) + value_defs(*m, prefix@, k + 1));
        k += 1;
    }
}

/// Adds `prefix` + id with each text, by increasing id; with `skip_empty`, an empty text is
/// left out.
pub fn push_text_defs(out: &mut Vec<Token>, m: &ObjIdMap<String>, prefix: &str, skip_empty: bool)
    ensures
        texts(final(out)@) == texts(old(out)@) + text_defs(*m, prefix@, skip_empty, 3844),
{
    let mut k: u16 = 0;
    while k < 3844
        invariant
            k <= 3844,
            texts(out@) == texts(old(out)@) + text_defs(*m, prefix@, skip_empty, k as int),
        decreases 3844 - k,
    {
        match m.get_at(k) {
            Some(s) => {
                if !(skip_empty && crate::text::is_empty_text(s.as_str())) {
                    let id = ObjId::from_u16(k).unwrap();
                    let name = concat(prefix, id_text(id).as_str());
                    push_header(out, name, s.clone());
                }
            },
            None => {},
        }
        assert(texts(out@) =~= texts(old(out)@) + text_defs(*m, prefix@, skip_empty, k + 1));
        k += 1;
    }
}


/// Texts joined by a separator.
pub open spec fn join(parts: Seq<Seq<char>>, sep: char) -> Seq<char>
    decreases parts.len(),
{
    if parts.len() == 0 {
        Seq::empty()
    } else if parts.len() == 1 {
        parts[0]
    } else {
        join(parts.drop_last(), sep) + seq![sep] + parts.last()
    }
}

/// Joins texts with a separator.
pub fn join_texts(parts: &Vec<String>, sep: char) -> (r: String)
    ensures
        r@ == join(parts@.map_values(|p: String| p@), sep),
{
    let ghost pv = parts@.map_values(|p: String| p@);
    let mut cs: Vec<char> = Vec::new();
    let mut i: usize = 0;
    while i < parts.len()
        invariant
            i <= parts@.len(),
            pv == parts@.map_values(|p: String| p@),
            cs@ == join(pv.take(i as int), sep),
        decreases parts@.len() - i,
    {
        assert(pv.take(i + 1).drop_last() =~= pv.take(i as int));
        assert(pv.take(i + 1).last() == parts@[i as int]@);
        let ghost before = cs@;
        if i > 0 {
            cs.push(sep);
        }
        let pc = crate::text::chars_of(parts[i].as_str());
        let mut j: usize = 0;
        while j < pc.len()
            invariant
                j <= pc@.len(),
                cs@ == (if i > 0 {
                    before + seq![sep]
                } else {
                    before
                }) + pc@.take(j as int),
            decreases pc@.len() - j,
        {
            cs.push(pc[j]);
            j += 1;
            assert(pc@.take(j as int) =~= pc@.take(j - 1).push(pc@[j - 1]));
        }
        assert(pc@.take(pc@.len() as int) =~= pc@);
        if i == 0 {
            assert(pv.take(1) =~= seq![pv[0]]);
            assert(cs@ =~= join(pv.take(1), sep));
        } else {
            assert(cs@ =~= join(pv.take(i + 1), sep));
        }
        i += 1;
    }
    assert(pv.take(parts@.len() as int) =~= pv);
    crate::text::string_of(cs.as_slice())
}

/// The text `a,r,g,b` of a color.
pub open spec fn argb_text(c: Argb) -> Seq<char> {
    join(
        seq![
            decimal_text(c.alpha as nat),
            decimal_text(c.red as nat),
            decimal_text(c.green as nat),
            decimal_text(c.blue as nat),
        ],
        ',',
    )
}

/// Writes the text `a,r,g,b` of a color.
pub fn argb_to_text(c: Argb) -> (r: String)
    ensures
        r@ == argb_text(c),
{
    let mut parts: Vec<String> = Vec::new();
    parts.push(u64_to_text(c.alpha as u64));
    parts.push(u64_to_text(c.red as u64));
    parts.push(u64_to_text(c.green as u64));
    parts.push(u64_to_text(c.blue as u64));
    let r = join_texts(&parts, ',');
    assert(parts@.map_values(|p: String| p@) =~= seq![
        decimal_text(c.alpha as nat),
        decimal_text(c.red as nat),
        decimal_text(c.green as nat),
        decimal_text(c.blue as nat),
    ]);
    r
}

/// The arguments of `#BGAxx`: source, the two corners and the drawing point.
pub open spec fn bga_args(d: BgaDef) -> Seq<char> {
    join(
        seq![
            spec_id_text(d.source_bmp),
            signed_decimal_text(d.trim_top_left.x as int),
            signed_decimal_text(d.trim_top_left.y as int),
            signed_decimal_text(d.trim_bottom_right.x as int),
            signed_decimal_text(d.trim_bottom_right.y as int),
            signed_decimal_text(d.draw_point.x as int),
            signed_decimal_text(d.draw_point.y as int),
        ],
        ' ',
    )
}

/// The arguments of `#@BGAxx`: source, corner, size and the drawing point.
pub open spec fn atbga_args(d: AtBgaDef) -> Seq<char> {
    join(
        seq![
            spec_id_text(d.source_bmp),
            signed_decimal_text(d.trim_top_left.x as int),
            signed_decimal_text(d.trim_top_left.y as int),
            decimal_text(d.trim_size.width as nat),
            decimal_text(d.trim_size.height as nat),
            signed_decimal_text(d.draw_point.x as int),
            signed_decimal_text(d.draw_point.y as int),
        ],
        ' ',
    )
}

/// The arguments of `#SWBGAxx`: `fr:time:line:loop:a,r,g,b pattern`.
pub open spec fn swbga_args(e: SwBgaEvent) -> Seq<char> {
    join(
        seq![
            decimal_text(e.frame_rate as nat),
            decimal_text(e.total_time as nat),
            decimal_text(e.line as nat),
            if e.loop_mode {
                seq!['1']
            } else {
                seq!['0']
            },
            argb_text(e.argb),
        ],
        ':',
    ) + seq![' '] + e.pattern@
}

fn bga_to_args(d: &BgaDef) -> (r: String)
    ensures
        r@ == bga_args(*d),
{
    let mut parts: Vec<String> = Vec::new();
    parts.push(id_text(d.source_bmp));
    parts.push(i64_to_text(d.trim_top_left.x as i64));
    parts.push(i64_to_text(d.trim_top_left.y as i64));
    parts.push(i64_to_text(d.trim_bottom_right.x as i64));
    parts.push(i64_to_text(d.trim_bottom_right.y as i64));
    parts.push(i64_to_text(d.draw_point.x as i64));
    parts.push(i64_to_text(d.draw_point.y as i64));
    let r = join_texts(&parts, ' ');
    assert(parts@.map_values(|p: String| p@) =~= seq![
        spec_id_text(d.source_bmp),
        signed_decimal_text(d.trim_top_left.x as int),
        signed_decimal_text(d.trim_top_left.y as int),
        signed_decimal_text(d.trim_bottom_right.x as int),
        signed_decimal_text(d.trim_bottom_right.y as int),
        signed_decimal_text(d.draw_point.x as int),
        signed_decimal_text(d.draw_point.y as int),
    ]);
    r
}

fn atbga_to_args(d: &AtBgaDef) -> (r: String)
    ensures
        r@ == atbga_args(*d),
{
    let mut parts: Vec<String> = Vec::new();
    parts.push(id_text(d.source_bmp));
    parts.push(i64_to_text(d.trim_top_left.x as i64));
    parts.push(i64_to_text(d.trim_top_left.y as i64));
    parts.push(u64_to_text(d.trim_size.width as u64));
    parts.push(u64_to_text(d.trim_size.height as u64));
    parts.push(i64_to_text(d.draw_point.x as i64));
    parts.push(i64_to_text(d.draw_point.y as i64));
    let r = join_texts(&parts, ' ');
    assert(parts@.map_values(|p: String| p@) =~= seq![
        spec_id_text(d.source_bmp),
        signed_decimal_text(d.trim_top_left.x as int),
        signed_decimal_text(d.trim_top_left.y as int),
        decimal_text(d.trim_size.width as nat),
        decimal_text(d.trim_size.height as nat),
        signed_decimal_text(d.draw_point.x as int),
        signed_decimal_text(d.draw_point.y as int),
    ]);
    r
}

fn swbga_to_args(e: &SwBgaEvent) -> (r: String)
    ensures
        r@ == swbga_args(*e),
{
    let mut parts: Vec<String> = Vec::new();
    parts.push(u64_to_text(e.frame_rate as u64));
    parts.push(u64_to_text(e.total_time as u64));
    parts.push(u64_to_text(e.line as u64));
    parts.push(owned_digit(if e.loop_mode { '1' } else { '0' }));
    parts.push(argb_to_text(e.argb));
    let head = join_texts(&parts, ':');
    assert(parts@.map_values(|p: String| p@) =~= seq![
        decimal_text(e.frame_rate as nat),
        decimal_text(e.total_time as nat),
        decimal_text(e.line as nat),
        if e.loop_mode {
            seq!['1']
        } else {
            seq!['0']
        },
        argb_text(e.argb),
    ]);
    let with_space = concat(head.as_str(), " ");
    proof {
        reveal_strlit(" ");
    }
    concat(with_space.as_str(), e.pattern.as_str())
}

/// The headers of a map of the ids from `0` up to `n`, each made by `kind`: `0` for
/// `#EXRANKxx`, `1` for `#@BGAxx`, `2` for `#BGAxx`, `3` for `#ARGBxx`, `4` for `#SWBGAxx`.
pub open spec fn exrank_defs(m: ObjIdMap<ExRankDef>, n: int) -> Seq<(u8, Seq<char>, Seq<char>)>
    decreases n,
{
    if n <= 0 {
        Seq::empty()
    } else {
        exrank_defs(m, n - 1) + match m.at(n - 1) {
            Some(d) => seq![hd("EXRANK"@ + spec_id_text(ObjId::spec_from_value(n - 1)), judge_level_text(d.judge_level))],
            None => Seq::empty(),
        }
    }
}

/// The arguments of `#EXWAVxx`: `pvf pan volume frequency file` with a frequency, `pv pan
/// volume file` without.
pub open spec fn exwav_args(d: ExWavDef) -> Seq<char> {
    match d.frequency {
        Some(f) => join(
            seq![
                seq!['p', 'v', 'f'],
                signed_decimal_text(d.pan as int),
                signed_decimal_text(d.volume as int),
                decimal_text(f as nat),
                d.path@,
            ],
            ' ',
        ),
        None => join(
            seq![seq!['p', 'v'], signed_decimal_text(d.pan as int), signed_decimal_text(d.volume as int), d.path@],
            ' ',
        ),
    }
}

/// The command word of a `#WAVCMD` parameter.
pub open spec fn wavcmd_param_text(p: WavCmdParam) -> Seq<char> {
    match p {
        WavCmdParam::Pitch => seq!['0', '0'],
        WavCmdParam::Volume => seq!['0', '1'],
        WavCmdParam::Time => seq!['0', '2'],
    }
}

/// The arguments of `#WAVCMD`: the command, the sound and the value.
pub open spec fn wavcmd_args(e: WavCmdEvent) -> Seq<char> {
    join(seq![wavcmd_param_text(e.param), spec_id_text(e.wav_index), decimal_text(e.value as nat)], ' ')
}

/// The `#EXWAVxx` headers of the ids from `0` up to `n`.
pub open spec fn exwav_defs(m: ObjIdMap<ExWavDef>, n: int) -> Seq<(u8, Seq<char>, Seq<char>)>
    decreases n,
{
    if n <= 0 {
        Seq::empty()
    } else {
        exwav_defs(m, n - 1) + match m.at(n - 1) {
            Some(d) => seq![hd("EXWAV"@ + spec_id_text(ObjId::spec_from_value(n - 1)), exwav_args(d))],
            None => Seq::empty(),
        }
    }
}

/// The `#WAVCMD` headers of the sounds from `0` up to `n`.
pub open spec fn wavcmd_defs(m: ObjIdMap<WavCmdEvent>, n: int) -> Seq<(u8, Seq<char>, Seq<char>)>
    decreases n,
{
    if n <= 0 {
        Seq::empty()
    } else {
        wavcmd_defs(m, n - 1) + match m.at(n - 1) {
            Some(e) => seq![hd("WAVCMD"@, wavcmd_args(e))],
            None => Seq::empty(),
        }
    }
}

/// The `#@BGAxx` headers of the ids from `0` up to `n`.
pub open spec fn atbga_defs(m: ObjIdMap<AtBgaDef>, n: int) -> Seq<(u8, Seq<char>, Seq<char>)>
    decreases n,
{
    if n <= 0 {
        Seq::empty()
    } else {
        atbga_defs(m, n - 1) + match m.at(n - 1) {
            Some(d) => seq![hd("@BGA"@ + spec_id_text(ObjId::spec_from_value(n - 1)), atbga_args(d))],
            None => Seq::empty(),
        }
    }
}

/// The `#BGAxx` headers of the ids from `0` up to `n`.
pub open spec fn bga_defs(m: ObjIdMap<BgaDef>, n: int) -> Seq<(u8, Seq<char>, Seq<char>)>
    decreases n,
{
    if n <= 0 {
        Seq::empty()
    } else {
        bga_defs(m, n - 1) + match m.at(n - 1) {
            Some(d) => seq![hd("BGA"@ + spec_id_text(ObjId::spec_from_value(n - 1)), bga_args(d))],
            None => Seq::empty(),
        }
    }
}

/// The `#ARGBxx` headers of the ids from `0` up to `n`.
pub open spec fn argb_defs(m: ObjIdMap<Argb>, n: int) -> Seq<(u8, Seq<char>, Seq<char>)>
    decreases n,
{
    if n <= 0 {
        Seq::empty()
    } else {
        argb_defs(m, n - 1) + match m.at(n - 1) {
            Some(c) => seq![hd("ARGB"@ + spec_id_text(ObjId::spec_from_value(n - 1)), argb_text(c))],
            None => Seq::empty(),
        }
    }
}

/// The `#SWBGAxx` headers of the ids from `0` up to `n`.
pub open spec fn swbga_defs(m: ObjIdMap<SwBgaEvent>, n: int) -> Seq<(u8, Seq<char>, Seq<char>)>
    decreases n,
{
    if n <= 0 {
        Seq::empty()
    } else {
        swbga_defs(m, n - 1) + match m.at(n - 1) {
            Some(e) => seq![hd("SWBGA"@ + spec_id_text(ObjId::spec_from_value(n - 1)), swbga_args(e))],
            None => Seq::empty(),
        }
    }
}

/// The picture headers of the ids from `0` up to `n`: `#BMPxx file` for a picture with the
/// default transparent color, `#EXBMPxx a,r,g,b file` otherwise; an empty file is left out.
pub open spec fn bmp_defs(m: ObjIdMap<Bmp>, n: int) -> Seq<(u8, Seq<char>, Seq<char>)>
    decreases n,
{
    if n <= 0 {
        Seq::empty()
    } else {
        bmp_defs(m, n - 1) + match m.at(n - 1) {
            Some(b) => if b.file@.len() == 0 {
                Seq::empty()
            } else if b.transparent_color == (Argb { alpha: 255, red: 0, green: 0, blue: 0 }) {
                seq![hd("BMP"@ + spec_id_text(ObjId::spec_from_value(n - 1)), b.file@)]
            } else {
                seq![hd("EXBMP"@ + spec_id_text(ObjId::spec_from_value(n - 1)), argb_text(b.transparent_color) + seq![' '] + b.file@)]
            },
            None => Seq::empty(),
        }
    }
}


/// Adds the `#EXRANKxx` headers by increasing id.
pub fn push_exrank_defs(out: &mut Vec<Token>, m: &ObjIdMap<ExRankDef>)
    ensures
        texts(final(out)@) == texts(old(out)@) + exrank_defs(*m, 3844),
{
    proof {
        reveal_strlit("EXRANK");
    }
    let mut k: u16 = 0;
    while k < 3844
        invariant
            k <= 3844,
            texts(out@) == texts(old(out)@) + exrank_defs(*m, k as int),
        decreases 3844 - k,
    {
        match m.get_at(k) {
            Some(d) => {
                let id = ObjId::from_u16(k).unwrap();
                let name = concat("EXRANK", id_text(id).as_str());
                push_header(out, name, judge_level_to_text(d.judge_level));
            },
            None => {},
        }
        assert(texts(out@) =~= texts(old(out)@) + exrank_defs(*m, k + 1));
        k += 1;
    }
}

/// Writes the arguments of `#EXWAVxx`.
pub fn exwav_to_text(d: &ExWavDef) -> (r: String)
    ensures
        r@ == exwav_args(*d),
{
    let mut parts: Vec<String> = Vec::new();
    match d.frequency {
        Some(f) => {
            let cs = vec!['p', 'v', 'f'];
            parts.push(crate::text::string_of(cs.as_slice()));
            parts.push(i64_to_text(d.pan));
            parts.push(i64_to_text(d.volume));
            parts.push(u64_to_text(f));
            parts.push(d.path.clone());
            assert(parts@.map_values(|p: String| p@) =~= seq![
                seq!['p', 'v', 'f'],
                signed_decimal_text(d.pan as int),
                signed_decimal_text(d.volume as int),
                decimal_text(f as nat),
                d.path@,
            ]);
        },
        None => {
            let cs = vec!['p', 'v'];
            parts.push(crate::text::string_of(cs.as_slice()));
            parts.push(i64_to_text(d.pan));
            parts.push(i64_to_text(d.volume));
            parts.push(d.path.clone());
            assert(parts@.map_values(|p: String| p@) =~= seq![
                seq!['p', 'v'],
                signed_decimal_text(d.pan as int),
                signed_decimal_text(d.volume as int),
                d.path@,
            ]);
        },
    }
    join_texts(&parts, ' ')
}

/// Writes the arguments of `#WAVCMD`.
pub fn wavcmd_to_text(e: &WavCmdEvent) -> (r: String)
    ensures
        r@ == wavcmd_args(*e),
{
    let word = match e.param {
        WavCmdParam::Pitch => vec!['0', '0'],
        WavCmdParam::Volume => vec!['0', '1'],
        WavCmdParam::Time => vec!['0', '2'],
    };
    let mut parts: Vec<String> = Vec::new();
    parts.push(crate::text::string_of(word.as_slice()));
    parts.push(id_text(e.wav_index));
    parts.push(u64_to_text(e.value as u64));
    assert(parts@.map_values(|p: String| p@) =~= seq![
        wavcmd_param_text(e.param),
        spec_id_text(e.wav_index),
        decimal_text(e.value as nat),
    ]);
    join_texts(&parts, ' ')
}

/// Adds the `#EXWAVxx` headers by increasing id.
pub fn push_exwav_defs(out: &mut Vec<Token>, m: &ObjIdMap<ExWavDef>)
    ensures
        texts(final(out)@) == texts(old(out)@) + exwav_defs(*m, 3844),
{
    proof {
        reveal_strlit("EXWAV");
    }
    let mut k: u16 = 0;
    while k < 3844
        invariant
            k <= 3844,
            texts(out@) == texts(old(out)@) + exwav_defs(*m, k as int),
        decreases 3844 - k,
    {
        match m.get_at(k) {
            Some(d) => {
                let id = ObjId::from_u16(k).unwrap();
                let name = concat("EXWAV", id_text(id).as_str());
                push_header(out, name, exwav_to_text(d));
            },
            None => {},
        }
        assert(texts(out@) =~= texts(old(out)@) + exwav_defs(*m, k + 1));
        k += 1;
    }
}

/// Adds the `#WAVCMD` headers by increasing id of their sound.
pub fn push_wavcmd_defs(out: &mut Vec<Token>, m: &ObjIdMap<WavCmdEvent>)
    ensures
        texts(final(out)@) == texts(old(out)@) + wavcmd_defs(*m, 3844),
{
    let mut k: u16 = 0;
    while k < 3844
        invariant
            k <= 3844,
            texts(out@) == texts(old(out)@) + wavcmd_defs(*m, k as int),
        decreases 3844 - k,
    {
        match m.get_at(k) {
            Some(e) => {
                push_header(out, owned("WAVCMD"), wavcmd_to_text(e));
            },
            None => {},
        }
        assert(texts(out@) =~= texts(old(out)@) + wavcmd_defs(*m, k + 1));
        k += 1;
    }
}

/// Adds the `#@BGAxx` headers by increasing id.
pub fn push_atbga_defs(out: &mut Vec<Token>, m: &ObjIdMap<AtBgaDef>)
    ensures
        texts(final(out)@) == texts(old(out)@) + atbga_defs(*m, 3844),
{
    proof {
        reveal_strlit("@BGA");
    }
    let mut k: u16 = 0;
    while k < 3844
        invariant
            k <= 3844,
            texts(out@) == texts(old(out)@) + atbga_defs(*m, k as int),
        decreases 3844 - k,
    {
        match m.get_at(k) {
            Some(d) => {
                let id = ObjId::from_u16(k).unwrap();
                let name = concat("@BGA", id_text(id).as_str());
                push_header(out, name, atbga_to_args(d));
            },
            None => {},
        }
        assert(texts(out@) =~= texts(old(out)@) + atbga_defs(*m, k + 1));
        k += 1;
    }
}

/// Adds the `#BGAxx` headers by increasing id.
pub fn push_bga_defs(out: &mut Vec<Token>, m: &ObjIdMap<BgaDef>)
    ensures
        texts(final(out)@) == texts(old(out)@) + bga_defs(*m, 3844),
{
    proof {
        reveal_strlit("BGA");
    }
    let mut k: u16 = 0;
    while k < 3844
        invariant
            k <= 3844,
            texts(out@) == texts(old(out)@) + bga_defs(*m, k as int),
        decreases 3844 - k,
    {
        match m.get_at(k) {
            Some(d) => {
                let id = ObjId::from_u16(k).unwrap();
                let name = concat("BGA", id_text(id).as_str());
                push_header(out, name, bga_to_args(d));
            },
            None => {},
        }
        assert(texts(out@) =~= texts(old(out)@) + bga_defs(*m, k + 1));
        k += 1;
    }
}

/// Adds the `#ARGBxx` headers by increasing id.
pub fn push_argb_defs(out: &mut Vec<Token>, m: &ObjIdMap<Argb>)
    ensures
        texts(final(out)@) == texts(old(out)@) + argb_defs(*m, 3844),
{
    proof {
        reveal_strlit("ARGB");
    }
    let mut k: u16 = 0;
    while k < 3844
        invariant
            k <= 3844,
            texts(out@) == texts(old(out)@) + argb_defs(*m, k as int),
        decreases 3844 - k,
    {
        match m.get_at(k) {
            Some(d) => {
                let id = ObjId::from_u16(k).unwrap();
                let name = concat("ARGB", id_text(id).as_str());
                push_header(out, name, argb_to_text(*d));
            },
            None => {},
        }
        assert(texts(out@) =~= texts(old(out)@) + argb_defs(*m, k + 1));
        k += 1;
    }
}

/// Adds the `#SWBGAxx` headers by increasing id.
pub fn push_swbga_defs(out: &mut Vec<Token>, m: &ObjIdMap<SwBgaEvent>)
    ensures
        texts(final(out)@) == texts(old(out)@) + swbga_defs(*m, 3844),
{
    proof {
        reveal_strlit("SWBGA");
    }
    let mut k: u16 = 0;
    while k < 3844
        invariant
            k <= 3844,
            texts(out@) == texts(old(out)@) + swbga_defs(*m, k as int),
        decreases 3844 - k,
    {
        match m.get_at(k) {
            Some(d) => {
                let id = ObjId::from_u16(k).unwrap();
                let name = concat("SWBGA", id_text(id).as_str());
                push_header(out, name, swbga_to_args(d));
            },
            None => {},
        }
        assert(texts(out@) =~= texts(old(out)@) + swbga_defs(*m, k + 1));
        k += 1;
    }
}

/// Adds the picture headers by increasing id.
pub fn push_bmp_defs(out: &mut Vec<Token>, m: &ObjIdMap<Bmp>)
    ensures
        texts(final(out)@) == texts(old(out)@) + bmp_defs(*m, 3844),
{
    proof {
        reveal_strlit("BMP");
        reveal_strlit("EXBMP");
        reveal_strlit(" ");
        assert(" "@ =~= seq![' ']);
    }
    let mut k: u16 = 0;
    while k < 3844
        invariant
            k <= 3844,
            texts(out@) == texts(old(out)@) + bmp_defs(*m, k as int),
        decreases 3844 - k,
    {
        match m.get_at(k) {
            Some(b) => {
                if !crate::text::is_empty_text(b.file.as_str()) {
                    let id = ObjId::from_u16(k).unwrap();
                    let c = b.transparent_color;
                    if c.alpha == 255 && c.red == 0 && c.green == 0 && c.blue == 0 {
                        push_header(out, concat("BMP", id_text(id).as_str()), b.file.clone());
                    } else {
                        let color = argb_to_text(c);
                        proof {
                            reveal_strlit(" ");
                            assert(" "@ =~= seq![' ']);
                        }
                        let head = concat(color.as_str(), " ");
                        let args = concat(head.as_str(), b.file.as_str());
                        assert(b.transparent_color != (Argb { alpha: 255, red: 0, green: 0, blue: 0 }));
                        push_header(out, concat("EXBMP", id_text(id).as_str()), args);
                    }
                }
            },
            None => {},
        }
        assert(texts(out@) =~= texts(old(out)@) + bmp_defs(*m, k + 1));
        k += 1;
    }
}


/// The arguments of `#EXTCHR`: six numbers, then the offset and the absolute position when
/// both of their coordinates are given, joined by blanks.
pub open spec fn extchr_args(e: ExtChrEvent) -> Seq<char> {
    let base = seq![e.sprite_num as int, e.bmp_num as int, e.start_x as int, e.start_y as int, e.end_x as int, e.end_y as int];
    let with_offset = match (e.offset_x, e.offset_y) {
        (Some(x), Some(y)) => base + seq![x as int, y as int],
        _ => base,
    };
    let all = match (e.abs_x, e.abs_y) {
        (Some(x), Some(y)) => with_offset + seq![x as int, y as int],
        _ => with_offset,
    };
    join(all.map_values(|v: int| signed_decimal_text(v)), ' ')
}

fn extchr_to_args(e: &ExtChrEvent) -> (r: String)
    ensures
        r@ == extchr_args(*e),
{
    let ghost base = seq![e.sprite_num as int, e.bmp_num as int, e.start_x as int, e.start_y as int, e.end_x as int, e.end_y as int];
    let mut nums: Vec<i64> = Vec::new();
    nums.push(e.sprite_num as i64);
    nums.push(e.bmp_num as i64);
    nums.push(e.start_x as i64);
    nums.push(e.start_y as i64);
    nums.push(e.end_x as i64);
    nums.push(e.end_y as i64);
    match (e.offset_x, e.offset_y) {
        (Some(x), Some(y)) => {
            nums.push(x as i64);
            nums.push(y as i64);
        },
        _ => {},
    }
    match (e.abs_x, e.abs_y) {
        (Some(x), Some(y)) => {
            nums.push(x as i64);
            nums.push(y as i64);
        },
        _ => {},
    }
    let ghost all = {
        let with_offset = match (e.offset_x, e.offset_y) {
            (Some(x), Some(y)) => base + seq![x as int, y as int],
            _ => base,
        };
        match (e.abs_x, e.abs_y) {
            (Some(x), Some(y)) => with_offset + seq![x as int, y as int],
            _ => with_offset,
        }
    };
    assert(nums@.map_values(|v: i64| v as int) =~= all);
    let mut parts: Vec<String> = Vec::new();
    let mut i: usize = 0;
    while i < nums.len()
        invariant
            i <= nums@.len(),
            nums@.map_values(|v: i64| v as int) == all,
            parts@.map_values(|p: String| p@) == all.take(i as int).map_values(|v: int| signed_decimal_text(v)),
        decreases nums@.len() - i,
    {
        assert(nums@.map_values(|v: i64| v as int)[i as int] == nums@[i as int] as int);
        assert(all[i as int] == nums@[i as int] as int);
        let ghost prev = parts@.map_values(|p: String| p@);
        let t = i64_to_text(nums[i]);
        parts.push(t);
        assert(parts@.map_values(|p: String| p@) =~= prev.push(t@));
        assert(all.take(i + 1).map_values(|v: int| signed_decimal_text(v)) =~= all.take(i as int).map_values(
            |v: int| signed_decimal_text(v),
        ).push(signed_decimal_text(all[i as int])));
        i += 1;
    }
    assert(all.take(all.len() as int) =~= all);
    join_texts(&parts, ' ')
}

/// The headers of each text of a list under one name.
pub open spec fn list_texts(name: Seq<char>, v: Seq<String>) -> Seq<(u8, Seq<char>, Seq<char>)> {
    v.map_values(|s: String| hd(name, s@))
}

/// Adds a header `name` for each text of a list.
pub fn push_list(out: &mut Vec<Token>, name: &str, v: &Vec<String>)
    ensures
        texts(final(out)@) == texts(old(out)@) + list_texts(name@, v@),
{
    let mut i: usize = 0;
    while i < v.len()
        invariant
            i <= v@.len(),
            texts(out@) == texts(old(out)@) + list_texts(name@, v@.take(i as int)),
        decreases v@.len() - i,
    {
        push_header(out, owned(name), v[i].clone());
        i += 1;
        assert(list_texts(name@, v@.take(i as int)) =~= list_texts(name@, v@.take(i - 1)).push(hd(name@, v@[i - 1]@)));
        assert(texts(out@) =~= texts(old(out)@) + list_texts(name@, v@.take(i as int)));
    }
    assert(v@.take(v@.len() as int) =~= v@);
}

/// The header `name` with the first text of a list, if there is one and it is not empty.
pub open spec fn first_path(name: Seq<char>, v: Seq<String>) -> Seq<(u8, Seq<char>, Seq<char>)> {
    if v.len() > 0 && v[0]@.len() > 0 {
        seq![hd(name, v[0]@)]
    } else {
        Seq::empty()
    }
}

/// Adds the header `name` with the first text of a list, if there is one and it is not
/// empty.
pub fn push_first_path(out: &mut Vec<Token>, name: &str, v: &Vec<String>)
    ensures
        texts(final(out)@) == texts(old(out)@) + first_path(name@, v@),
{
    if v.len() > 0 && !crate::text::is_empty_text(v[0].as_str()) {
        push_header(out, owned(name), v[0].clone());
    }
    assert(texts(out@) =~= texts(old(out)@) + first_path(name@, v@));
}

/// The lines that begin a score: the options, the octave mode, the CD audio tracks, the
/// extended characters, the option changes, the divide property and the materials path.
pub open spec fn leading_headers(bms: Bms) -> Seq<(u8, Seq<char>, Seq<char>)> {
    (match bms.option.options {
        Some(v) => list_texts("OPTION"@, v@),
        None => Seq::empty(),
    }) + (if bms.metadata.is_octave {
        seq![hd("OCT/FP"@, Seq::empty())]
    } else {
        Seq::empty()
    }) + bms.resources.cdda@.map_values(|c: u64| hd("CDDA"@, decimal_text(c as nat)))
        + bms.sprite.extchr_events@.map_values(|e: ExtChrEvent| hd("EXTCHR"@, extchr_args(e)))
        + text_defs(bms.option.change_options, "CHANGEOPTION"@, false, 3844)
        + opt_text("DIVIDEPROP"@, bms.metadata.divide_prop)
        + opt_path("MATERIALS"@, bms.resources.materials_path)
}

/// Adds the lines that begin a score.
pub fn push_leading_headers(out: &mut Vec<Token>, bms: &Bms)
    ensures
        texts(final(out)@) == texts(old(out)@) + leading_headers(*bms),
{
    let ghost t0 = texts(out@);
    match &bms.option.options {
        Some(v) => push_list(out, "OPTION", v),
        None => {},
    }
    let ghost t1 = texts(out@);
    if bms.metadata.is_octave {
        push_header(out, owned("OCT/FP"), String::new());
    }
    let ghost t2 = texts(out@);
    let mut i: usize = 0;
    while i < bms.resources.cdda.len()
        invariant
            i <= bms.resources.cdda@.len(),
            texts(out@) == t2 + bms.resources.cdda@.take(i as int).map_values(|c: u64| hd("CDDA"@, decimal_text(c as nat))),
        decreases bms.resources.cdda@.len() - i,
    {
        push_header(out, owned("CDDA"), u64_to_text(bms.resources.cdda[i]));
        i += 1;
        assert(texts(out@) =~= t2 + bms.resources.cdda@.take(i as int).map_values(|c: u64| hd("CDDA"@, decimal_text(c as nat))));
    }
    assert(bms.resources.cdda@.take(bms.resources.cdda@.len() as int) =~= bms.resources.cdda@);
    let ghost t3 = texts(out@);
    let mut j: usize = 0;
    while j < bms.sprite.extchr_events.len()
        invariant
            j <= bms.sprite.extchr_events@.len(),
            texts(out@) == t3 + bms.sprite.extchr_events@.take(j as int).map_values(|e: ExtChrEvent| hd("EXTCHR"@, extchr_args(e))),
        decreases bms.sprite.extchr_events@.len() - j,
    {
        push_header(out, owned("EXTCHR"), extchr_to_args(&bms.sprite.extchr_events[j]));
        j += 1;
        assert(texts(out@) =~= t3 + bms.sprite.extchr_events@.take(j as int).map_values(|e: ExtChrEvent| hd("EXTCHR"@, extchr_args(e))));
    }
    assert(bms.sprite.extchr_events@.take(bms.sprite.extchr_events@.len() as int) =~= bms.sprite.extchr_events@);
    let ghost t4 = texts(out@);
    push_text_defs(out, &bms.option.change_options, "CHANGEOPTION", false);
    push_opt_text(out, "DIVIDEPROP", &bms.metadata.divide_prop);
    push_opt_path(out, "MATERIALS", &bms.resources.materials_path);
    proof {
        reveal_strlit("OCT/FP");
        assert(t1 == t0 + match bms.option.options {
            Some(v) => list_texts("OPTION"@, v@),
            None => Seq::empty(),
        }) by {
            if bms.option.options is None {
                assert(t1 =~= t0 + Seq::<(u8, Seq<char>, Seq<char>)>::empty());
            }
        }
        assert(t2 =~= t1 + (if bms.metadata.is_octave {
            seq![hd("OCT/FP"@, Seq::empty())]
        } else {
            Seq::empty()
        }));
        assert(texts(out@) =~= texts(old(out)@) + leading_headers(*bms));
    }
}


/// The number of a play style.
pub open spec fn player_text(p: PlayerMode) -> Seq<char> {
    match p {
        PlayerMode::Single => seq!['1'],
        PlayerMode::Two => seq!['2'],
        PlayerMode::Double => seq!['3'],
    }
}

/// The first lines about the score: play style, maker, genre, title, artists, tempo and
/// level.
pub open spec fn title_headers(bms: Bms) -> Seq<(u8, Seq<char>, Seq<char>)> {
    (match bms.metadata.player {
        Some(p) => seq![hd("PLAYER"@, player_text(p))],
        None => Seq::empty(),
    }) + opt_text("MAKER"@, bms.music_info.maker) + opt_text("GENRE"@, bms.music_info.genre) + opt_text(
        "TITLE"@,
        bms.music_info.title,
    ) + opt_text("ARTIST"@, bms.music_info.artist) + opt_text("SUBARTIST"@, bms.music_info.sub_artist)
        + opt_value("BPM"@, bms.bpm.bpm) + opt_number("PLAYLEVEL"@, bms.metadata.play_level)
}

/// The next lines: rank, subtitle, pictures, difficulty and preview.
pub open spec fn picture_headers(bms: Bms) -> Seq<(u8, Seq<char>, Seq<char>)> {
    (match bms.judge.rank {
        Some(l) => seq![hd("RANK"@, judge_level_text(l))],
        None => Seq::empty(),
    }) + opt_text("SUBTITLE"@, bms.music_info.subtitle) + opt_path("STAGEFILE"@, bms.sprite.stage_file)
        + opt_path("BACKBMP"@, bms.sprite.back_bmp) + opt_path("BANNER"@, bms.sprite.banner) + opt_number(
        "DIFFICULTY"@,
        bms.metadata.difficulty,
    ) + opt_path("PREVIEW"@, bms.music_info.preview_music)
}

/// The last lines about the score: the comment lines, total, e-mail, URL, and the long note
/// type and mode when they are not the defaults.
pub open spec fn closing_headers(bms: Bms) -> Seq<(u8, Seq<char>, Seq<char>)> {
    (match bms.music_info.comment {
        Some(v) => v@.map_values(|line: String| (2u8, line@, Seq::<char>::empty())),
        None => Seq::empty(),
    }) + opt_value("TOTAL"@, bms.judge.total) + opt_text("EMAIL"@, bms.metadata.email) + opt_text(
        "URL"@,
        bms.metadata.url,
    ) + (if bms.repr.ln_type is Mgq {
        seq![hd("LNTYPE"@, seq!['2'])]
    } else {
        Seq::empty()
    }) + (match bms.repr.ln_mode {
        LnMode::Ln => Seq::empty(),
        LnMode::Cn => seq![hd("LNMODE"@, seq!['2'])],
        LnMode::Hcn => seq![hd("LNMODE"@, seq!['3'])],
    })
}

/// The lines about the score.
pub open spec fn score_headers(bms: Bms) -> Seq<(u8, Seq<char>, Seq<char>)> {
    title_headers(bms) + picture_headers(bms) + closing_headers(bms)
}

#[verifier::spinoff_prover]
#[verifier::rlimit(60)]
fn push_title_headers(out: &mut Vec<Token>, bms: &Bms)
    ensures
        texts(final(out)@) == texts(old(out)@) + title_headers(*bms),
{
    let ghost t0 = texts(out@);
    match bms.metadata.player {
        Some(p) => {
            let d = match p {
                PlayerMode::Single => '1',
                PlayerMode::Two => '2',
                PlayerMode::Double => '3',
            };
            push_header(out, owned("PLAYER"), owned_digit(d));
        },
        None => {},
    }
    let ghost t1 = texts(out@);
    assert(t1 =~= t0 + match bms.metadata.player {
        Some(p) => seq![hd("PLAYER"@, player_text(p))],
        None => Seq::empty(),
    });
    push_opt_text(out, "MAKER", &bms.music_info.maker);
    push_opt_text(out, "GENRE", &bms.music_info.genre);
    push_opt_text(out, "TITLE", &bms.music_info.title);
    push_opt_text(out, "ARTIST", &bms.music_info.artist);
    push_opt_text(out, "SUBARTIST", &bms.music_info.sub_artist);
    push_opt_value(out, "BPM", &bms.bpm.bpm);
    push_opt_number(out, "PLAYLEVEL", bms.metadata.play_level);
    assert(texts(out@) =~= texts(old(out)@) + title_headers(*bms));
}

fn push_picture_headers(out: &mut Vec<Token>, bms: &Bms)
    ensures
        texts(final(out)@) == texts(old(out)@) + picture_headers(*bms),
{
    let ghost t0 = texts(out@);
    match bms.judge.rank {
        Some(l) => push_header(out, owned("RANK"), judge_level_to_text(l)),
        None => {},
    }
    let ghost t1 = texts(out@);
    assert(t1 =~= t0 + match bms.judge.rank {
        Some(l) => seq![hd("RANK"@, judge_level_text(l))],
        None => Seq::empty(),
    });
    push_opt_text(out, "SUBTITLE", &bms.music_info.subtitle);
    push_opt_path(out, "STAGEFILE", &bms.sprite.stage_file);
    push_opt_path(out, "BACKBMP", &bms.sprite.back_bmp);
    push_opt_path(out, "BANNER", &bms.sprite.banner);
    push_opt_number(out, "DIFFICULTY", bms.metadata.difficulty);
    push_opt_path(out, "PREVIEW", &bms.music_info.preview_music);
    assert(texts(out@) =~= texts(old(out)@) + picture_headers(*bms));
}

#[verifier::rlimit(60)]
fn push_closing_headers(out: &mut Vec<Token>, bms: &Bms)
    ensures
        texts(final(out)@) == texts(old(out)@) + closing_headers(*bms),
{
    let ghost t4 = texts(out@);
    match &bms.music_info.comment {
        Some(v) => {
            let mut i: usize = 0;
            while i < v.len()
                invariant
                    i <= v@.len(),
                    texts(out@) == t4 + v@.take(i as int).map_values(|line: String| (2u8, line@, Seq::<char>::empty())),
                decreases v@.len() - i,
            {
                push_line(out, v[i].clone());
                i += 1;
                assert(texts(out@) =~= t4 + v@.take(i as int).map_values(|line: String| (2u8, line@, Seq::<char>::empty())));
            }
            assert(v@.take(v@.len() as int) =~= v@);
        },
        None => {},
    }
    let ghost t5 = texts(out@);
    assert(t5 =~= t4 + match bms.music_info.comment {
        Some(v) => v@.map_values(|line: String| (2u8, line@, Seq::<char>::empty())),
        None => Seq::empty(),
    });
    push_opt_value(out, "TOTAL", &bms.judge.total);
    push_opt_text(out, "EMAIL", &bms.metadata.email);
    push_opt_text(out, "URL", &bms.metadata.url);
    let ghost t6 = texts(out@);
    if let LnType::Mgq = bms.repr.ln_type {
        push_header(out, owned("LNTYPE"), owned_digit('2'));
    }
    let ghost t7 = texts(out@);
    assert(t7 =~= t6 + if bms.repr.ln_type is Mgq {
        seq![hd("LNTYPE"@, seq!['2'])]
    } else {
        Seq::empty()
    });
    match bms.repr.ln_mode {
        LnMode::Ln => {},
        LnMode::Cn => push_header(out, owned("LNMODE"), owned_digit('2')),
        LnMode::Hcn => push_header(out, owned("LNMODE"), owned_digit('3')),
    }
    assert(texts(out@) =~= texts(old(out)@) + closing_headers(*bms));
}

/// Adds the lines about the score.
pub fn push_score_headers(out: &mut Vec<Token>, bms: &Bms)
    ensures
        texts(final(out)@) == texts(old(out)@) + score_headers(*bms),
{
    push_title_headers(out, bms);
    push_picture_headers(out, bms);
    push_closing_headers(out, bms);
    assert(texts(out@) =~= texts(old(out)@) + score_headers(*bms));
}

/// The definitions: sounds (with a file), the miss picture mode, the base tempo, then the
/// tempo, stop, seek, scrolling, spacing, text, judge, effect sound, sound effect, cropped
/// picture, color and animation definitions, each by increasing id.
pub open spec fn definition_headers(bms: Bms) -> Seq<(u8, Seq<char>, Seq<char>)> {
    text_defs(bms.wav.wav_files, "WAV"@, true, 3844) + (match bms.bmp.poor_bga_mode {
        PoorMode::Interrupt => Seq::empty(),
        PoorMode::Overlay => seq![hd("POORBGA"@, seq!['1'])],
        PoorMode::Hidden => seq![hd("POORBGA"@, seq!['2'])],
    }) + opt_value("BASEBPM"@, bms.bpm.base_bpm) + value_defs(bms.bpm.bpm_defs, "BPM"@, 3844) + value_defs(
        bms.stop.stop_defs,
        "STOP"@,
        3844,
    ) + value_defs(bms.video.seek_defs, "SEEK"@, 3844) + value_defs(bms.scroll.scroll_defs, "SCROLL"@, 3844)
        + value_defs(bms.speed.speed_defs, "SPEED"@, 3844) + text_defs(bms.text.texts, "TEXT"@, false, 3844)
        + exrank_defs(bms.judge.exrank_defs, 3844) + exwav_defs(bms.wav.exwav_defs, 3844) + wavcmd_defs(
        bms.wav.wavcmd_events,
        3844,
    ) + atbga_defs(bms.bmp.atbga_defs, 3844) + bga_defs(
        bms.bmp.bga_defs,
        3844,
    ) + argb_defs(bms.bmp.argb_defs, 3844) + swbga_defs(bms.bmp.swbga_events, 3844)
}

/// Adds the definitions.
#[verifier::rlimit(60)]
pub fn push_definition_headers(out: &mut Vec<Token>, bms: &Bms)
    ensures
        texts(final(out)@) == texts(old(out)@) + definition_headers(*bms),
{
    push_text_defs(out, &bms.wav.wav_files, "WAV", true);
    let ghost t1 = texts(out@);
    match bms.bmp.poor_bga_mode {
        PoorMode::Interrupt => {},
        PoorMode::Overlay => push_header(out, owned("POORBGA"), owned_digit('1')),
        PoorMode::Hidden => push_header(out, owned("POORBGA"), owned_digit('2')),
    }
    let ghost t2 = texts(out@);
    push_opt_value(out, "BASEBPM", &bms.bpm.base_bpm);
    push_value_defs(out, &bms.bpm.bpm_defs, "BPM");
    push_value_defs(out, &bms.stop.stop_defs, "STOP");
    push_value_defs(out, &bms.video.seek_defs, "SEEK");
    push_value_defs(out, &bms.scroll.scroll_defs, "SCROLL");
    push_value_defs(out, &bms.speed.speed_defs, "SPEED");
    push_text_defs(out, &bms.text.texts, "TEXT", false);
    push_exrank_defs(out, &bms.judge.exrank_defs);
    push_exwav_defs(out, &bms.wav.exwav_defs);
    push_wavcmd_defs(out, &bms.wav.wavcmd_events);
    push_atbga_defs(out, &bms.bmp.atbga_defs);
    push_bga_defs(out, &bms.bmp.bga_defs);
    push_argb_defs(out, &bms.bmp.argb_defs);
    push_swbga_defs(out, &bms.bmp.swbga_events);
    proof {
        assert(t2 =~= t1 + match bms.bmp.poor_bga_mode {
            PoorMode::Interrupt => Seq::empty(),
            PoorMode::Overlay => seq![hd("POORBGA"@, seq!['1'])],
            PoorMode::Hidden => seq![hd("POORBGA"@, seq!['2'])],
        });
        assert(texts(out@) =~= texts(old(out)@) + definition_headers(*bms));
    }
}

/// The resources: the sound path, MIDI file, first sound material, video file and its
/// colors, delay and frame rate, character file, first picture material, and the volume
/// when it is not 100%.
pub open spec fn resource_headers(bms: Bms) -> Seq<(u8, Seq<char>, Seq<char>)> {
    opt_text("PATH_WAV"@, bms.metadata.wav_path_root) + opt_path("MIDIFILE"@, bms.resources.midi_file)
        + first_path("MATERIALSWAV"@, bms.resources.materials_wav@) + opt_path(
        "VIDEOFILE"@,
        bms.video.video_file,
    ) + opt_number("VIDEOCOLORS"@, bms.video.video_colors) + opt_value("VIDEODLY"@, bms.video.video_dly)
        + opt_value("VIDEOF/S"@, bms.video.video_fs) + opt_path("CHARFILE"@, bms.sprite.char_file)
        + first_path("MATERIALSBMP"@, bms.resources.materials_bmp@) + (if bms.volume.volume.relative_percent
        != 100 {
        seq![hd("VOLWAV"@, decimal_text(bms.volume.volume.relative_percent as nat))]
    } else {
        Seq::empty()
    })
}

/// Adds the resources.
pub fn push_resource_headers(out: &mut Vec<Token>, bms: &Bms)
    ensures
        texts(final(out)@) == texts(old(out)@) + resource_headers(*bms),
{
    push_opt_text(out, "PATH_WAV", &bms.metadata.wav_path_root);
    push_opt_path(out, "MIDIFILE", &bms.resources.midi_file);
    push_first_path(out, "MATERIALSWAV", &bms.resources.materials_wav);
    push_opt_path(out, "VIDEOFILE", &bms.video.video_file);
    push_opt_number(out, "VIDEOCOLORS", bms.video.video_colors);
    push_opt_value(out, "VIDEODLY", &bms.video.video_dly);
    push_opt_value(out, "VIDEOF/S", &bms.video.video_fs);
    push_opt_path(out, "CHARFILE", &bms.sprite.char_file);
    push_first_path(out, "MATERIALSBMP", &bms.resources.materials_bmp);
    let ghost t = texts(out@);
    if bms.volume.volume.relative_percent != 100 {
        push_header(out, owned("VOLWAV"), u64_to_text(bms.volume.volume.relative_percent as u64));
    }
    assert(texts(out@) =~= texts(old(out)@) + resource_headers(*bms));
}

} // verus!
