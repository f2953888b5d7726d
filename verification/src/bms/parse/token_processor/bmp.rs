//! Pictures: `#BMPxx`, `#EXBMPxx`, `#ARGBxx`, `#POORBGA`, `#@BGAxx`, `#BGAxx`, `#SWBGAxx`,
//! and the BGA channels (`04`, `06`, `07`, `0A`), their opacity channels (`0B` to `0E`),
//! their transparent color channels (`A1` to `A4`) and the key bound channel `A5`.
use crate::bms::command::{
    channel_lane, layer_of, spec_channel_lane, spec_layer_of, spec_obj_id_of, spec_obj_id_text,
    Channel, ObjId, ObjTime, PoorMode, Track,
};
use crate::bms::error::{ParseErrorWithRange, ParseWarning, ParseWarningWithRange};
use crate::bms::lex::{Token, TokenWithRange};
use crate::bms::model::{spec_defined, spec_push, ObjIdMap, Timeline};
use crate::bms::objects::{
    AtBgaDef, BgaArgbObj, BgaDef, BgaKeyboundObj, BgaObj, BgaOpacityObj, Bmp, BmpObjects,
    PixelPoint, PixelSize, SwBgaEvent,
};
use crate::bms::parse::token_processor::{
    add_placed, header_warnings, message_warnings, placed_warnings, push_all, push_defined, push_made,
    push_values, DefValue, TimedObj,
};
use crate::bms::parse::{hex_pairs, obj_pairs, parse_hex_values, parse_obj_ids, TokenProcessor};
use crate::bms::prompt::{DefDuplication, Prompter};
use crate::chart::types::{Argb, BgaLayer};
use crate::text::{
    eq_ignore_ascii_case, eq_ignore_case, holds_text, is_empty_text, lemma_prefix_char, owned,
    parse_i16, parse_u16, parse_u32, parse_u8, spec_parse_signed, spec_parse_unsigned,
    spec_strip_prefix_ignore_case, split_on, split_on_char, split_words, starts_with_ascii_ignore_case,
    starts_with_ignore_case, strip_prefix_ignore_case, text_eq, upper, words,
};
use vstd::prelude::*;

verus! {

/// The layer of a BGA channel; `Base` for a channel of no layer.
pub open spec fn spec_channel_layer(channel: Channel) -> BgaLayer {
    match spec_layer_of(channel) {
        Some(layer) => layer,
        None => BgaLayer::Base,
    }
}

/// Computes `spec_channel_layer`.
fn channel_layer(channel: Channel) -> (r: BgaLayer)
    ensures
        r == spec_channel_layer(channel),
{
    match layer_of(channel) {
        Some(layer) => layer,
        None => BgaLayer::Base,
    }
}

impl DefValue for Argb {
    fn copy_value(&self) -> (r: Self) {
        *self
    }
}

impl DefValue for SwBgaEvent {
    fn copy_value(&self) -> (r: Self) {
        SwBgaEvent {
            frame_rate: self.frame_rate,
            total_time: self.total_time,
            line: self.line,
            loop_mode: self.loop_mode,
            argb: self.argb,
            pattern: self.pattern.clone(),
        }
    }
}

impl TimedObj<Argb> for BgaArgbObj {
    open spec fn spec_make(time: ObjTime, channel: Channel, v: Argb) -> Self {
        BgaArgbObj { time, layer: spec_channel_layer(channel), argb: v }
    }

    fn make(time: ObjTime, channel: Channel, v: Argb) -> (r: Self) {
        BgaArgbObj { time, layer: channel_layer(channel), argb: v }
    }
}

impl TimedObj<u8> for BgaOpacityObj {
    open spec fn spec_make(time: ObjTime, channel: Channel, v: u8) -> Self {
        BgaOpacityObj { time, layer: spec_channel_layer(channel), opacity: v }
    }

    fn make(time: ObjTime, channel: Channel, v: u8) -> (r: Self) {
        BgaOpacityObj { time, layer: channel_layer(channel), opacity: v }
    }
}

impl TimedObj<SwBgaEvent> for BgaKeyboundObj {
    open spec fn spec_make(time: ObjTime, channel: Channel, v: SwBgaEvent) -> Self {
        BgaKeyboundObj { time, event: v }
    }

    fn make(time: ObjTime, channel: Channel, v: SwBgaEvent) -> (r: Self) {
        BgaKeyboundObj { time, event: v }
    }
}

/// A byte as `u8::from_str` reads it.
pub open spec fn byte_of(s: Seq<char>) -> Option<int> {
    spec_parse_unsigned(s, u8::MAX as int)
}

/// The color `a,r,g,b` of four bytes.
pub open spec fn spec_argb(s: Seq<char>) -> Option<Argb> {
    let p = split_on(s, ',');
    if p.len() != 4 {
        None
    } else {
        match (byte_of(p[0]), byte_of(p[1]), byte_of(p[2]), byte_of(p[3])) {
            (Some(a), Some(r), Some(g), Some(b)) => Some(
                Argb { alpha: a as u8, red: r as u8, green: g as u8, blue: b as u8 },
            ),
            _ => None,
        }
    }
}

/// Reads the color `a,r,g,b`; `what` names the values in the warning.
pub fn parse_argb(s: &str) -> (r: Result<Argb, ParseWarning>)
    ensures
        match spec_argb(s@) {
            Some(a) => r == Ok::<Argb, ParseWarning>(a),
            None => r is Err && r->Err_0 is SyntaxError,
        },
{
    let parts = split_on_char(s, ',');
    let ghost pv = parts@.map_values(|w: String| w@);
    if parts.len() != 4 {
        return Err(ParseWarning::SyntaxError(owned("expected 4 comma-separated values")));
    }
    assert(pv[0] == parts@[0]@ && pv[1] == parts@[1]@ && pv[2] == parts@[2]@ && pv[3] == parts@[3]@);
    let alpha = match parse_u8(parts[0].as_str()) {
        Some(v) => v,
        None => {
            return Err(ParseWarning::SyntaxError(owned("expected u8 alpha value")));
        },
    };
    let red = match parse_u8(parts[1].as_str()) {
        Some(v) => v,
        None => {
            return Err(ParseWarning::SyntaxError(owned("expected u8 red value")));
        },
    };
    let green = match parse_u8(parts[2].as_str()) {
        Some(v) => v,
        None => {
            return Err(ParseWarning::SyntaxError(owned("expected u8 green value")));
        },
    };
    let blue = match parse_u8(parts[3].as_str()) {
        Some(v) => v,
        None => {
            return Err(ParseWarning::SyntaxError(owned("expected u8 blue value")));
        },
    };
    Ok(Argb { alpha, red, green, blue })
}

/// The point of two coordinates as `i16::from_str` reads them.
pub open spec fn spec_pixel_point(x: Seq<char>, y: Seq<char>) -> Option<PixelPoint> {
    match (spec_parse_signed(x, i16::MAX as int), spec_parse_signed(y, i16::MAX as int)) {
        (Some(a), Some(b)) => Some(PixelPoint { x: a as i16, y: b as i16 }),
        _ => None,
    }
}

/// The size of two lengths as `u16::from_str` reads them.
pub open spec fn spec_pixel_size(w: Seq<char>, h: Seq<char>) -> Option<PixelSize> {
    match (spec_parse_unsigned(w, u16::MAX as int), spec_parse_unsigned(h, u16::MAX as int)) {
        (Some(a), Some(b)) => Some(PixelSize { width: a as u16, height: b as u16 }),
        _ => None,
    }
}

fn parse_pixel_point(x: &str, y: &str) -> (r: Option<PixelPoint>)
    ensures
        r == spec_pixel_point(x@, y@),
{
    match (parse_i16(x), parse_i16(y)) {
        (Some(a), Some(b)) => Some(PixelPoint { x: a, y: b }),
        _ => None,
    }
}

fn parse_pixel_size(w: &str, h: &str) -> (r: Option<PixelSize>)
    ensures
        r == spec_pixel_size(w@, h@),
{
    match (parse_u16(w), parse_u16(h)) {
        (Some(a), Some(b)) => Some(PixelSize { width: a, height: b }),
        _ => None,
    }
}

/// The `#BGAxx` definition of id text `t`: `bmp x1 y1 x2 y2 dx dy`.
pub open spec fn spec_bga_def(t: Seq<char>, args: Seq<char>, case_sensitive: bool) -> Option<BgaDef> {
    let ws = words(args);
    if ws.len() != 7 {
        None
    } else {
        match (
            spec_pixel_point(ws[1], ws[2]),
            spec_pixel_point(ws[3], ws[4]),
            spec_pixel_point(ws[5], ws[6]),
        ) {
            (Some(a), Some(b), Some(c)) => if spec_obj_id_text(t) && spec_obj_id_text(ws[0]) {
                Some(
                    BgaDef {
                        id: spec_obj_id_of(t, case_sensitive),
                        source_bmp: spec_obj_id_of(ws[0], case_sensitive),
                        trim_top_left: a,
                        trim_bottom_right: b,
                        draw_point: c,
                    },
                )
            } else {
                None
            },
            _ => None,
        }
    }
}

/// The `#@BGAxx` definition of id text `t`: `bmp x y width height dx dy`.
pub open spec fn spec_atbga_def(t: Seq<char>, args: Seq<char>, case_sensitive: bool) -> Option<AtBgaDef> {
    let ws = words(args);
    if ws.len() != 7 {
        None
    } else {
        match (
            spec_pixel_point(ws[1], ws[2]),
            spec_pixel_size(ws[3], ws[4]),
            spec_pixel_point(ws[5], ws[6]),
        ) {
            (Some(a), Some(b), Some(c)) => if spec_obj_id_text(t) && spec_obj_id_text(ws[0]) {
                Some(
                    AtBgaDef {
                        id: spec_obj_id_of(t, case_sensitive),
                        source_bmp: spec_obj_id_of(ws[0], case_sensitive),
                        trim_top_left: a,
                        trim_size: b,
                        draw_point: c,
                    },
                )
            } else {
                None
            },
            _ => None,
        }
    }
}

/// The parts of `#SWBGAxx fr:time:line:loop:a,r,g,b pattern`: frame rate, total time, line,
/// whether it loops (`1`) or not (`0`), color and pattern; parts after the fifth are
/// ignored.
pub open spec fn spec_swbga(args: Seq<char>) -> Option<(u32, u32, u8, bool, Argb, Seq<char>)> {
    let ws = words(args);
    if ws.len() != 2 {
        None
    } else {
        let p = split_on(ws[0], ':');
        if p.len() < 5 {
            None
        } else {
            match (
                spec_parse_unsigned(p[0], u32::MAX as int),
                spec_parse_unsigned(p[1], u32::MAX as int),
                byte_of(p[2]),
                byte_of(p[3]),
                spec_argb(p[4]),
            ) {
                (Some(fr), Some(tt), Some(line), Some(lp), Some(argb)) => if lp == 0 || lp == 1 {
                    Some((fr as u32, tt as u32, line as u8, lp == 1, argb, ws[1]))
                } else {
                    None
                },
                _ => None,
            }
        }
    }
}

/// The color and file of `#EXBMPxx a,r,g,b file`.
pub open spec fn spec_exbmp(args: Seq<char>) -> Option<(Argb, Seq<char>)> {
    let ws = words(args);
    if ws.len() != 2 {
        None
    } else {
        match spec_argb(ws[0]) {
            Some(a) => Some((a, ws[1])),
            None => None,
        }
    }
}

/// The display mode of `#POORBGA`: `0`, `1` or `2`.
pub open spec fn spec_poor_mode(s: Seq<char>) -> Option<PoorMode> {
    if s == seq!['0'] {
        Some(PoorMode::Interrupt)
    } else if s == seq!['1'] {
        Some(PoorMode::Overlay)
    } else if s == seq!['2'] {
        Some(PoorMode::Hidden)
    } else {
        None
    }
}

/// Whether a header sets the display of the miss picture: `#POORBGA`, also spelt
/// `#BGAPOOR`.
pub open spec fn is_poor_bga_header(name: Seq<char>) -> bool {
    eq_ignore_case(name, "POORBGA"@) || eq_ignore_case(name, "BGAPOOR"@)
}

/// Whether a header is `#BGAxx` (and not `#BGAPOOR`).
pub open spec fn is_bga_header(name: Seq<char>) -> bool {
    !starts_with_ignore_case(name, "BGAPOOR"@) && spec_strip_prefix_ignore_case(name, "BGA"@) is Some
}

/// The picture changes after adding, in turn, one for each pair whose id names a picture,
/// stopping at the first id without picture (`UndefinedObject`) or the first warning of a
/// duplicated position.
pub open spec fn push_bga_all<P: Prompter>(
    s: Seq<(ObjTime, u8, BgaObj)>,
    pairs: Seq<(ObjTime, ObjId)>,
    bmps: ObjIdMap<Bmp>,
    channel: Channel,
    prompter: P,
) -> (Seq<(ObjTime, u8, BgaObj)>, Result<(), ParseWarning>)
    decreases pairs.len(),
{
    if pairs.len() == 0 {
        (s, Ok(()))
    } else {
        let (s1, r1) = push_bga_all(s, pairs.drop_last(), bmps, channel, prompter);
        if r1 is Err {
            (s1, r1)
        } else {
            let (t, id) = pairs.last();
            if bmps.spec_get(id) is None {
                (s1, Err(ParseWarning::UndefinedObject(id)))
            } else {
                spec_push(
                    s1,
                    t,
                    spec_channel_lane(channel),
                    BgaObj { time: t, id, layer: spec_channel_layer(channel) },
                    channel,
                    prompter,
                )
            }
        }
    }
}

/// Once adding picture changes stops with a warning, further pairs change nothing.
proof fn lemma_push_bga_stops<P: Prompter>(
    s: Seq<(ObjTime, u8, BgaObj)>,
    pairs: Seq<(ObjTime, ObjId)>,
    bmps: ObjIdMap<Bmp>,
    channel: Channel,
    prompter: P,
    k: int,
)
    requires
        0 <= k <= pairs.len(),
        push_bga_all(s, pairs.take(k), bmps, channel, prompter).1 is Err,
    ensures
        push_bga_all(s, pairs, bmps, channel, prompter) == push_bga_all(s, pairs.take(k), bmps, channel, prompter),
    decreases pairs.len() - k,
{
    if k < pairs.len() {
        assert(pairs.take(k + 1).drop_last() =~= pairs.take(k));
        lemma_push_bga_stops(s, pairs, bmps, channel, prompter, k + 1);
    } else {
        assert(pairs.take(k) =~= pairs);
    }
}

/// Adds a picture change for each pair; stops at the first id without picture or the first
/// warning of a duplicated position.
#[verifier::spinoff_prover]
#[verifier::rlimit(40)]
fn push_bga_ids<P: Prompter>(
    timeline: &mut Timeline<BgaObj>,
    pairs: &Vec<(ObjTime, ObjId)>,
    bmps: &ObjIdMap<Bmp>,
    channel: Channel,
    prompter: &P,
) -> (r: Result<(), ParseWarning>)
    ensures
        (final(timeline)@, r) == push_bga_all(old(timeline)@, pairs@, *bmps, channel, *prompter),
{
    let mut i: usize = 0;
    while i < pairs.len()
        invariant
            i <= pairs@.len(),
            push_bga_all(old(timeline)@, pairs@.take(i as int), *bmps, channel, *prompter) == (
                timeline@,
                Ok::<(), ParseWarning>(()),
            ),
        decreases pairs@.len() - i,
    {
        assert(pairs@.take(i + 1).drop_last() =~= pairs@.take(i as int));
        let (time, id) = pairs[i];
        if !bmps.contains_key(&id) {
            proof {
                lemma_push_bga_stops(old(timeline)@, pairs@, *bmps, channel, *prompter, i as int + 1);
            }
            return Err(ParseWarning::UndefinedObject(id));
        }
        let obj = BgaObj { time, id, layer: channel_layer(channel) };
        let r = timeline.push(time, channel_lane(channel), obj, channel, prompter);
        if r.is_err() {
            proof {
                lemma_push_bga_stops(old(timeline)@, pairs@, *bmps, channel, *prompter, i as int + 1);
            }
            return r;
        }
        i += 1;
    }
    assert(pairs@.take(pairs@.len() as int) =~= pairs@);
    Ok(())
}

/// The processor of pictures.
#[derive(Debug, Clone, Copy, PartialEq, Eq, Hash, Structural)]
pub struct BmpProcessor {
    /// Whether object ids are read in base 62.
    pub case_sensitive_obj_id: bool,
}

/// What one header does to the picture objects, with its outcome.
pub open spec fn header_applied<P: Prompter>(
    cs: bool,
    name: Seq<char>,
    args: Seq<char>,
    prompter: P,
    before: BmpObjects,
    after: BmpObjects,
    r: Result<(), ParseWarning>,
) -> bool {
    &&& after.bga_changes@ == before.bga_changes@
    &&& after.bga_opacity_changes@ == before.bga_opacity_changes@
    &&& after.bga_argb_changes@ == before.bga_argb_changes@
    &&& after.bga_keybound_events@ == before.bga_keybound_events@
    &&& spec_strip_prefix_ignore_case(name, "BMP"@) is None && spec_strip_prefix_ignore_case(name, "EXBMP"@)
        is None ==> after.bmp_files == before.bmp_files
    &&& spec_strip_prefix_ignore_case(name, "BMP"@) is None ==> after.poor_bmp == before.poor_bmp
    &&& spec_strip_prefix_ignore_case(name, "ARGB"@) is None ==> after.argb_defs == before.argb_defs
    &&& !is_poor_bga_header(name) ==> after.poor_bga_mode == before.poor_bga_mode
    &&& spec_strip_prefix_ignore_case(name, "@BGA"@) is None ==> after.atbga_defs == before.atbga_defs
    &&& !is_bga_header(name) ==> after.bga_defs == before.bga_defs
    &&& spec_strip_prefix_ignore_case(name, "SWBGA"@) is None ==> after.swbga_events == before.swbga_events
    &&& spec_strip_prefix_ignore_case(name, "BMP"@) is None && spec_strip_prefix_ignore_case(name, "EXBMP"@) is None
        && spec_strip_prefix_ignore_case(name, "ARGB"@) is None && !is_poor_bga_header(name)
        && spec_strip_prefix_ignore_case(name, "@BGA"@) is None && !is_bga_header(name)
        && spec_strip_prefix_ignore_case(name, "SWBGA"@) is None ==> r is Ok
    &&& r matches Err(w) ==> w is SyntaxError || w is DuplicatingDef
    &&& spec_strip_prefix_ignore_case(name, "BMP"@) matches Some(t) ==> {
        &&& args.len() == 0 ==> r is Err && after.bmp_files == before.bmp_files
            && after.poor_bmp == before.poor_bmp
        &&& (args.len() > 0 && t == "00"@) ==> r is Ok && holds_text(after.poor_bmp, args)
            && after.bmp_files == before.bmp_files
        &&& (args.len() > 0 && t != "00"@) ==> after.poor_bmp == before.poor_bmp
        &&& (args.len() > 0 && t != "00"@ && !spec_obj_id_text(t)) ==> r is Err
            && after.bmp_files == before.bmp_files
        &&& (args.len() > 0 && t != "00"@ && spec_obj_id_text(t)) ==> exists|v: Bmp|
            v.file@ == args && v.transparent_color == (Argb { alpha: 255, red: 0, green: 0, blue: 0 })
                && spec_defined(
                before.bmp_files,
                after.bmp_files,
                spec_obj_id_of(t, cs),
                v,
                DefDuplication::Bmp { id: spec_obj_id_of(t, cs) },
                prompter,
                r,
            )
    }
    &&& spec_strip_prefix_ignore_case(name, "EXBMP"@) matches Some(t) ==> match spec_exbmp(args) {
        None => r is Err && after.bmp_files == before.bmp_files,
        Some((argb, file)) => {
            &&& !spec_obj_id_text(t) ==> r is Err && after.bmp_files == before.bmp_files
            &&& spec_obj_id_text(t) ==> exists|v: Bmp|
                v.file@ == file && v.transparent_color == argb && spec_defined(
                    before.bmp_files,
                    after.bmp_files,
                    spec_obj_id_of(t, cs),
                    v,
                    DefDuplication::Bmp { id: spec_obj_id_of(t, cs) },
                    prompter,
                    r,
                )
        },
    }
    &&& spec_strip_prefix_ignore_case(name, "ARGB"@) matches Some(t) ==> match spec_argb(args) {
        None => r is Err && after.argb_defs == before.argb_defs,
        Some(argb) => {
            &&& !spec_obj_id_text(t) ==> r is Err && after.argb_defs == before.argb_defs
            &&& spec_obj_id_text(t) ==> spec_defined(
                before.argb_defs,
                after.argb_defs,
                spec_obj_id_of(t, cs),
                argb,
                DefDuplication::BgaArgb { id: spec_obj_id_of(t, cs) },
                prompter,
                r,
            )
        },
    }
    &&& is_poor_bga_header(name) ==> match spec_poor_mode(args) {
        Some(m) => r is Ok && after.poor_bga_mode == m,
        None => r is Err && after.poor_bga_mode == before.poor_bga_mode,
    }
    &&& spec_strip_prefix_ignore_case(name, "@BGA"@) matches Some(t) ==> match spec_atbga_def(
        t,
        args,
        cs,
    ) {
        None => r is Err && after.atbga_defs == before.atbga_defs,
        Some(d) => spec_defined(
            before.atbga_defs,
            after.atbga_defs,
            d.id,
            d,
            DefDuplication::AtBga { id: d.id },
            prompter,
            r,
        ),
    }
    &&& is_bga_header(name) ==> match spec_bga_def(
        spec_strip_prefix_ignore_case(name, "BGA"@)->0,
        args,
        cs,
    ) {
        None => r is Err && after.bga_defs == before.bga_defs,
        Some(d) => spec_defined(
            before.bga_defs,
            after.bga_defs,
            d.id,
            d,
            DefDuplication::Bga { id: d.id },
            prompter,
            r,
        ),
    }
    &&& spec_strip_prefix_ignore_case(name, "SWBGA"@) matches Some(t) ==> match spec_swbga(args) {
        None => r is Err && after.swbga_events == before.swbga_events,
        Some((fr, tt, line, lp, argb, pattern)) => {
            &&& !spec_obj_id_text(t) ==> r is Err && after.swbga_events == before.swbga_events
            &&& spec_obj_id_text(t) ==> exists|v: SwBgaEvent|
                v.frame_rate == fr && v.total_time == tt && v.line == line && v.loop_mode == lp
                    && v.argb == argb && v.pattern@ == pattern && spec_defined(
                    before.swbga_events,
                    after.swbga_events,
                    spec_obj_id_of(t, cs),
                    v,
                    DefDuplication::SwBgaEvent { id: spec_obj_id_of(t, cs) },
                    prompter,
                    r,
                )
        },
    }
}

/// What one message does to the picture objects, with its outcome.
pub open spec fn message_applied<P: Prompter>(
    cs: bool,
    track: Track,
    channel: Channel,
    message: Seq<char>,
    prompter: P,
    before: BmpObjects,
    after: BmpObjects,
    r: Result<Vec<ParseWarning>, ParseWarning>,
) -> bool {
    &&& after.bmp_files == before.bmp_files
    &&& after.bga_defs == before.bga_defs
    &&& after.atbga_defs == before.atbga_defs
    &&& after.argb_defs == before.argb_defs
    &&& after.swbga_events == before.swbga_events
    &&& after.poor_bmp == before.poor_bmp
    &&& after.poor_bga_mode == before.poor_bga_mode
    &&& !(channel is BgaBase || channel is BgaPoor || channel is BgaLayer || channel is BgaLayer2)
        ==> after.bga_changes@ == before.bga_changes@
    &&& !(channel is BgaBaseOpacity || channel is BgaLayerOpacity || channel is BgaLayer2Opacity
        || channel is BgaPoorOpacity) ==> after.bga_opacity_changes@ == before.bga_opacity_changes@
    &&& !(channel is BgaBaseArgb || channel is BgaLayerArgb || channel is BgaLayer2Argb
        || channel is BgaPoorArgb) ==> after.bga_argb_changes@ == before.bga_argb_changes@
    &&& !(channel is BgaKeybound) ==> after.bga_keybound_events@ == before.bga_keybound_events@
    &&& spec_layer_of(channel) is None && !(channel is BgaKeybound) ==> (r matches Ok(ws) && ws@.len()
        == 0)
    &&& (channel is BgaBase || channel is BgaPoor || channel is BgaLayer || channel is BgaLayer2)
        && message.len() % 2 == 0 ==> {
        let (s, res) = push_bga_all(
            before.bga_changes@,
            obj_pairs(track.0, message, cs, (message.len() / 2) as int),
            before.bmp_files,
            channel,
            prompter,
        );
        &&& after.bga_changes@ == s
        &&& (r is Ok <==> res is Ok)
        &&& (r matches Err(w) ==> res == Err::<(), ParseWarning>(w))
    }
    &&& (channel is BgaBaseOpacity || channel is BgaLayerOpacity || channel is BgaLayer2Opacity
        || channel is BgaPoorOpacity) && message.len() % 2 == 0 ==> {
        let (s, res) = push_values(
            before.bga_opacity_changes@,
            hex_pairs(track.0, message, (message.len() / 2) as int),
            channel,
            prompter,
        );
        &&& after.bga_opacity_changes@ == s
        &&& (r is Ok <==> res is Ok)
        &&& (r matches Err(w) ==> res == Err::<(), ParseWarning>(w))
    }
    &&& (channel is BgaBaseArgb || channel is BgaLayerArgb || channel is BgaLayer2Argb
        || channel is BgaPoorArgb) && message.len() % 2 == 0 ==> {
        let (s, res) = push_all(
            before.bga_argb_changes@,
            obj_pairs(track.0, message, cs, (message.len() / 2) as int),
            before.argb_defs,
            channel,
            prompter,
        );
        &&& after.bga_argb_changes@ == s
        &&& (r is Ok <==> res is Ok)
        &&& (r matches Err(w) ==> res == Err::<(), ParseWarning>(w))
    }
    &&& channel is BgaKeybound && message.len() % 2 == 0 ==> {
        let (s, res) = push_all(
            before.bga_keybound_events@,
            obj_pairs(track.0, message, cs, (message.len() / 2) as int),
            before.swbga_events,
            channel,
            prompter,
        );
        &&& after.bga_keybound_events@ == s
        &&& (r is Ok <==> res is Ok)
        &&& (r matches Err(w) ==> res == Err::<(), ParseWarning>(w))
    }
}

/// Picture objects with nothing in them.
pub open spec fn fresh(o: BmpObjects) -> bool {
    &&& forall|k: int| #[trigger] o.bmp_files.at(k) is None
    &&& forall|k: int| #[trigger] o.bga_defs.at(k) is None
    &&& forall|k: int| #[trigger] o.atbga_defs.at(k) is None
    &&& forall|k: int| #[trigger] o.argb_defs.at(k) is None
    &&& forall|k: int| #[trigger] o.swbga_events.at(k) is None
    &&& o.poor_bmp is None
    &&& o.poor_bga_mode is Interrupt
    &&& o.bga_changes@.len() == 0
    &&& o.bga_opacity_changes@.len() == 0
    &&& o.bga_argb_changes@.len() == 0
    &&& o.bga_keybound_events@.len() == 0
}

/// What one token does, with the warnings it gives.
pub open spec fn token_step<P: Prompter>(
    cs: bool,
    t: Token,
    prompter: P,
    before: BmpObjects,
    after: BmpObjects,
    ws: Seq<ParseWarning>,
) -> bool {
    match t {
        Token::Header { name, args } => exists|r: Result<(), ParseWarning>|
            header_applied(cs, name@, args@, prompter, before, after, r) && ws == header_warnings(r),
        Token::Message { track, channel, message } => exists|r: Result<Vec<ParseWarning>, ParseWarning>|
            message_applied(cs, track, channel, message@, prompter, before, after, r) && ws == message_warnings(r),
        Token::NotACommand(_) => after == before && ws.len() == 0,
    }
}

/// The picture objects and warnings of a token stream: from fresh ones, each token in turn as
/// `token_step`, the warnings placed at their tokens.
pub open spec fn processed<P: Prompter>(
    cs: bool,
    tokens: Seq<TokenWithRange>,
    prompter: P,
    o: BmpObjects,
    ws: Seq<ParseWarningWithRange>,
) -> bool {
    exists|states: Seq<BmpObjects>, wss: Seq<Seq<ParseWarning>>|
        {
            &&& states.len() == tokens.len() + 1
            &&& wss.len() == tokens.len()
            &&& fresh(states[0])
            &&& states.last() == o
            &&& forall|i: int|
                0 <= i < tokens.len() ==> token_step(cs, #[trigger] tokens[i].content, prompter, states[i], states[i + 1], wss[i])
            &&& ws == placed_warnings(tokens, wss, tokens.len() as int)
        }
}

impl BmpProcessor {
    /// A processor reading object ids in base 62 when `case_sensitive_obj_id`.
    pub fn new(case_sensitive_obj_id: bool) -> (r: Self)
        ensures
            r.case_sensitive_obj_id == case_sensitive_obj_id,
    {
        BmpProcessor { case_sensitive_obj_id }
    }

    /// The BGA layer that `channel` draws on; a syntax error for any other channel.
    pub fn bga_layer(channel: Channel) -> (r: Result<BgaLayer, ParseWarning>)
        ensures
            match spec_layer_of(channel) {
                Some(layer) => r == Ok::<BgaLayer, ParseWarning>(layer),
                None => r is Err && r->Err_0 is SyntaxError,
            },
    {
        match layer_of(channel) {
            Some(layer) => Ok(layer),
            None => Err(ParseWarning::SyntaxError(owned("invalid channel for BgaLayer"))),
        }
    }

    fn read_bga_def(&self, t: &str, args: &str) -> (r: Result<BgaDef, ParseWarning>)
        ensures
            match spec_bga_def(t@, args@, self.case_sensitive_obj_id) {
                Some(d) => r == Ok::<BgaDef, ParseWarning>(d),
                None => r is Err && r->Err_0 is SyntaxError,
            },
    {
        let ws = split_words(args);
        let ghost wv = ws@.map_values(|w: String| w@);
        if ws.len() != 7 {
            return Err(ParseWarning::SyntaxError(owned("expected 7 arguments")));
        }
        assert(wv[0] == ws@[0]@ && wv[1] == ws@[1]@ && wv[2] == ws@[2]@ && wv[3] == ws@[3]@);
        assert(wv[4] == ws@[4]@ && wv[5] == ws@[5]@ && wv[6] == ws@[6]@);
        let a = parse_pixel_point(ws[1].as_str(), ws[2].as_str());
        let b = parse_pixel_point(ws[3].as_str(), ws[4].as_str());
        let c = parse_pixel_point(ws[5].as_str(), ws[6].as_str());
        match (a, b, c) {
            (Some(a), Some(b), Some(c)) => {
                let id = ObjId::try_from(t, self.case_sensitive_obj_id)?;
                let source_bmp = ObjId::try_from(ws[0].as_str(), self.case_sensitive_obj_id)?;
                Ok(BgaDef { id, source_bmp, trim_top_left: a, trim_bottom_right: b, draw_point: c })
            },
            _ => Err(ParseWarning::SyntaxError(owned("expected integer"))),
        }
    }

    fn read_atbga_def(&self, t: &str, args: &str) -> (r: Result<AtBgaDef, ParseWarning>)
        ensures
            match spec_atbga_def(t@, args@, self.case_sensitive_obj_id) {
                Some(d) => r == Ok::<AtBgaDef, ParseWarning>(d),
                None => r is Err && r->Err_0 is SyntaxError,
            },
    {
        let ws = split_words(args);
        let ghost wv = ws@.map_values(|w: String| w@);
        if ws.len() != 7 {
            return Err(ParseWarning::SyntaxError(owned("expected 7 arguments")));
        }
        assert(wv[0] == ws@[0]@ && wv[1] == ws@[1]@ && wv[2] == ws@[2]@ && wv[3] == ws@[3]@);
        assert(wv[4] == ws@[4]@ && wv[5] == ws@[5]@ && wv[6] == ws@[6]@);
        let a = parse_pixel_point(ws[1].as_str(), ws[2].as_str());
        let b = parse_pixel_size(ws[3].as_str(), ws[4].as_str());
        let c = parse_pixel_point(ws[5].as_str(), ws[6].as_str());
        match (a, b, c) {
            (Some(a), Some(b), Some(c)) => {
                let id = ObjId::try_from(t, self.case_sensitive_obj_id)?;
                let source_bmp = ObjId::try_from(ws[0].as_str(), self.case_sensitive_obj_id)?;
                Ok(AtBgaDef { id, source_bmp, trim_top_left: a, trim_size: b, draw_point: c })
            },
            _ => Err(ParseWarning::SyntaxError(owned("expected integer"))),
        }
    }

    fn read_swbga(args: &str) -> (r: Result<SwBgaEvent, ParseWarning>)
        ensures
            match spec_swbga(args@) {
                Some((fr, tt, line, lp, argb, pattern)) => r matches Ok(ev) && ev.frame_rate == fr
                    && ev.total_time == tt && ev.line == line && ev.loop_mode == lp && ev.argb
                    == argb && ev.pattern@ == pattern,
                None => r is Err && r->Err_0 is SyntaxError,
            },
    {
        let ws = split_words(args);
        let ghost wv = ws@.map_values(|w: String| w@);
        if ws.len() != 2 {
            return Err(ParseWarning::SyntaxError(owned("expected 2 arguments")));
        }
        assert(wv[0] == ws@[0]@ && wv[1] == ws@[1]@);
        let parts = split_on_char(ws[0].as_str(), ':');
        let ghost pv = parts@.map_values(|w: String| w@);
        assert(split_on(ws@[0]@, ':').len() >= 1);
        let frame_rate = match parse_u32(parts[0].as_str()) {
            Some(v) => v,
            None => {
                return Err(ParseWarning::SyntaxError(owned("swbga frame_rate u32")));
            },
        };
        if parts.len() < 2 {
            return Err(ParseWarning::SyntaxError(owned("swbga total_time")));
        }
        let total_time = match parse_u32(parts[1].as_str()) {
            Some(v) => v,
            None => {
                return Err(ParseWarning::SyntaxError(owned("swbga total_time u32")));
            },
        };
        if parts.len() < 3 {
            return Err(ParseWarning::SyntaxError(owned("swbga line")));
        }
        let line = match parse_u8(parts[2].as_str()) {
            Some(v) => v,
            None => {
                return Err(ParseWarning::SyntaxError(owned("swbga line u8")));
            },
        };
        if parts.len() < 4 {
            return Err(ParseWarning::SyntaxError(owned("swbga loop")));
        }
        let loop_mode = match parse_u8(parts[3].as_str()) {
            Some(0) => false,
            Some(1) => true,
            _ => {
                return Err(ParseWarning::SyntaxError(owned("swbga loop 0/1")));
            },
        };
        if parts.len() < 5 {
            return Err(ParseWarning::SyntaxError(owned("swbga argb")));
        }
        assert(pv[0] == parts@[0]@ && pv[1] == parts@[1]@ && pv[2] == parts@[2]@ && pv[3] == parts@[3]@ && pv[4] == parts@[4]@);
        let argb = parse_argb(parts[4].as_str())?;
        Ok(SwBgaEvent { frame_rate, total_time, line, loop_mode, argb, pattern: ws[1].clone() })
    }

    /// Applies one header. `#BMPxx file` defines a picture (`#BMP00`: the picture of a
    /// miss); `#EXBMPxx a,r,g,b file` one with its transparent color; `#ARGBxx a,r,g,b` a
    /// color; `#POORBGA m` (or `#BGAPOOR m`) the display of the miss picture; `#@BGAxx` and `#BGAxx` cropped
    /// pictures; `#SWBGAxx` a key bound animation.
    pub fn on_header<P: Prompter>(
        &self,
        name: &str,
        args: &str,
        prompter: &P,
        objects: &mut BmpObjects,
    ) -> (r: Result<(), ParseWarning>)
        ensures
            header_applied(self.case_sensitive_obj_id, name@, args@, *prompter, *old(objects), *final(objects), r),
    {
        proof {
            reveal_strlit("BMP");
            reveal_strlit("EXBMP");
            reveal_strlit("ARGB");
            reveal_strlit("POORBGA");
            reveal_strlit("@BGA");
            reveal_strlit("BGA");
            reveal_strlit("BGAPOOR");
            reveal_strlit("SWBGA");
            reveal_strlit("00");
            if spec_strip_prefix_ignore_case(name@, "BMP"@) is Some {
                lemma_prefix_char(name@, "BMP"@, 0);
                lemma_prefix_char(name@, "BMP"@, 1);
            }
            if spec_strip_prefix_ignore_case(name@, "EXBMP"@) is Some {
                lemma_prefix_char(name@, "EXBMP"@, 0);
            }
            if spec_strip_prefix_ignore_case(name@, "ARGB"@) is Some {
                lemma_prefix_char(name@, "ARGB"@, 0);
            }
            if eq_ignore_case(name@, "POORBGA"@) {
                assert(upper(name@[0]) == upper("POORBGA"@[0]));
            }
            if eq_ignore_case(name@, "BGAPOOR"@) {
                assert(upper(name@[0]) == upper("BGAPOOR"@[0]));
                assert(upper(name@[1]) == upper("BGAPOOR"@[1]));
            }
            if spec_strip_prefix_ignore_case(name@, "@BGA"@) is Some {
                lemma_prefix_char(name@, "@BGA"@, 0);
            }
            if spec_strip_prefix_ignore_case(name@, "BGA"@) is Some {
                lemma_prefix_char(name@, "BGA"@, 0);
                lemma_prefix_char(name@, "BGA"@, 1);
            }
            if spec_strip_prefix_ignore_case(name@, "SWBGA"@) is Some {
                lemma_prefix_char(name@, "SWBGA"@, 0);
            }
        }
        if let Some(id_text) = strip_prefix_ignore_case(name, "BMP") {
            if is_empty_text(args) {
                return Err(ParseWarning::SyntaxError(owned("expected image filename")));
            }
            if text_eq(id_text.as_str(), "00") {
                objects.poor_bmp = Some(owned(args));
                return Ok(());
            }
            let id = ObjId::try_from(id_text.as_str(), self.case_sensitive_obj_id)?;
            let bmp = Bmp { file: owned(args), transparent_color: Argb { alpha: 255, red: 0, green: 0, blue: 0 } };
            let ghost v = bmp;
            let r = objects.bmp_files.define(id, bmp, DefDuplication::Bmp { id }, prompter);
            assert(spec_defined(old(objects).bmp_files, objects.bmp_files, id, v, DefDuplication::Bmp { id }, *prompter, r));
            return r;
        }
        if let Some(id_text) = strip_prefix_ignore_case(name, "EXBMP") {
            let ws = split_words(args);
            let ghost wv = ws@.map_values(|w: String| w@);
            if ws.len() != 2 {
                return Err(ParseWarning::SyntaxError(owned("expected 2 arguments")));
            }
            assert(wv[0] == ws@[0]@ && wv[1] == ws@[1]@);
            let transparent_color = parse_argb(ws[0].as_str())?;
            let id = ObjId::try_from(id_text.as_str(), self.case_sensitive_obj_id)?;
            let bmp = Bmp { file: ws[1].clone(), transparent_color };
            let ghost v = bmp;
            let r = objects.bmp_files.define(id, bmp, DefDuplication::Bmp { id }, prompter);
            assert(spec_defined(old(objects).bmp_files, objects.bmp_files, id, v, DefDuplication::Bmp { id }, *prompter, r));
            return r;
        }
        if let Some(id_text) = strip_prefix_ignore_case(name, "ARGB") {
            let argb = parse_argb(args)?;
            let id = ObjId::try_from(id_text.as_str(), self.case_sensitive_obj_id)?;
            return objects.argb_defs.define(id, argb, DefDuplication::BgaArgb { id }, prompter);
        }
        if eq_ignore_ascii_case(name, "POORBGA") || eq_ignore_ascii_case(name, "BGAPOOR") {
            objects.poor_bga_mode = PoorMode::from_str(args)?;
            return Ok(());
        }
        if let Some(id_text) = strip_prefix_ignore_case(name, "@BGA") {
            let d = self.read_atbga_def(id_text.as_str(), args)?;
            return objects.atbga_defs.define(d.id, d, DefDuplication::AtBga { id: d.id }, prompter);
        }
        if !starts_with_ascii_ignore_case(name, "BGAPOOR") {
            if let Some(id_text) = strip_prefix_ignore_case(name, "BGA") {
                let d = self.read_bga_def(id_text.as_str(), args)?;
                return objects.bga_defs.define(d.id, d, DefDuplication::Bga { id: d.id }, prompter);
            }
        }
        if let Some(id_text) = strip_prefix_ignore_case(name, "SWBGA") {
            let ev = Self::read_swbga(args)?;
            let id = ObjId::try_from(id_text.as_str(), self.case_sensitive_obj_id)?;
            let ghost v = ev;
            let r = objects.swbga_events.define(id, ev, DefDuplication::SwBgaEvent { id }, prompter);
            assert(spec_defined(old(objects).swbga_events, objects.swbga_events, id, v, DefDuplication::SwBgaEvent { id }, *prompter, r));
            return r;
        }
        Ok(())
    }

    /// Applies one message. On the BGA channels each id is a picture change of the layer
    /// (the picture must be defined); on the opacity channels each hexadecimal pair is an
    /// opacity of the layer; on the color channels each id a transparent color of the
    /// layer; on the key bound channel each id starts its animation. Returns the warnings of
    /// pairs that are not read; fails at the first undefined id or the first duplicated
    /// position whose warning the prompter asks for.
    pub fn on_message<P: Prompter>(
        &self,
        track: Track,
        channel: Channel,
        message: &str,
        prompter: &P,
        objects: &mut BmpObjects,
    ) -> (r: Result<Vec<ParseWarning>, ParseWarning>)
        ensures
            message_applied(self.case_sensitive_obj_id, track, channel, message@, *prompter, *old(objects), *final(objects), r),
    {
        match channel {
            Channel::BgaBase | Channel::BgaPoor | Channel::BgaLayer | Channel::BgaLayer2 => {
                let (pairs, warnings) = parse_obj_ids(track.0, message, self.case_sensitive_obj_id);
                push_bga_ids(&mut objects.bga_changes, &pairs, &objects.bmp_files, channel, prompter)?;
                Ok(warnings)
            },
            Channel::BgaBaseOpacity | Channel::BgaLayerOpacity | Channel::BgaLayer2Opacity
            | Channel::BgaPoorOpacity => {
                let (pairs, warnings) = parse_hex_values(track.0, message);
                push_made(&mut objects.bga_opacity_changes, &pairs, channel, prompter)?;
                Ok(warnings)
            },
            Channel::BgaBaseArgb | Channel::BgaLayerArgb | Channel::BgaLayer2Argb
            | Channel::BgaPoorArgb => {
                let (pairs, warnings) = parse_obj_ids(track.0, message, self.case_sensitive_obj_id);
                push_defined(&mut objects.bga_argb_changes, &pairs, &objects.argb_defs, channel, prompter)?;
                Ok(warnings)
            },
            Channel::BgaKeybound => {
                let (pairs, warnings) = parse_obj_ids(track.0, message, self.case_sensitive_obj_id);
                push_defined(
                    &mut objects.bga_keybound_events,
                    &pairs,
                    &objects.swbga_events,
                    channel,
                    prompter,
                )?;
                Ok(warnings)
            },
            _ => Ok(Vec::new()),
        }
    }
}

impl<P: Prompter> TokenProcessor<P> for BmpProcessor {
    type Output = BmpObjects;

    open spec fn outcome(
        &self,
        tokens: Seq<TokenWithRange>,
        prompter: P,
        r: Result<(BmpObjects, Vec<ParseWarningWithRange>), ParseErrorWithRange>,
    ) -> bool {
        r matches Ok((o, ws)) && processed(self.case_sensitive_obj_id, tokens, prompter, o, ws@)
    }

    fn process(&self, tokens: &[TokenWithRange], prompter: &P) -> (r: Result<
        (BmpObjects, Vec<ParseWarningWithRange>),
        ParseErrorWithRange,
    >)
        ensures
            r matches Ok((o, ws)) && processed(self.case_sensitive_obj_id, tokens@, *prompter, o, ws@),
    {
        let mut objects = BmpObjects::new();
        let mut warnings: Vec<ParseWarningWithRange> = Vec::new();
        let ghost mut states: Seq<BmpObjects> = seq![objects];
        let ghost mut wss: Seq<Seq<ParseWarning>> = Seq::empty();
        let mut i: usize = 0;
        while i < tokens.len()
            invariant
                i <= tokens@.len(),
                states.len() == i + 1,
                wss.len() == i,
                fresh(states[0]),
                states.last() == objects,
                forall|j: int|
                    0 <= j < i ==> token_step(self.case_sensitive_obj_id, #[trigger] tokens@[j].content, *prompter, states[j], states[j + 1], wss[j]),
                warnings@ == placed_warnings(tokens@, wss, i as int),
            decreases tokens@.len() - i,
        {
            let ghost before = objects;
            let ws: Vec<ParseWarning> = match &tokens[i].content {
                Token::Header { name, args } => {
                    let r = self.on_header(name.as_str(), args.as_str(), prompter, &mut objects);
                    let ws = match r {
                        Ok(()) => Vec::new(),
                        Err(w) => vec![w],
                    };
                    assert(ws@ =~= header_warnings(r));
                    ws
                },
                Token::Message { track, channel, message } => {
                    let r = self.on_message(*track, *channel, message.as_str(), prompter, &mut objects);
                    let ghost rr = r;
                    let ws = match r {
                        Ok(ws) => ws,
                        Err(w) => vec![w],
                    };
                    assert(ws@ =~= message_warnings(rr));
                    ws
                },
                Token::NotACommand(_) => Vec::new(),
            };
            assert(token_step(self.case_sensitive_obj_id, tokens@[i as int].content, *prompter, before, objects, ws@));
            let g = add_placed(&mut warnings, ws, tokens[i].range, Ghost(tokens@), Ghost(wss), Ghost(i as int));
            proof {
                wss = g@;
                states = states.push(objects);
            }
            i += 1;
        }
        Ok((objects, warnings))
    }
}

} // verus!
