//! From a score back to tokens: headers and definitions first, then the definitions that
//! messages need and that the score does not have, then messages.
pub mod channels;
pub mod headers;
pub mod ids;
pub mod messages;

pub use messages::lcm_slice;

use crate::bms::command::{Channel, ObjId, ObjTime};
use crate::bms::layout::KeyLayoutMapper;
use crate::bms::lex::Token;
use crate::bms::model::{Bms, ObjIdMap, WavObj};
use crate::bms::objects::{SectionLenChangeObj, StpEvent};
use crate::text::{concat, decimal_text, owned, u64_to_text};
use channels::{
    keyed_fold, keyed_objects, keyed_units, only_channel, sorted_keyed, sorted_stops, sorted_units,
    stop_objects, times_of, unit_objects, units_on, argb_channel, opacity_channel,
};
use headers::{
    bmp_defs, definition_headers, hd, id_text, leading_headers, opt_path, push_bmp_defs,
    push_definition_headers, push_header, push_leading_headers, push_opt_path,
    push_resource_headers, push_score_headers, resource_headers, score_headers, spec_id_text,
    texts,
};
use ids::{initial_ids, ObjIdManager};
use messages::{
    build_event_messages, message_segments, sort_order, sorted_order, tokens_fit, unit_fits,
    EventUnit,
};
use vstd::prelude::*;

verus! {

/// The header lines of a score, in the order they are written.
pub open spec fn header_texts(bms: Bms) -> Seq<(u8, Seq<char>, Seq<char>)> {
    leading_headers(bms) + score_headers(bms) + definition_headers(bms) + resource_headers(bms)
}

/// `v` in decimal with at least three digits.
pub open spec fn pad3(v: nat) -> Seq<char> {
    let d = decimal_text(v);
    if d.len() < 3 {
        Seq::new((3 - d.len()) as nat, |i: int| '0') + d
    } else {
        d
    }
}

/// The arguments of `#STP`: `track.pos ms`, the track and the position in thousandths of it
/// with three digits at least.
pub open spec fn stp_args(e: StpEvent) -> Seq<char> {
    pad3(e.time.track_of() as nat) + seq!['.'] + pad3((e.time.num_of() * e.time.den_of() / 1000) as nat)
        + seq![' '] + decimal_text(e.duration_ms as nat)
}

/// The `#STP` lines, in the order of their positions.
pub open spec fn stp_texts(bms: Bms) -> Seq<(u8, Seq<char>, Seq<char>)> {
    let s = bms.stop.stp_events@;
    sorted_order(times_of(s), s.len() as int).map_values(|i: usize| hd("STP"@, stp_args(s[i as int].2)))
}

/// The picture lines: the miss picture, then the pictures by increasing id.
pub open spec fn bmp_texts(bms: Bms) -> Seq<(u8, Seq<char>, Seq<char>)> {
    opt_path("BMP00"@, bms.bmp.poor_bmp) + bmp_defs(bms.bmp.bmp_files, 3844)
}

/// The values that definitions give to each id number, as texts.
pub open spec fn value_texts(m: ObjIdMap<crate::bms::command::StringValue>) -> Seq<Option<Seq<char>>> {
    Seq::new(3844, |k: int| match m.at(k) {
        Some(v) => Some(v.text()),
        None => None,
    })
}

/// The texts that definitions give to each id number.
pub open spec fn string_texts(m: ObjIdMap<String>) -> Seq<Option<Seq<char>>> {
    Seq::new(3844, |k: int| match m.at(k) {
        Some(s) => Some(s@),
        None => None,
    })
}

/// The judge levels that definitions give to each id number, as texts.
pub open spec fn exrank_texts(m: ObjIdMap<crate::bms::objects::ExRankDef>) -> Seq<Option<Seq<char>>> {
    Seq::new(3844, |k: int| match m.at(k) {
        Some(d) => Some(headers::judge_level_text(d.judge_level)),
        None => None,
    })
}

/// The outcome of giving ids to the objects of one channel: the units and the fresh
/// definitions.
pub open spec fn keyed(defs: Seq<Option<Seq<char>>>, objs: Seq<(ObjTime, Seq<char>)>, channel: Channel) -> (
    Seq<EventUnit>,
    Seq<(Seq<char>, ObjId)>,
) {
    let (st, units, fresh) = keyed_fold(initial_ids(defs, 3844), objs, channel, objs.len() as int);
    (units, fresh)
}

/// The headers of fresh definitions under `prefix`.
pub open spec fn fresh_texts(prefix: Seq<char>, fresh: Seq<(Seq<char>, ObjId)>) -> Seq<(u8, Seq<char>, Seq<char>)> {
    fresh.map_values(|p: (Seq<char>, ObjId)| hd(prefix + spec_id_text(p.1), p.0))
}

/// The tempo changes with their ids.
pub open spec fn bpm_keyed(bms: Bms) -> (Seq<EventUnit>, Seq<(Seq<char>, ObjId)>) {
    keyed(value_texts(bms.bpm.bpm_defs), sorted_keyed(bms.bpm.bpm_changes@), Channel::BpmChange)
}

/// The stops with their ids.
pub open spec fn stop_keyed(bms: Bms) -> (Seq<EventUnit>, Seq<(Seq<char>, ObjId)>) {
    keyed(value_texts(bms.stop.stop_defs), sorted_stops(bms.stop.stops@), Channel::Stop)
}

/// The scrolling factor changes with their ids.
pub open spec fn scroll_keyed(bms: Bms) -> (Seq<EventUnit>, Seq<(Seq<char>, ObjId)>) {
    keyed(value_texts(bms.scroll.scroll_defs), sorted_keyed(bms.scroll.scrolling_factor_changes@), Channel::Scroll)
}

/// The spacing factor changes with their ids.
pub open spec fn speed_keyed(bms: Bms) -> (Seq<EventUnit>, Seq<(Seq<char>, ObjId)>) {
    keyed(value_texts(bms.speed.speed_defs), sorted_keyed(bms.speed.speed_factor_changes@), Channel::Speed)
}

/// The texts with their ids.
pub open spec fn text_keyed(bms: Bms) -> (Seq<EventUnit>, Seq<(Seq<char>, ObjId)>) {
    keyed(string_texts(bms.text.texts), sorted_keyed(bms.text.text_events@), Channel::Text)
}

/// The judge changes with their ids.
pub open spec fn judge_keyed(bms: Bms) -> (Seq<EventUnit>, Seq<(Seq<char>, ObjId)>) {
    keyed(exrank_texts(bms.judge.exrank_defs), sorted_keyed(bms.judge.judge_events@), Channel::Judge)
}

/// The video seeks with their ids.
pub open spec fn seek_keyed(bms: Bms) -> (Seq<EventUnit>, Seq<(Seq<char>, ObjId)>) {
    keyed(value_texts(bms.video.seek_defs), sorted_keyed(bms.video.seek_events@), Channel::Seek)
}

/// The definitions that the messages need and the score does not have.
pub open spec fn late_def_texts(bms: Bms) -> Seq<(u8, Seq<char>, Seq<char>)> {
    fresh_texts("BPM"@, bpm_keyed(bms).1) + fresh_texts("STOP"@, stop_keyed(bms).1) + fresh_texts(
        "SCROLL"@,
        scroll_keyed(bms).1,
    ) + fresh_texts("SPEED"@, speed_keyed(bms).1) + fresh_texts("TEXT"@, text_keyed(bms).1) + fresh_texts(
        "EXRANK"@,
        judge_keyed(bms).1,
    ) + fresh_texts("SEEK"@, seek_keyed(bms).1)
}

/// The unit of a note: on its own channel when the layout reads it, on the background
/// music channel otherwise.
pub open spec fn note_unit<T: KeyLayoutMapper>(o: WavObj) -> EventUnit {
    EventUnit {
        time: o.offset,
        channel: if T::spec_from_channel_id(o.channel_id) is Some {
            Channel::Note { channel_id: o.channel_id }
        } else {
            Channel::Bgm
        },
        first: o.wav_id.high() as char,
        second: o.wav_id.low() as char,
    }
}

/// The units of all the objects that messages hold, channel after channel: tempo, stops,
/// scrolling, spacing, pictures, opacities and colors of each layer, notes in the order
/// they were added, volumes, texts, judge changes, seeks, key bound animations and option
/// changes. The other channels are in the order of positions.
pub open spec fn all_units<T: KeyLayoutMapper>(bms: Bms) -> Seq<EventUnit> {
    let opacity = sorted_units(bms.bmp.bga_opacity_changes@);
    let argb = sorted_units(bms.bmp.bga_argb_changes@);
    bpm_keyed(bms).0 + stop_keyed(bms).0 + scroll_keyed(bms).0 + speed_keyed(bms).0 + sorted_units(
        bms.bmp.bga_changes@,
    ) + only_channel(opacity, Channel::BgaBaseOpacity) + only_channel(opacity, Channel::BgaPoorOpacity)
        + only_channel(opacity, Channel::BgaLayerOpacity) + only_channel(opacity, Channel::BgaLayer2Opacity)
        + only_channel(argb, Channel::BgaBaseArgb) + only_channel(argb, Channel::BgaPoorArgb) + only_channel(
        argb,
        Channel::BgaLayerArgb,
    ) + only_channel(argb, Channel::BgaLayer2Argb) + bms.wav.notes@.map_values(|o: WavObj| note_unit::<T>(o))
        + sorted_units(bms.volume.bgm_volume_changes@) + sorted_units(bms.volume.key_volume_changes@)
        + text_keyed(bms).0 + judge_keyed(bms).0 + seek_keyed(bms).0 + sorted_units(bms.bmp.bga_keybound_events@)
        + sorted_units(bms.option.option_events@)
}

/// Every object that messages hold lies where a message can hold it: its denominator fits
/// in memory twice over.
pub open spec fn positions_fit<T: KeyLayoutMapper>(bms: Bms) -> bool {
    forall|j: int| 0 <= j < all_units::<T>(bms).len() ==> unit_fits(#[trigger] all_units::<T>(bms)[j])
}

/// The section length changes in the order of their positions.
pub open spec fn sorted_sections(bms: Bms) -> Seq<SectionLenChangeObj> {
    let s = bms.section_len.section_len_changes@;
    sorted_order(times_of(s), s.len() as int).map_values(|i: usize| s[i as int].2)
}

/// Each token is the section length message of its change.
pub open spec fn sections_fit(objs: Seq<SectionLenChangeObj>, tokens: Seq<Token>) -> bool {
    objs.len() == tokens.len() && forall|i: int|
        0 <= i < objs.len() ==> (#[trigger] tokens[i] matches Token::Message { track, channel, message }
            && track == objs[i].track && channel is SectionLen && message@ == objs[i].length.text())
}

/// A number below 3844 names an id with a lower-case letter, which only base 62 reads.
pub open spec fn lower_number(v: int) -> bool {
    v / 62 >= 36 || v % 62 >= 36
}

/// Whether an id has a lower-case letter.
pub open spec fn lower_id(id: ObjId) -> bool {
    lower_number(id.value())
}

/// The ids numbered `v` that the written score uses, outside the messages of ids of
/// definitions the score already has.
pub open spec fn id_used(bms: Bms, v: int) -> bool {
    ||| bms.wav.wav_files.at(v) is Some
    ||| bms.bmp.bmp_files.at(v) is Some
    ||| bms.bmp.atbga_defs.at(v) is Some
    ||| bms.bmp.bga_defs.at(v) is Some
    ||| bms.bmp.argb_defs.at(v) is Some
    ||| bms.bmp.swbga_events.at(v) is Some
    ||| bms.bpm.bpm_defs.at(v) is Some
    ||| bms.stop.stop_defs.at(v) is Some
    ||| bms.scroll.scroll_defs.at(v) is Some
    ||| bms.speed.speed_defs.at(v) is Some
    ||| bms.text.texts.at(v) is Some
    ||| bms.judge.exrank_defs.at(v) is Some
    ||| bms.video.seek_defs.at(v) is Some
}

/// The written score needs `#BASE 62`: an id it uses has a lower-case letter.
pub open spec fn needs_base62(bms: Bms) -> bool {
    ||| exists|v: int| 0 <= v < 3844 && lower_number(v) && #[trigger] id_used(bms, v)
    ||| exists|f: (Seq<char>, ObjId)| (bpm_keyed(bms).1.contains(f) || stop_keyed(bms).1.contains(f)
        || scroll_keyed(bms).1.contains(f) || speed_keyed(bms).1.contains(f) || text_keyed(bms).1.contains(f)
        || judge_keyed(bms).1.contains(f) || seek_keyed(bms).1.contains(f)) && #[trigger] lower_id(f.1)
    ||| exists|v: int| 0 <= v < 3844 && (#[trigger] bms.bmp.atbga_defs.at(v) matches Some(d) && lower_id(d.source_bmp))
    ||| exists|v: int| 0 <= v < 3844 && (#[trigger] bms.bmp.bga_defs.at(v) matches Some(d) && lower_id(d.source_bmp))
}

/// The tokens of a written score: the headers, `#STP` and picture lines; the definitions
/// that messages need; the section length messages; the messages of all other objects;
/// and `#BASE 62` when an id needs it.
pub open spec fn unparse_fits<T: KeyLayoutMapper>(bms: Bms, r: Seq<Token>) -> bool {
    exists|heads: Seq<Token>, late: Seq<Token>, sections: Seq<Token>, msgs: Seq<Token>, base: Seq<Token>|
        r == heads + late + sections + msgs + base && texts(heads) == header_texts(bms) + stp_texts(bms)
            + bmp_texts(bms) && texts(late) == late_def_texts(bms) && sections_fit(sorted_sections(bms), sections)
            && tokens_fit(message_segments(all_units::<T>(bms)), msgs) && texts(base) == (if needs_base62(bms) {
            seq![hd("BASE"@, "62"@)]
        } else {
            Seq::empty()
        })
}


fn pad3_text(v: u64) -> (r: String)
    ensures
        r@ == pad3(v as nat),
{
    let d = u64_to_text(v);
    let dc = crate::text::chars_of(d.as_str());
    if dc.len() >= 3 {
        return d;
    }
    let mut cs: Vec<char> = Vec::new();
    let mut i: usize = 0;
    while i < 3 - dc.len()
        invariant
            dc@.len() < 3,
            i <= 3 - dc@.len(),
            cs@ == Seq::new(i as nat, |j: int| '0'),
        decreases 3 - dc@.len() - i,
    {
        cs.push('0');
        i += 1;
        assert(cs@ =~= Seq::new(i as nat, |j: int| '0'));
    }
    let mut j: usize = 0;
    while j < dc.len()
        invariant
            j <= dc@.len(),
            dc@.len() < 3,
            cs@ == Seq::new((3 - dc@.len()) as nat, |k: int| '0') + dc@.take(j as int),
        decreases dc@.len() - j,
    {
        cs.push(dc[j]);
        j += 1;
        assert(cs@ =~= Seq::new((3 - dc@.len()) as nat, |k: int| '0') + dc@.take(j as int));
    }
    assert(dc@.take(dc@.len() as int) =~= dc@);
    crate::text::string_of(cs.as_slice())
}

fn stp_to_args(e: &StpEvent) -> (r: String)
    requires
        e.time.num_of() * e.time.den_of() <= u64::MAX,
    ensures
        r@ == stp_args(*e),
{
    let track = pad3_text(e.time.track().0);
    let pos = pad3_text(e.time.numerator() * e.time.denominator() / 1000);
    proof {
        reveal_strlit(".");
        reveal_strlit(" ");
        assert("."@ =~= seq!['.']);
        assert(" "@ =~= seq![' ']);
    }
    let a = concat(track.as_str(), ".");
    let b = concat(a.as_str(), pos.as_str());
    let c = concat(b.as_str(), " ");
    concat(c.as_str(), u64_to_text(e.duration_ms).as_str())
}

/// Every `#STP` position can be written: numerator times denominator fits in `u64`.
pub open spec fn stp_fit(bms: Bms) -> bool {
    forall|j: int| 0 <= j < bms.stop.stp_events@.len() ==> #[trigger] bms.stop.stp_events@[j].2.time.num_of()
        * bms.stop.stp_events@[j].2.time.den_of() <= u64::MAX
}

/// Adds the `#STP` lines in the order of their positions.
pub fn push_stp(out: &mut Vec<Token>, bms: &Bms)
    requires
        stp_fit(*bms),
    ensures
        texts(final(out)@) == texts(old(out)@) + stp_texts(*bms),
{
    let tl = &bms.stop.stp_events;
    let entries = tl.entries();
    let mut times: Vec<ObjTime> = Vec::new();
    let mut i: usize = 0;
    while i < entries.len()
        invariant
            i <= entries@.len(),
            entries@ == tl@,
            times@ == times_of(entries@.take(i as int)),
        decreases entries@.len() - i,
    {
        times.push(entries[i].0);
        i += 1;
        assert(times@ =~= times_of(entries@.take(i as int)));
    }
    assert(entries@.take(entries@.len() as int) =~= entries@);
    let order = sort_order(&times);
    let ghost want = stp_texts(*bms);
    let ghost t0 = texts(out@);
    let mut k: usize = 0;
    while k < order.len()
        invariant
            k <= order@.len(),
            entries@ == tl@,
            tl == &bms.stop.stp_events,
            stp_fit(*bms),
            times@ == times_of(tl@),
            order@ == sorted_order(times@, times@.len() as int),
            forall|j: int| 0 <= j < order@.len() ==> #[trigger] order@[j] < times@.len(),
            times@.len() == tl@.len(),
            want == stp_texts(*bms),
            texts(out@) == t0 + want.take(k as int),
        decreases order@.len() - k,
    {
        let e = &entries[order[k]].2;
        assert(e.time.num_of() * e.time.den_of() <= u64::MAX);
        let args = stp_to_args(e);
        push_header(out, owned("STP"), args);
        assert(want.take(k + 1) =~= want.take(k as int).push(want[k as int]));
        k += 1;
    }
    assert(want.take(order@.len() as int) =~= want);
}

/// Adds the picture lines.
pub fn push_bmp_texts(out: &mut Vec<Token>, bms: &Bms)
    ensures
        texts(final(out)@) == texts(old(out)@) + bmp_texts(*bms),
{
    push_opt_path(out, "BMP00", &bms.bmp.poor_bmp);
    push_bmp_defs(out, &bms.bmp.bmp_files);
    assert(texts(out@) =~= texts(old(out)@) + bmp_texts(*bms));
}

fn value_text_defs(m: &ObjIdMap<crate::bms::command::StringValue>) -> (r: Vec<Option<String>>)
    ensures
        r@.len() == 3844,
        r@.map_values(|o: Option<String>| match o {
            Some(s) => Some(s@),
            None => None,
        }) == value_texts(*m),
{
    let mut r: Vec<Option<String>> = Vec::new();
    let mut k: u16 = 0;
    while k < 3844
        invariant
            k <= 3844,
            r@.len() == k,
            forall|j: int| 0 <= j < k ==> (match #[trigger] r@[j] {
                Some(s) => Some(s@),
                None => None,
            }) == value_texts(*m)[j],
        decreases 3844 - k,
    {
        match m.get_at(k) {
            Some(v) => r.push(Some(owned(v.raw()))),
            None => r.push(None),
        }
        k += 1;
    }
    assert(r@.map_values(|o: Option<String>| match o {
        Some(s) => Some(s@),
        None => None,
    }) =~= value_texts(*m));
    r
}

fn string_text_defs(m: &ObjIdMap<String>) -> (r: Vec<Option<String>>)
    ensures
        r@.len() == 3844,
        r@.map_values(|o: Option<String>| match o {
            Some(s) => Some(s@),
            None => None,
        }) == string_texts(*m),
{
    let mut r: Vec<Option<String>> = Vec::new();
    let mut k: u16 = 0;
    while k < 3844
        invariant
            k <= 3844,
            r@.len() == k,
            forall|j: int| 0 <= j < k ==> (match #[trigger] r@[j] {
                Some(s) => Some(s@),
                None => None,
            }) == string_texts(*m)[j],
        decreases 3844 - k,
    {
        match m.get_at(k) {
            Some(v) => r.push(Some(v.clone())),
            None => r.push(None),
        }
        k += 1;
    }
    assert(r@.map_values(|o: Option<String>| match o {
        Some(s) => Some(s@),
        None => None,
    }) =~= string_texts(*m));
    r
}

fn exrank_text_defs(m: &ObjIdMap<crate::bms::objects::ExRankDef>) -> (r: Vec<Option<String>>)
    ensures
        r@.len() == 3844,
        r@.map_values(|o: Option<String>| match o {
            Some(s) => Some(s@),
            None => None,
        }) == exrank_texts(*m),
{
    let mut r: Vec<Option<String>> = Vec::new();
    let mut k: u16 = 0;
    while k < 3844
        invariant
            k <= 3844,
            r@.len() == k,
            forall|j: int| 0 <= j < k ==> (match #[trigger] r@[j] {
                Some(s) => Some(s@),
                None => None,
            }) == exrank_texts(*m)[j],
        decreases 3844 - k,
    {
        match m.get_at(k) {
            Some(d) => r.push(Some(headers::judge_level_to_text(d.judge_level))),
            None => r.push(None),
        }
        k += 1;
    }
    assert(r@.map_values(|o: Option<String>| match o {
        Some(s) => Some(s@),
        None => None,
    }) =~= exrank_texts(*m));
    r
}

/// Adds the headers of fresh definitions under `prefix`.
fn push_fresh(out: &mut Vec<Token>, prefix: &str, fresh: &Vec<(String, ObjId)>)
    ensures
        texts(final(out)@) == texts(old(out)@) + fresh_texts(prefix@, fresh@.map_values(|p: (String, ObjId)| (p.0@, p.1))),
{
    let ghost fv = fresh@.map_values(|p: (String, ObjId)| (p.0@, p.1));
    let mut i: usize = 0;
    while i < fresh.len()
        invariant
            i <= fresh@.len(),
            fv == fresh@.map_values(|p: (String, ObjId)| (p.0@, p.1)),
            texts(out@) == texts(old(out)@) + fresh_texts(prefix@, fv.take(i as int)),
        decreases fresh@.len() - i,
    {
        assert(fv[i as int] == (fresh@[i as int].0@, fresh@[i as int].1));
        push_header(out, concat(prefix, id_text(fresh[i].1).as_str()), fresh[i].0.clone());
        assert(fresh_texts(prefix@, fv.take(i + 1)) =~= fresh_texts(prefix@, fv.take(i as int)).push(hd(prefix@ + spec_id_text(fv[i as int].1), fv[i as int].0)));
        i += 1;
        assert(texts(out@) =~= texts(old(out)@) + fresh_texts(prefix@, fv.take(i as int)));
    }
    assert(fv.take(fresh@.len() as int) =~= fv);
}


/// The section length messages in the order of their positions.
fn section_messages(bms: &Bms) -> (r: Vec<Token>)
    ensures
        sections_fit(sorted_sections(*bms), r@),
{
    let tl = &bms.section_len.section_len_changes;
    let entries = tl.entries();
    let mut times: Vec<ObjTime> = Vec::new();
    let mut i: usize = 0;
    while i < entries.len()
        invariant
            i <= entries@.len(),
            entries@ == tl@,
            times@ == times_of(entries@.take(i as int)),
        decreases entries@.len() - i,
    {
        times.push(entries[i].0);
        i += 1;
        assert(times@ =~= times_of(entries@.take(i as int)));
    }
    assert(entries@.take(entries@.len() as int) =~= entries@);
    let order = sort_order(&times);
    let ghost want = sorted_sections(*bms);
    let mut r: Vec<Token> = Vec::new();
    let mut k: usize = 0;
    while k < order.len()
        invariant
            k <= order@.len(),
            entries@ == tl@,
            tl == &bms.section_len.section_len_changes,
            times@ == times_of(tl@),
            order@ == sorted_order(times@, times@.len() as int),
            forall|j: int| 0 <= j < order@.len() ==> #[trigger] order@[j] < times@.len(),
            times@.len() == tl@.len(),
            want == sorted_sections(*bms),
            sections_fit(want.take(k as int), r@),
        decreases order@.len() - k,
    {
        let o = &entries[order[k]].2;
        r.push(Token::Message { track: o.track, channel: Channel::SectionLen, message: owned(o.length.raw()) });
        k += 1;
        assert(forall|j: int| 0 <= j < k ==> want.take(k as int)[j] == want[j]);
        assert(forall|j: int| 0 <= j < k - 1 ==> want.take(k - 1)[j] == want[j]);
    }
    assert(want.take(order@.len() as int) =~= want);
    r
}

/// Whether any id number below 3844 that the score uses has a lower-case letter.
fn uses_lower_id(bms: &Bms) -> (r: bool)
    ensures
        r == exists|v: int| 0 <= v < 3844 && lower_number(v) && #[trigger] id_used(*bms, v),
{
    let mut v: u16 = 0;
    while v < 3844
        invariant
            v <= 3844,
            forall|w: int| 0 <= w < v ==> !(lower_number(w) && #[trigger] id_used(*bms, w)),
        decreases 3844 - v,
    {
        let lower = v / 62 >= 36 || v % 62 >= 36;
        let used = bms.wav.wav_files.get_at(v).is_some() || bms.bmp.bmp_files.get_at(v).is_some()
            || bms.bmp.atbga_defs.get_at(v).is_some() || bms.bmp.bga_defs.get_at(v).is_some()
            || bms.bmp.argb_defs.get_at(v).is_some() || bms.bmp.swbga_events.get_at(v).is_some()
            || bms.bpm.bpm_defs.get_at(v).is_some() || bms.stop.stop_defs.get_at(v).is_some()
            || bms.scroll.scroll_defs.get_at(v).is_some() || bms.speed.speed_defs.get_at(v).is_some()
            || bms.text.texts.get_at(v).is_some() || bms.judge.exrank_defs.get_at(v).is_some()
            || bms.video.seek_defs.get_at(v).is_some();
        if lower && used {
            assert(lower_number(v as int) && id_used(*bms, v as int));
            return true;
        }
        v += 1;
    }
    false
}

/// Whether a fresh id has a lower-case letter.
fn fresh_lower(fresh: &Vec<(String, ObjId)>) -> (r: bool)
    ensures
        r == exists|f: (Seq<char>, ObjId)| fresh@.map_values(|p: (String, ObjId)| (p.0@, p.1)).contains(f) && #[trigger] lower_id(f.1),
{
    let ghost fv = fresh@.map_values(|p: (String, ObjId)| (p.0@, p.1));
    let mut i: usize = 0;
    while i < fresh.len()
        invariant
            i <= fresh@.len(),
            fv == fresh@.map_values(|p: (String, ObjId)| (p.0@, p.1)),
            forall|j: int| 0 <= j < i ==> !lower_id(#[trigger] fv[j].1),
        decreases fresh@.len() - i,
    {
        let v = fresh[i].1.as_u16();
        if v / 62 >= 36 || v % 62 >= 36 {
            assert(fv.contains(fv[i as int]));
            assert(lower_id(fv[i as int].1));
            return true;
        }
        i += 1;
    }
    assert forall|f: (Seq<char>, ObjId)| fv.contains(f) implies !lower_id(f.1) by {
        let j = choose|j: int| 0 <= j < fv.len() && fv[j] == f;
        assert(!lower_id(fv[j].1));
    }
    false
}

/// Whether a cropped picture takes a source id with a lower-case letter.
fn sources_lower(bms: &Bms) -> (r: bool)
    ensures
        r == ((exists|v: int| 0 <= v < 3844 && (#[trigger] bms.bmp.atbga_defs.at(v) matches Some(d) && lower_id(d.source_bmp)))
            || (exists|v: int| 0 <= v < 3844 && (#[trigger] bms.bmp.bga_defs.at(v) matches Some(d) && lower_id(d.source_bmp)))),
{
    let mut v: u16 = 0;
    while v < 3844
        invariant
            v <= 3844,
            forall|w: int| 0 <= w < v ==> !(#[trigger] bms.bmp.atbga_defs.at(w) matches Some(d) && lower_id(d.source_bmp)),
            forall|w: int| 0 <= w < v ==> !(#[trigger] bms.bmp.bga_defs.at(w) matches Some(d) && lower_id(d.source_bmp)),
        decreases 3844 - v,
    {
        match bms.bmp.atbga_defs.get_at(v) {
            Some(d) => {
                let n = d.source_bmp.as_u16();
                if n / 62 >= 36 || n % 62 >= 36 {
                    return true;
                }
            },
            None => {},
        }
        match bms.bmp.bga_defs.get_at(v) {
            Some(d) => {
                let n = d.source_bmp.as_u16();
                if n / 62 >= 36 || n % 62 >= 36 {
                    return true;
                }
            },
            None => {},
        }
        v += 1;
    }
    false
}


/// Gives the objects of one channel the ids of their values, starting from the ids of the
/// definitions `defs`.
fn keyed_channel(defs: &Vec<Option<String>>, objs: &Vec<(ObjTime, String)>, channel: Channel) -> (r: (
    Vec<EventUnit>,
    Vec<(String, ObjId)>,
))
    requires
        defs@.len() == 3844,
    ensures
        (r.0@, r.1@.map_values(|p: (String, ObjId)| (p.0@, p.1))) == keyed(
            defs@.map_values(|o: Option<String>| match o {
                Some(s) => Some(s@),
                None => None,
            }),
            objs@.map_values(|p: (ObjTime, String)| (p.0, p.1@)),
            channel,
        ),
{
    let mut manager = ObjIdManager::from_defs(defs);
    keyed_units(&mut manager, objs, channel)
}

/// The units of the notes, in the order they were added.
fn note_units<T: KeyLayoutMapper>(notes: &crate::bms::model::Notes) -> (r: Vec<EventUnit>)
    ensures
        r@ == notes@.map_values(|o: WavObj| note_unit::<T>(o)),
{
    let all = notes.all_notes();
    let mut r: Vec<EventUnit> = Vec::new();
    let mut i: usize = 0;
    while i < all.len()
        invariant
            i <= all@.len(),
            all@ == notes@,
            r@ == all@.take(i as int).map_values(|o: WavObj| note_unit::<T>(o)),
        decreases all@.len() - i,
    {
        let o = all[i];
        let channel = if T::from_channel_id(o.channel_id).is_some() {
            Channel::Note { channel_id: o.channel_id }
        } else {
            Channel::Bgm
        };
        let cs = o.wav_id.to_chars();
        r.push(EventUnit { time: o.offset, channel, first: cs[0], second: cs[1] });
        i += 1;
        assert(r@ =~= all@.take(i as int).map_values(|o: WavObj| note_unit::<T>(o)));
    }
    assert(all@.take(all@.len() as int) =~= all@);
    r
}

/// Moves the units of one channel after the others.
fn append_units(out: &mut Vec<EventUnit>, more: Vec<EventUnit>)
    ensures
        final(out)@ == old(out)@ + more@,
{
    let mut more = more;
    out.append(&mut more);
}

/// Moves tokens after the others.
fn append_tokens(out: &mut Vec<Token>, more: Vec<Token>)
    ensures
        final(out)@ == old(out)@ + more@,
{
    let mut more = more;
    out.append(&mut more);
}

impl Bms {
    /// Writes the score back as tokens: headers and definitions, the `#STP` and picture
    /// lines, the definitions that messages need (fresh ids for values no definition has),
    /// the section lengths, the messages of every other channel, and `#BASE 62` when an id
    /// needs it. Note channels that the layout `T` does not read are written as background
    /// music.
    pub fn unparse<T: KeyLayoutMapper>(&self) -> (r: Vec<Token>)
        requires
            positions_fit::<T>(*self),
            stp_fit(*self),
        ensures
            unparse_fits::<T>(*self, r@),
    {
        let mut heads: Vec<Token> = Vec::new();
        push_leading_headers(&mut heads, self);
        push_score_headers(&mut heads, self);
        push_definition_headers(&mut heads, self);
        push_resource_headers(&mut heads, self);
        push_stp(&mut heads, self);
        push_bmp_texts(&mut heads, self);
        assert(texts(heads@) =~= header_texts(*self) + stp_texts(*self) + bmp_texts(*self));

        let (bpm_units, bpm_fresh) = keyed_channel(
            &value_text_defs(&self.bpm.bpm_defs),
            &keyed_objects(&self.bpm.bpm_changes),
            Channel::BpmChange,
        );
        let (stop_units, stop_fresh) = keyed_channel(
            &value_text_defs(&self.stop.stop_defs),
            &stop_objects(&self.stop.stops),
            Channel::Stop,
        );
        let (scroll_units, scroll_fresh) = keyed_channel(
            &value_text_defs(&self.scroll.scroll_defs),
            &keyed_objects(&self.scroll.scrolling_factor_changes),
            Channel::Scroll,
        );
        let (speed_units, speed_fresh) = keyed_channel(
            &value_text_defs(&self.speed.speed_defs),
            &keyed_objects(&self.speed.speed_factor_changes),
            Channel::Speed,
        );
        let (text_units, text_fresh) = keyed_channel(
            &string_text_defs(&self.text.texts),
            &keyed_objects(&self.text.text_events),
            Channel::Text,
        );
        let (judge_units, judge_fresh) = keyed_channel(
            &exrank_text_defs(&self.judge.exrank_defs),
            &keyed_objects(&self.judge.judge_events),
            Channel::Judge,
        );
        let (seek_units, seek_fresh) = keyed_channel(
            &value_text_defs(&self.video.seek_defs),
            &keyed_objects(&self.video.seek_events),
            Channel::Seek,
        );

        let mut late: Vec<Token> = Vec::new();
        push_fresh(&mut late, "BPM", &bpm_fresh);
        push_fresh(&mut late, "STOP", &stop_fresh);
        push_fresh(&mut late, "SCROLL", &scroll_fresh);
        push_fresh(&mut late, "SPEED", &speed_fresh);
        push_fresh(&mut late, "TEXT", &text_fresh);
        push_fresh(&mut late, "EXRANK", &judge_fresh);
        push_fresh(&mut late, "SEEK", &seek_fresh);
        assert(texts(late@) =~= late_def_texts(*self));

        let sections = section_messages(self);

        let opacity = unit_objects(&self.bmp.bga_opacity_changes);
        let argb = unit_objects(&self.bmp.bga_argb_changes);
        let mut units: Vec<EventUnit> = Vec::new();
        append_units(&mut units, bpm_units);
        append_units(&mut units, stop_units);
        append_units(&mut units, scroll_units);
        append_units(&mut units, speed_units);
        append_units(&mut units, unit_objects(&self.bmp.bga_changes));
        append_units(&mut units, units_on(&opacity, Channel::BgaBaseOpacity));
        append_units(&mut units, units_on(&opacity, Channel::BgaPoorOpacity));
        append_units(&mut units, units_on(&opacity, Channel::BgaLayerOpacity));
        append_units(&mut units, units_on(&opacity, Channel::BgaLayer2Opacity));
        append_units(&mut units, units_on(&argb, Channel::BgaBaseArgb));
        append_units(&mut units, units_on(&argb, Channel::BgaPoorArgb));
        append_units(&mut units, units_on(&argb, Channel::BgaLayerArgb));
        append_units(&mut units, units_on(&argb, Channel::BgaLayer2Argb));
        append_units(&mut units, note_units::<T>(&self.wav.notes));
        append_units(&mut units, unit_objects(&self.volume.bgm_volume_changes));
        append_units(&mut units, unit_objects(&self.volume.key_volume_changes));
        append_units(&mut units, text_units);
        append_units(&mut units, judge_units);
        append_units(&mut units, seek_units);
        append_units(&mut units, unit_objects(&self.bmp.bga_keybound_events));
        append_units(&mut units, unit_objects(&self.option.option_events));
        assert(units@ =~= all_units::<T>(*self));
        let msgs = build_event_messages(units);

        let needs = uses_lower_id(self) || fresh_lower(&bpm_fresh) || fresh_lower(&stop_fresh)
            || fresh_lower(&scroll_fresh) || fresh_lower(&speed_fresh) || fresh_lower(&text_fresh)
            || fresh_lower(&judge_fresh) || fresh_lower(&seek_fresh) || sources_lower(self);
        let mut base: Vec<Token> = Vec::new();
        if needs {
            push_header(&mut base, owned("BASE"), owned("62"));
        }
        proof {
            assert(needs == needs_base62(*self));
            assert(texts(base@) =~= (if needs_base62(*self) {
                seq![hd("BASE"@, "62"@)]
            } else {
                Seq::empty()
            }));
        }
        let ghost (h, l, s, m, b) = (heads@, late@, sections@, msgs@, base@);
        let mut r = heads;
        append_tokens(&mut r, late);
        append_tokens(&mut r, sections);
        append_tokens(&mut r, msgs);
        append_tokens(&mut r, base);
        assert(r@ == h + l + s + m + b);
        r
    }
}

} // verus!
