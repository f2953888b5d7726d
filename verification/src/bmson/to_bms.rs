//! Reading a bmson chart as a score.
use crate::bms::command::{time_same, Channel, JudgeLevel, ObjId, ObjTime, StringValue, Track};
use crate::bms::model::{first_at, Bms, ObjIdMap, Timeline, WavObj};
use crate::bms::layout::KeyLayoutBeat;
use crate::bms::objects::{BgaObj, Bmp, BpmChangeObj, ScrollingFactorObj, SectionLenChangeObj, StopObj};
use crate::chart::process::{spec_playing_errors, spec_playing_warnings, BmsProcessor};
use crate::bms::parse::token_processor::DefValue;
use crate::bms::prompt::AlwaysUseNewer;
use crate::bmson::convert::{
    convert_pulse_to_obj_time, lane_channel, make_lane_channel, spec_pulse_time, BmsonToBmsWarning,
    ObjIdIssuer,
};
use crate::bmson::pulse::PulseNumber;
use crate::bmson::convert::BmsonToBmsOutput;
use crate::bmson::{
    Bga, BgaEvent, BgaHeader, BgaId, Bmson, BmsonInfo, BpmEvent, JudgeRank, KeyChannel, MineChannel,
    ScrollEvent, SoundChannel, StopEvent,
};
use crate::chart::types::{Argb, BgaLayer, NoteKind};
use crate::text::u64_to_text;
use vstd::prelude::*;

verus! {

/// The count held by an id issuer after `n` calls.
pub open spec fn issuer_after(n: int) -> u16 {
    if n < 3844 {
        (n + 1) as u16
    } else {
        3845
    }
}

/// The id handed out at the `n`-th call to an issuer, counting from 0: `01` onwards in
/// base-62 order, and `00` once none is left.
pub open spec fn issued_id(n: int) -> ObjId {
    if 0 <= n < 3843 {
        ObjId::spec_from_value(n + 1)
    } else {
        ObjId::spec_from_value(0)
    }
}

/// How many of `n` calls to an issuer find no id left.
pub open spec fn overflow(n: int) -> int {
    if n > 3843 {
        n - 3843
    } else {
        0
    }
}

/// `n` copies of a warning.
pub open spec fn repeat(w: BmsonToBmsWarning, n: int) -> Seq<BmsonToBmsWarning> {
    Seq::new(n as nat, |i: int| w)
}

/// The definition of the id whose base-62 number is `k` after defining the issued ids in
/// turn as `values`: the `k`-th value for `01` onwards, the last value for `00` when the ids
/// ran out.
pub open spec fn issued_def<V>(values: Seq<V>, k: int) -> Option<V> {
    if 1 <= k <= 3843 && k <= values.len() {
        Some(values[k - 1])
    } else if k == 0 && values.len() > 3843 {
        Some(values.last())
    } else {
        None
    }
}

/// The objects after setting `v` at `time` on `lane`: it replaces the object there, if any,
/// else it is appended.
pub open spec fn newest_at<T>(s: Seq<(ObjTime, u8, T)>, time: ObjTime, lane: u8, v: T) -> Seq<
    (ObjTime, u8, T),
> {
    match first_at(s, time, lane) {
        None => s.push((time, lane, v)),
        Some(i) => s.update(i, (time, lane, v)),
    }
}

/// The objects after setting each item in turn, as `newest_at` does.
pub open spec fn placed<T>(s: Seq<(ObjTime, u8, T)>, items: Seq<(ObjTime, u8, T)>) -> Seq<
    (ObjTime, u8, T),
>
    decreases items.len(),
{
    if items.len() == 0 {
        s
    } else {
        let (t, l, v) = items.last();
        newest_at(placed(s, items.drop_last()), t, l, v)
    }
}

/// The ids handed out before the ids run out are all different, and none is `00`.
pub proof fn lemma_issued_ids_distinct(n: int, m: int)
    requires
        0 <= n < 3843,
        0 <= m < 3843,
        n != m,
    ensures
        issued_id(n) != issued_id(m),
        issued_id(n) != ObjId::spec_from_value(0),
{
    ObjId::lemma_from_value(n + 1, m + 1);
    ObjId::lemma_from_value(n + 1, 0);
}

/// Takes the next id of `issuer`, at its `n`-th call; when none is left, warns with `w` and
/// gives `00`.
fn issue(
    issuer: &mut ObjIdIssuer,
    Ghost(n): Ghost<int>,
    warnings: &mut Vec<BmsonToBmsWarning>,
    w: BmsonToBmsWarning,
) -> (r: ObjId)
    requires
        0 <= n,
        old(issuer).0 == issuer_after(n),
    ensures
        final(issuer).0 == issuer_after(n + 1),
        r == issued_id(n),
        final(warnings)@ == (if n >= 3843 {
            old(warnings)@.push(w)
        } else {
            old(warnings)@
        }),
{
    let ghost v = issuer.0;
    let got = issuer.next();
    proof {
        if n < 3843 {
            assert(v == n + 1);
            assert((v / 62) % 256 == v / 62);
            assert((v / 62) * 62 + v % 62 == v);
        }
    }
    match got {
        Some(id) => id,
        None => {
            warnings.push(w);
            ObjId::null()
        },
    }
}

/// Defines the ids of an issuer, in turn, as the values; the map starts empty.
fn define_issued<V: DefValue>(
    defs: &mut ObjIdMap<V>,
    values: &Vec<V>,
    warnings: &mut Vec<BmsonToBmsWarning>,
    w: BmsonToBmsWarning,
)
    requires
        forall|k: int| #[trigger] old(defs).at(k) is None,
    ensures
        forall|k: int| #[trigger] final(defs).at(k) == issued_def(values@, k),
        final(warnings)@ == old(warnings)@ + repeat(w, overflow(values@.len() as int)),
{
    let mut issuer = ObjIdIssuer::new();
    let mut i: usize = 0;
    while i < values.len()
        invariant
            i <= values@.len(),
            issuer.0 == issuer_after(i as int),
            forall|k: int| #[trigger] defs.at(k) == issued_def(values@.take(i as int), k),
            warnings@ == old(warnings)@ + repeat(w, overflow(i as int)),
        decreases values@.len() - i,
    {
        let ghost before = *defs;
        let ghost warned = warnings@;
        let id = issue(&mut issuer, Ghost(i as int), warnings, w);
        let v = values[i].copy_value();
        defs.insert(id, v);
        proof {
            let taken = values@.take(i + 1);
            assert(taken.last() == values@[i as int]);
            if i < 3843 {
                ObjId::lemma_from_value(i + 1, 0);
            } else {
                ObjId::lemma_from_value(0, 0);
            }
            assert forall|k: int| #[trigger] defs.at(k) == issued_def(taken, k) by {
                if k != id.value() {
                    assert(defs.at(k) == before.at(k));
                    if 1 <= k <= 3843 && k <= i {
                        assert(taken[k - 1] == values@.take(i as int)[k - 1]);
                    }
                }
            }
            assert(warnings@ =~= old(warnings)@ + repeat(w, overflow(i + 1)));
        }
        i += 1;
    }
    assert(values@.take(values@.len() as int) =~= values@);
}

/// Sets the items in turn on a timeline, each replacing the object at its position and
/// lane, if any.
fn place_all<T>(timeline: &mut Timeline<T>, items: Vec<(ObjTime, u8, T)>, channel: Channel)
    ensures
        final(timeline)@ == placed(old(timeline)@, items@),
{
    let ghost all = items@;
    let mut items = items;
    let mut rev: Vec<(ObjTime, u8, T)> = Vec::new();
    while items.len() > 0
        invariant
            items@ == all.take(items@.len() as int),
            items@.len() <= all.len(),
            rev@.len() == all.len() - items@.len(),
            forall|j: int| 0 <= j < rev@.len() ==> #[trigger] rev@[j] == all[all.len() - 1 - j],
        decreases items@.len(),
    {
        let x = items.pop().unwrap();
        rev.push(x);
        assert(items@ =~= all.take(items@.len() as int));
    }
    let total = rev.len();
    assert(total == all.len());
    let mut k: usize = 0;
    while rev.len() > 0
        invariant
            rev@.len() + k == all.len(),
            all.len() <= usize::MAX,
            forall|j: int| 0 <= j < rev@.len() ==> #[trigger] rev@[j] == all[all.len() - 1 - j],
            timeline@ == placed(old(timeline)@, all.take(k as int)),
        decreases rev@.len(),
    {
        let (t, l, v) = rev.pop().unwrap();
        let ghost taken = all.take(k + 1);
        assert(taken.drop_last() =~= all.take(k as int));
        assert(taken.last() == (t, l, v));
        let _ = timeline.push(t, l, v, channel, &AlwaysUseNewer);
        k += 1;
    }
    assert(all.take(all.len() as int) =~= all);
}

impl DefValue for Bmp {
    fn copy_value(&self) -> (r: Self) {
        Bmp { file: self.file.clone(), transparent_color: self.transparent_color }
    }
}

/// The judge rank as an integer: eighteen times the ratio, rounded toward zero and held to
/// the range of `i64` (zero for a ratio without denominator).
pub open spec fn judge_rank_value(r: JudgeRank) -> i64 {
    if r.denominator == 0 {
        0
    } else {
        let p = 18 * r.numerator;
        let q = if p >= 0 {
            p / (r.denominator as int)
        } else {
            -((-p) / (r.denominator as int))
        };
        if q > i64::MAX {
            i64::MAX
        } else if q < i64::MIN {
            i64::MIN
        } else {
            q as i64
        }
    }
}

/// Computes `judge_rank_value`.
pub fn convert_judge_rank(r: JudgeRank) -> (v: i64)
    ensures
        v == judge_rank_value(r),
{
    if r.denominator == 0 {
        return 0;
    }
    let p: i128 = 18 * (r.numerator as i128);
    let d: i128 = r.denominator as i128;
    let q: i128 = if p >= 0 {
        p / d
    } else {
        0 - ((0 - p) / d)
    };
    if q > i64::MAX as i128 {
        i64::MAX
    } else if q < i64::MIN as i128 {
        i64::MIN
    } else {
        q as i64
    }
}

/// The tempo changes of the events, in order, on lane 0.
pub open spec fn bpm_items(evs: Seq<BpmEvent>, res: u64) -> Seq<(ObjTime, u8, BpmChangeObj)> {
    Seq::new(
        evs.len(),
        |i: int|
            {
                let t = spec_pulse_time(evs[i].y.0, res);
                (t, 0u8, BpmChangeObj { time: t, bpm: evs[i].bpm })
            },
    )
}

/// The scrolling speed changes of the events, in order, on lane 0.
pub open spec fn scroll_items(evs: Seq<ScrollEvent>, res: u64) -> Seq<(ObjTime, u8, ScrollingFactorObj)> {
    Seq::new(
        evs.len(),
        |i: int|
            {
                let t = spec_pulse_time(evs[i].y.0, res);
                (t, 0u8, ScrollingFactorObj { time: t, factor: evs[i].rate })
            },
    )
}

/// The stops as positions and the texts of their lengths.
pub open spec fn stop_view(s: Seq<StopObj>) -> Seq<(ObjTime, Seq<char>)> {
    s.map_values(|o: StopObj| (o.time, o.duration.text()))
}

/// The index of the first stop at the same position as `time`, if any.
pub open spec fn first_stop_at(s: Seq<(ObjTime, Seq<char>)>, time: ObjTime) -> Option<int> {
    if exists|i: int| 0 <= i < s.len() && time_same(#[trigger] s[i].0, time) {
        Some(
            choose|i: int|
                0 <= i < s.len() && time_same(#[trigger] s[i].0, time) && forall|j: int|
                    0 <= j < i ==> !time_same(#[trigger] s[j].0, time),
        )
    } else {
        None
    }
}

/// The stops after setting one at `time` of length `len`: it replaces the stop at that
/// position, if any, else it is appended.
pub open spec fn stop_set(s: Seq<(ObjTime, Seq<char>)>, time: ObjTime, len: Seq<char>) -> Seq<
    (ObjTime, Seq<char>),
> {
    match first_stop_at(s, time) {
        None => s.push((time, len)),
        Some(i) => s.update(i, (time, len)),
    }
}

/// The stops after setting those of the first `n` events in turn: at the pulse of the
/// event, as long as its pulses written in decimal.
pub open spec fn stops_placed(s: Seq<(ObjTime, Seq<char>)>, evs: Seq<StopEvent>, res: u64, n: int) -> Seq<
    (ObjTime, Seq<char>),
>
    decreases n,
{
    if n <= 0 {
        s
    } else {
        let e = evs[n - 1];
        stop_set(
            stops_placed(s, evs, res, n - 1),
            spec_pulse_time(e.y.0, res),
            crate::text::decimal_text(e.duration as nat),
        )
    }
}

/// Sets a stop: it replaces the stop at its position, if any, else it is appended.
fn set_stop(stops: &mut Vec<StopObj>, o: StopObj)
    ensures
        stop_view(final(stops)@) == stop_set(stop_view(old(stops)@), o.time, o.duration.text()),
{
    let ghost v = stop_view(stops@);
    let mut i: usize = 0;
    while i < stops.len()
        invariant
            i <= stops@.len(),
            stops@ == old(stops)@,
            v == stop_view(stops@),
            forall|j: int| 0 <= j < i ==> !time_same(#[trigger] v[j].0, o.time),
        decreases stops@.len() - i,
    {
        if stops[i].time.same(&o.time) {
            proof {
                assert(time_same(v[i as int].0, o.time));
                let c = first_stop_at(v, o.time)->0;
                if c < i {
                    assert(!time_same(v[c].0, o.time));
                }
                if i < c {
                    assert(!time_same(v[i as int].0, o.time));
                }
            }
            let ghost t = o.time;
            let ghost len = o.duration.text();
            stops.set(i, o);
            assert(stop_view(stops@) =~= v.update(i as int, (t, len)));
            return;
        }
        i += 1;
    }
    let ghost t = o.time;
    let ghost len = o.duration.text();
    stops.push(o);
    assert(stop_view(stops@) =~= v.push((t, len)));
}

/// A note of a sound, landmine or invisible channel: its pulse, lane and kind.
pub type LaneEvent = (PulseNumber, u8, NoteKind);

/// The notes of a sound channel: long when they have a length.
pub open spec fn sound_events(c: SoundChannel) -> Seq<LaneEvent> {
    c.notes@.map_values(
        |n: crate::bmson::Note|
            (
                n.y,
                n.x,
                if n.l > 0 {
                    NoteKind::Long
                } else {
                    NoteKind::Visible
                },
            ),
    )
}

/// The landmines of a channel.
pub open spec fn mine_events(c: MineChannel) -> Seq<LaneEvent> {
    c.notes@.map_values(|n: crate::bmson::MineEvent| (n.y, n.x, NoteKind::Landmine))
}

/// The invisible notes of a channel.
pub open spec fn key_events(c: KeyChannel) -> Seq<LaneEvent> {
    c.notes@.map_values(|n: crate::bmson::KeyEvent| (n.y, n.x, NoteKind::Invisible))
}

/// The sound files of the channels: sound, then landmine, then invisible channels.
pub open spec fn wav_names(sound: Seq<SoundChannel>, mine: Seq<MineChannel>, key: Seq<KeyChannel>) -> Seq<String> {
    sound.map_values(|c: SoundChannel| c.name) + mine.map_values(|c: MineChannel| c.name)
        + key.map_values(|c: KeyChannel| c.name)
}

/// The notes of the channels, in the order of `wav_names`.
pub open spec fn wav_events(sound: Seq<SoundChannel>, mine: Seq<MineChannel>, key: Seq<KeyChannel>) -> Seq<
    Seq<LaneEvent>,
> {
    sound.map_values(|c: SoundChannel| sound_events(c)) + mine.map_values(
        |c: MineChannel| mine_events(c),
    ) + key.map_values(|c: KeyChannel| key_events(c))
}

/// The note object of an event of the channel whose sound is `id`.
pub open spec fn note_obj(e: LaneEvent, id: ObjId, res: u64) -> WavObj {
    WavObj { offset: spec_pulse_time(e.0.0, res), channel_id: lane_channel(e.1, e.2), wav_id: id }
}

/// The note objects of the first `n` channels, each playing the id issued for it.
pub open spec fn channel_notes(evs: Seq<Seq<LaneEvent>>, res: u64, n: int) -> Seq<WavObj>
    decreases n,
{
    if n <= 0 {
        Seq::empty()
    } else {
        channel_notes(evs, res, n - 1) + evs[n - 1].map_values(
            |e: LaneEvent| note_obj(e, issued_id(n - 1), res),
        )
    }
}

/// The views of vectors.
pub open spec fn deep<X>(v: Seq<Vec<X>>) -> Seq<Seq<X>> {
    v.map_values(|x: Vec<X>| x@)
}

/// Collects the sound files and the notes of the channels, in the order of `wav_names`.
fn wav_channels(sound: &Vec<SoundChannel>, mine: &Vec<MineChannel>, key: &Vec<KeyChannel>) -> (r: (
    Vec<String>,
    Vec<Vec<LaneEvent>>,
))
    ensures
        r.0@ == wav_names(sound@, mine@, key@),
        deep(r.1@) == wav_events(sound@, mine@, key@),
{
    let mut names: Vec<String> = Vec::new();
    let mut evs: Vec<Vec<LaneEvent>> = Vec::new();
    let mut i: usize = 0;
    while i < sound.len()
        invariant
            i <= sound@.len(),
            names@ == sound@.take(i as int).map_values(|c: SoundChannel| c.name),
            deep(evs@) == sound@.take(i as int).map_values(|c: SoundChannel| sound_events(c)),
        decreases sound@.len() - i,
    {
        let c = &sound[i];
        let mut es: Vec<LaneEvent> = Vec::new();
        let mut j: usize = 0;
        while j < c.notes.len()
            invariant
                j <= c.notes@.len(),
                c == sound@[i as int],
                es@ == sound_events(*c).take(j as int),
            decreases c.notes@.len() - j,
        {
            let n = c.notes[j];
            let kind = if n.l > 0 {
                NoteKind::Long
            } else {
                NoteKind::Visible
            };
            es.push((n.y, n.x, kind));
            assert(es@ =~= sound_events(*c).take(j + 1));
            j += 1;
        }
        assert(es@ =~= sound_events(*c));
        names.push(c.name.clone());
        let ghost es_v = es@;
        let ghost evs_before = evs@;
        evs.push(es);
        assert(deep(evs@) =~= deep(evs_before).push(es_v));
        assert(names@ =~= sound@.take(i + 1).map_values(|c: SoundChannel| c.name));
        assert(deep(evs@) =~= sound@.take(i + 1).map_values(|c: SoundChannel| sound_events(c)));
        i += 1;
    }
    assert(sound@.take(sound@.len() as int) =~= sound@);
    let ghost names1 = names@;
    let ghost evs1 = deep(evs@);
    let mut i: usize = 0;
    while i < mine.len()
        invariant
            i <= mine@.len(),
            names@ == names1 + mine@.take(i as int).map_values(|c: MineChannel| c.name),
            deep(evs@) == evs1 + mine@.take(i as int).map_values(|c: MineChannel| mine_events(c)),
        decreases mine@.len() - i,
    {
        let c = &mine[i];
        let mut es: Vec<LaneEvent> = Vec::new();
        let mut j: usize = 0;
        while j < c.notes.len()
            invariant
                j <= c.notes@.len(),
                c == mine@[i as int],
                es@ == mine_events(*c).take(j as int),
            decreases c.notes@.len() - j,
        {
            es.push((c.notes[j].y, c.notes[j].x, NoteKind::Landmine));
            assert(es@ =~= mine_events(*c).take(j + 1));
            j += 1;
        }
        assert(es@ =~= mine_events(*c));
        names.push(c.name.clone());
        let ghost es_v = es@;
        let ghost evs_before = evs@;
        evs.push(es);
        assert(deep(evs@) =~= deep(evs_before).push(es_v));
        assert(names@ =~= names1 + mine@.take(i + 1).map_values(|c: MineChannel| c.name));
        assert(deep(evs@) =~= evs1 + mine@.take(i + 1).map_values(|c: MineChannel| mine_events(c)));
        i += 1;
    }
    assert(mine@.take(mine@.len() as int) =~= mine@);
    let ghost names2 = names@;
    let ghost evs2 = deep(evs@);
    let mut i: usize = 0;
    while i < key.len()
        invariant
            i <= key@.len(),
            names@ == names2 + key@.take(i as int).map_values(|c: KeyChannel| c.name),
            deep(evs@) == evs2 + key@.take(i as int).map_values(|c: KeyChannel| key_events(c)),
        decreases key@.len() - i,
    {
        let c = &key[i];
        let mut es: Vec<LaneEvent> = Vec::new();
        let mut j: usize = 0;
        while j < c.notes.len()
            invariant
                j <= c.notes@.len(),
                c == key@[i as int],
                es@ == key_events(*c).take(j as int),
            decreases c.notes@.len() - j,
        {
            es.push((c.notes[j].y, c.notes[j].x, NoteKind::Invisible));
            assert(es@ =~= key_events(*c).take(j + 1));
            j += 1;
        }
        assert(es@ =~= key_events(*c));
        names.push(c.name.clone());
        let ghost es_v = es@;
        let ghost evs_before = evs@;
        evs.push(es);
        assert(deep(evs@) =~= deep(evs_before).push(es_v));
        assert(names@ =~= names2 + key@.take(i + 1).map_values(|c: KeyChannel| c.name));
        assert(deep(evs@) =~= evs2 + key@.take(i + 1).map_values(|c: KeyChannel| key_events(c)));
        i += 1;
    }
    assert(key@.take(key@.len() as int) =~= key@);
    assert(names@ =~= wav_names(sound@, mine@, key@));
    assert(deep(evs@) =~= wav_events(sound@, mine@, key@));
    (names, evs)
}

/// Adds the notes of the channels, each playing the id issued for its channel.
fn push_channel_notes(notes: &mut crate::bms::model::Notes, evs: &Vec<Vec<LaneEvent>>, res: u64)
    requires
        0 < res,
        res * 4 <= u64::MAX,
    ensures
        final(notes)@ == old(notes)@ + channel_notes(deep(evs@), res, evs@.len() as int),
{
    let ghost d = deep(evs@);
    let mut issuer = ObjIdIssuer::new();
    let mut dropped: Vec<BmsonToBmsWarning> = Vec::new();
    let mut i: usize = 0;
    while i < evs.len()
        invariant
            i <= evs@.len(),
            0 < res,
            res * 4 <= u64::MAX,
            d == deep(evs@),
            issuer.0 == issuer_after(i as int),
            notes@ == old(notes)@ + channel_notes(d, res, i as int),
        decreases evs@.len() - i,
    {
        let id = issue(&mut issuer, Ghost(i as int), &mut dropped, BmsonToBmsWarning::WavObjIdOutOfRange);
        let es = &evs[i];
        assert(d[i as int] == es@);
        let ghost start = notes@;
        let mut j: usize = 0;
        while j < es.len()
            invariant
                j <= es@.len(),
                0 < res,
                res * 4 <= u64::MAX,
                notes@ == start + es@.take(j as int).map_values(|e: LaneEvent| note_obj(e, id, res)),
            decreases es@.len() - j,
        {
            let (y, x, kind) = es[j];
            let offset = convert_pulse_to_obj_time(y, res);
            let channel_id = make_lane_channel(x, kind);
            notes.push_note(WavObj { offset, channel_id, wav_id: id });
            assert(notes@ =~= start + es@.take(j + 1).map_values(|e: LaneEvent| note_obj(e, id, res)));
            j += 1;
        }
        assert(es@.take(es@.len() as int) =~= es@);
        assert(notes@ =~= old(notes)@ + channel_notes(d, res, i + 1));
        i += 1;
    }
}

/// The index of the last of the first `n` picture files with the id `id`.
pub open spec fn header_index(hs: Seq<BgaHeader>, id: BgaId, n: int) -> Option<int>
    decreases n,
{
    if n <= 0 {
        None
    } else if hs[n - 1].id == id {
        Some(n - 1)
    } else {
        header_index(hs, id, n - 1)
    }
}

/// The object id of the picture `id`: the one issued for the last file with that id.
pub open spec fn bga_obj_id(hs: Seq<BgaHeader>, id: BgaId) -> Option<ObjId> {
    match header_index(hs, id, hs.len() as int) {
        Some(i) => Some(issued_id(i)),
        None => None,
    }
}

/// The picture definitions of the files: opaque black as the transparent color.
pub open spec fn header_bmps(hs: Seq<BgaHeader>) -> Seq<Bmp> {
    hs.map_values(
        |h: BgaHeader| Bmp { file: h.name, transparent_color: Argb { alpha: 255, red: 0, green: 0, blue: 0 } },
    )
}

/// The picture events with their layers: base, then overlay, then miss layer events.
pub open spec fn layered_events(base: Seq<BgaEvent>, overlay: Seq<BgaEvent>, poor: Seq<BgaEvent>) -> Seq<
    (BgaEvent, BgaLayer),
> {
    base.map_values(|e: BgaEvent| (e, BgaLayer::Base)) + overlay.map_values(
        |e: BgaEvent| (e, BgaLayer::Overlay),
    ) + poor.map_values(|e: BgaEvent| (e, BgaLayer::Poor))
}

/// The picture change of an event, on the lane of its layer; `00` when no file has its id.
pub open spec fn bga_item(hs: Seq<BgaHeader>, p: (BgaEvent, BgaLayer), res: u64) -> (ObjTime, u8, BgaObj) {
    let t = spec_pulse_time(p.0.y.0, res);
    let id = match bga_obj_id(hs, p.0.id) {
        Some(id) => id,
        None => ObjId::spec_from_value(0),
    };
    (t, crate::bms::command::spec_layer_lane(p.1), BgaObj { time: t, id, layer: p.1 })
}

/// How many of the first `n` events name a picture that no file has.
pub open spec fn bga_misses(hs: Seq<BgaHeader>, evs: Seq<(BgaEvent, BgaLayer)>, n: int) -> int
    decreases n,
{
    if n <= 0 {
        0
    } else {
        bga_misses(hs, evs, n - 1) + if bga_obj_id(hs, evs[n - 1].0.id) is None {
            1int
        } else {
            0
        }
    }
}

/// No count of misses is negative.
proof fn lemma_misses_nonneg(hs: Seq<BgaHeader>, evs: Seq<(BgaEvent, BgaLayer)>, n: int)
    ensures
        bga_misses(hs, evs, n) >= 0,
    decreases n,
{
    if n > 0 {
        lemma_misses_nonneg(hs, evs, n - 1);
    }
}

/// Finds the last picture file with the id `id`.
fn find_header(hs: &Vec<BgaHeader>, id: BgaId) -> (r: Option<usize>)
    ensures
        r is None <==> header_index(hs@, id, hs@.len() as int) is None,
        r matches Some(h) ==> header_index(hs@, id, hs@.len() as int) == Some(h as int),
{
    let mut n: usize = hs.len();
    while n > 0
        invariant
            n <= hs@.len(),
            header_index(hs@, id, hs@.len() as int) == header_index(hs@, id, n as int),
        decreases n,
    {
        if hs[n - 1].id == id {
            return Some(n - 1);
        }
        n -= 1;
    }
    None
}

/// The picture changes of the events, with a warning for each event whose picture no file
/// has.
fn bga_items_of(
    hs: &Vec<BgaHeader>,
    base: &Vec<BgaEvent>,
    overlay: &Vec<BgaEvent>,
    poor: &Vec<BgaEvent>,
    res: u64,
    warnings: &mut Vec<BmsonToBmsWarning>,
) -> (r: Vec<(ObjTime, u8, BgaObj)>)
    requires
        0 < res,
        res * 4 <= u64::MAX,
    ensures
        r@ == layered_events(base@, overlay@, poor@).map_values(
            |p: (BgaEvent, BgaLayer)| bga_item(hs@, p, res),
        ),
        final(warnings)@ == old(warnings)@ + repeat(
            BmsonToBmsWarning::BgaEventObjIdOutOfRange,
            bga_misses(hs@, layered_events(base@, overlay@, poor@), layered_events(base@, overlay@, poor@).len() as int),
        ),
{
    let mut evs: Vec<(BgaEvent, BgaLayer)> = Vec::new();
    let mut i: usize = 0;
    while i < base.len()
        invariant
            i <= base@.len(),
            evs@ == base@.take(i as int).map_values(|e: BgaEvent| (e, BgaLayer::Base)),
        decreases base@.len() - i,
    {
        evs.push((base[i], BgaLayer::Base));
        assert(evs@ =~= base@.take(i + 1).map_values(|e: BgaEvent| (e, BgaLayer::Base)));
        i += 1;
    }
    assert(base@.take(base@.len() as int) =~= base@);
    let ghost e1 = evs@;
    let mut i: usize = 0;
    while i < overlay.len()
        invariant
            i <= overlay@.len(),
            evs@ == e1 + overlay@.take(i as int).map_values(|e: BgaEvent| (e, BgaLayer::Overlay)),
        decreases overlay@.len() - i,
    {
        evs.push((overlay[i], BgaLayer::Overlay));
        assert(evs@ =~= e1 + overlay@.take(i + 1).map_values(|e: BgaEvent| (e, BgaLayer::Overlay)));
        i += 1;
    }
    assert(overlay@.take(overlay@.len() as int) =~= overlay@);
    let ghost e2 = evs@;
    let mut i: usize = 0;
    while i < poor.len()
        invariant
            i <= poor@.len(),
            evs@ == e2 + poor@.take(i as int).map_values(|e: BgaEvent| (e, BgaLayer::Poor)),
        decreases poor@.len() - i,
    {
        evs.push((poor[i], BgaLayer::Poor));
        assert(evs@ =~= e2 + poor@.take(i + 1).map_values(|e: BgaEvent| (e, BgaLayer::Poor)));
        i += 1;
    }
    assert(poor@.take(poor@.len() as int) =~= poor@);
    let ghost all = layered_events(base@, overlay@, poor@);
    assert(evs@ =~= all);
    let mut items: Vec<(ObjTime, u8, BgaObj)> = Vec::new();
    let mut k: usize = 0;
    while k < evs.len()
        invariant
            k <= evs@.len(),
            evs@ == all,
            0 < res,
            res * 4 <= u64::MAX,
            items@ == all.take(k as int).map_values(|p: (BgaEvent, BgaLayer)| bga_item(hs@, p, res)),
            warnings@ == old(warnings)@ + repeat(
                BmsonToBmsWarning::BgaEventObjIdOutOfRange,
                bga_misses(hs@, all, k as int),
            ),
        decreases evs@.len() - k,
    {
        let (e, layer) = evs[k];
        let time = convert_pulse_to_obj_time(e.y, res);
        let ghost warned = warnings@;
        let found = find_header(hs, e.id);
        let ghost expected = bga_item(hs@, (e, layer), res).2.id;
        let id = match found {
            Some(h) => {
                assert(bga_obj_id(hs@, e.id) == Some(issued_id(h as int)));
                if h < 3843 {
                    let hv: u16 = (h + 1) as u16;
                    assert(hv == h + 1);
                    let id = ObjId::from_u16(hv).unwrap();
                    assert(id == expected);
                    id
                } else {
                    ObjId::null()
                }
            },
            None => {
                assert(bga_obj_id(hs@, e.id) is None);
                warnings.push(BmsonToBmsWarning::BgaEventObjIdOutOfRange);
                ObjId::null()
            },
        };
        let lane: u8 = match layer {
            BgaLayer::Base => 0,
            BgaLayer::Poor => 1,
            BgaLayer::Overlay => 2,
            BgaLayer::Overlay2 => 3,
        };
        assert(all[k as int] == (e, layer));
        assert(id == bga_item(hs@, (e, layer), res).2.id);
        assert(lane == bga_item(hs@, (e, layer), res).1);
        assert(time == bga_item(hs@, (e, layer), res).0);
        items.push((time, lane, BgaObj { time, id, layer }));
        assert(items@ =~= all.take(k + 1).map_values(|p: (BgaEvent, BgaLayer)| bga_item(hs@, p, res)));
        proof {
            let w = BmsonToBmsWarning::BgaEventObjIdOutOfRange;
            let m = bga_misses(hs@, all, k as int);
            assert(m >= 0) by {
                lemma_misses_nonneg(hs@, all, k as int);
            }
            if found is None {
                assert(bga_misses(hs@, all, k + 1) == m + 1);
                assert(warnings@ =~= old(warnings)@ + repeat(w, m + 1));
            } else {
                assert(bga_misses(hs@, all, k + 1) == m);
                assert(warnings@ =~= old(warnings)@ + repeat(w, m));
            }
        }
        k += 1;
    }
    assert(all.take(all.len() as int) =~= all);
    items
}

/// The texts of the definitions, where there are.
pub open spec fn texts_of(o: Option<StringValue>) -> Option<Seq<char>> {
    match o {
        Some(v) => Some(v.text()),
        None => None,
    }
}

/// The texts of the stop lengths of the events.
pub open spec fn stop_texts(evs: Seq<StopEvent>) -> Seq<Seq<char>> {
    evs.map_values(|e: StopEvent| crate::text::decimal_text(e.duration as nat))
}

/// The definitions issued for values have the texts issued for their texts.
proof fn lemma_issued_texts(values: Seq<StringValue>, texts: Seq<Seq<char>>, k: int)
    requires
        values.len() == texts.len(),
        forall|i: int| 0 <= i < values.len() ==> #[trigger] values[i].text() == texts[i],
    ensures
        texts_of(issued_def(values, k)) == issued_def(texts, k),
{
    if k == 0 && values.len() > 3843 {
        assert(values.last().text() == texts.last());
    }
}

/// The tempo values and the tempo changes of the events.
fn bpm_parts(evs: &Vec<BpmEvent>, res: u64) -> (r: (Vec<StringValue>, Vec<(ObjTime, u8, BpmChangeObj)>))
    requires
        0 < res,
        res * 4 <= u64::MAX,
    ensures
        r.0@ == evs@.map_values(|e: BpmEvent| e.bpm),
        r.1@ == bpm_items(evs@, res),
{
    let mut values: Vec<StringValue> = Vec::new();
    let mut items: Vec<(ObjTime, u8, BpmChangeObj)> = Vec::new();
    let mut i: usize = 0;
    while i < evs.len()
        invariant
            i <= evs@.len(),
            0 < res,
            res * 4 <= u64::MAX,
            values@ == evs@.take(i as int).map_values(|e: BpmEvent| e.bpm),
            items@ == bpm_items(evs@, res).take(i as int),
        decreases evs@.len() - i,
    {
        let e = &evs[i];
        let t = convert_pulse_to_obj_time(e.y, res);
        values.push(e.bpm.clone());
        items.push((t, 0, BpmChangeObj { time: t, bpm: e.bpm.clone() }));
        assert(values@ =~= evs@.take(i + 1).map_values(|e: BpmEvent| e.bpm));
        assert(items@ =~= bpm_items(evs@, res).take(i + 1));
        i += 1;
    }
    assert(evs@.take(evs@.len() as int) =~= evs@);
    assert(items@ =~= bpm_items(evs@, res));
    (values, items)
}

/// The scrolling rates and the scrolling speed changes of the events.
fn scroll_parts(evs: &Vec<ScrollEvent>, res: u64) -> (r: (Vec<StringValue>, Vec<(ObjTime, u8, ScrollingFactorObj)>))
    requires
        0 < res,
        res * 4 <= u64::MAX,
    ensures
        r.0@ == evs@.map_values(|e: ScrollEvent| e.rate),
        r.1@ == scroll_items(evs@, res),
{
    let mut values: Vec<StringValue> = Vec::new();
    let mut items: Vec<(ObjTime, u8, ScrollingFactorObj)> = Vec::new();
    let mut i: usize = 0;
    while i < evs.len()
        invariant
            i <= evs@.len(),
            0 < res,
            res * 4 <= u64::MAX,
            values@ == evs@.take(i as int).map_values(|e: ScrollEvent| e.rate),
            items@ == scroll_items(evs@, res).take(i as int),
        decreases evs@.len() - i,
    {
        let e = &evs[i];
        let t = convert_pulse_to_obj_time(e.y, res);
        values.push(e.rate.clone());
        items.push((t, 0, ScrollingFactorObj { time: t, factor: e.rate.clone() }));
        assert(values@ =~= evs@.take(i + 1).map_values(|e: ScrollEvent| e.rate));
        assert(items@ =~= scroll_items(evs@, res).take(i + 1));
        i += 1;
    }
    assert(evs@.take(evs@.len() as int) =~= evs@);
    assert(items@ =~= scroll_items(evs@, res));
    (values, items)
}

/// Defines the stop lengths of the events under issued ids and sets their stops.
fn convert_stops(
    evs: &Vec<StopEvent>,
    res: u64,
    objects: &mut crate::bms::objects::StopObjects,
    warnings: &mut Vec<BmsonToBmsWarning>,
)
    requires
        0 < res,
        res * 4 <= u64::MAX,
        forall|k: int| #[trigger] old(objects).stop_defs.at(k) is None,
        old(objects).stops@.len() == 0,
    ensures
        forall|k: int| #[trigger] texts_of(final(objects).stop_defs.at(k)) == issued_def(stop_texts(evs@), k),
        stop_view(final(objects).stops@) == stops_placed(Seq::empty(), evs@, res, evs@.len() as int),
        final(warnings)@ == old(warnings)@ + repeat(
            BmsonToBmsWarning::StopDefOutOfRange,
            overflow(evs@.len() as int),
        ),
        final(objects).stop_ids_used == old(objects).stop_ids_used,
        final(objects).stp_events@ == old(objects).stp_events@,
{
    let mut values: Vec<StringValue> = Vec::new();
    let mut i: usize = 0;
    while i < evs.len()
        invariant
            i <= evs@.len(),
            values@.len() == i,
            forall|j: int| 0 <= j < i ==> #[trigger] values@[j].text() == stop_texts(evs@)[j],
        decreases evs@.len() - i,
    {
        let text = u64_to_text(evs[i].duration);
        values.push(StringValue::new(text.as_str()));
        i += 1;
    }
    define_issued(&mut objects.stop_defs, &values, warnings, BmsonToBmsWarning::StopDefOutOfRange);
    assert forall|k: int| #[trigger] texts_of(objects.stop_defs.at(k)) == issued_def(stop_texts(evs@), k) by {
        lemma_issued_texts(values@, stop_texts(evs@), k);
    }
    let ghost defs = objects.stop_defs;
    let mut i: usize = 0;
    assert(stop_view(objects.stops@) =~= Seq::<(ObjTime, Seq<char>)>::empty());
    while i < evs.len()
        invariant
            i <= evs@.len(),
            0 < res,
            res * 4 <= u64::MAX,
            stop_view(objects.stops@) == stops_placed(Seq::empty(), evs@, res, i as int),
            objects.stop_defs == defs,
            objects.stop_ids_used == old(objects).stop_ids_used,
            objects.stp_events@ == old(objects).stp_events@,
        decreases evs@.len() - i,
    {
        let e = evs[i];
        let time = convert_pulse_to_obj_time(e.y, res);
        let text = u64_to_text(e.duration);
        let ghost before = stop_view(objects.stops@);
        set_stop(&mut objects.stops, StopObj { time, duration: StringValue::new(text.as_str()) });
        assert(stops_placed(Seq::empty(), evs@, res, i + 1) == stop_set(before, time, text@));
        i += 1;
    }
}

/// The picture definitions of the files.
fn header_parts(hs: &Vec<BgaHeader>) -> (r: Vec<Bmp>)
    ensures
        r@ == header_bmps(hs@),
{
    let mut r: Vec<Bmp> = Vec::new();
    let mut i: usize = 0;
    while i < hs.len()
        invariant
            i <= hs@.len(),
            r@ == header_bmps(hs@).take(i as int),
        decreases hs@.len() - i,
    {
        r.push(Bmp { file: hs[i].name.clone(), transparent_color: Argb::default() });
        assert(r@ =~= header_bmps(hs@).take(i + 1));
        i += 1;
    }
    assert(r@ =~= header_bmps(hs@));
    r
}

/// The header of a score read from the information of a bmson chart.
pub open spec fn info_read(info: BmsonInfo, bms: Bms) -> bool {
    &&& bms.music_info.title == Some(info.title)
    &&& bms.music_info.subtitle == Some(info.subtitle)
    &&& bms.music_info.artist == Some(info.artist)
    &&& bms.music_info.sub_artist == (if info.subartists@.len() > 0 {
        Some(info.subartists@[0])
    } else {
        None
    })
    &&& bms.music_info.genre == Some(info.genre)
    &&& bms.music_info.preview_music == info.preview_music
    &&& bms.metadata.play_level == Some((info.level % 256) as u8)
    &&& bms.judge.total == Some(info.total)
    &&& bms.judge.rank == Some(JudgeLevel::OtherInt(judge_rank_value(info.judge_rank)))
    &&& bms.sprite.back_bmp == info.back_image
    &&& bms.sprite.stage_file == info.eyecatch_image
    &&& bms.sprite.banner == info.banner_image
    &&& bms.bpm.bpm == Some(info.init_bpm)
    &&& bms.section_len.section_len_changes@.len() == 1
    &&& bms.section_len.section_len_changes@[0].0 == ObjTime::spec_new(0, 0, 1)
    &&& bms.section_len.section_len_changes@[0].1 == 0
    &&& bms.section_len.section_len_changes@[0].2.track == Track(0)
    &&& bms.section_len.section_len_changes@[0].2.length.text() == crate::text::decimal_text(
        info.resolution as nat,
    )
}

/// The tempo definitions and changes read from the events: definitions under the ids issued
/// in order, changes at the pulses of the events.
pub open spec fn bpm_read(evs: Seq<BpmEvent>, res: u64, objs: crate::bms::objects::BpmObjects) -> bool {
    &&& forall|k: int| #[trigger] objs.bpm_defs.at(k) == issued_def(evs.map_values(|e: BpmEvent| e.bpm), k)
    &&& objs.bpm_changes@ == placed(Seq::empty(), bpm_items(evs, res))
}

/// The stop definitions and stops read from the events.
pub open spec fn stop_read(evs: Seq<StopEvent>, res: u64, objs: crate::bms::objects::StopObjects) -> bool {
    &&& forall|k: int| #[trigger] texts_of(objs.stop_defs.at(k)) == issued_def(stop_texts(evs), k)
    &&& stop_view(objs.stops@) == stops_placed(Seq::empty(), evs, res, evs.len() as int)
}

/// The scrolling definitions and changes read from the events.
pub open spec fn scroll_read(evs: Seq<ScrollEvent>, res: u64, objs: crate::bms::objects::ScrollObjects) -> bool {
    &&& forall|k: int| #[trigger] objs.scroll_defs.at(k) == issued_def(evs.map_values(|e: ScrollEvent| e.rate), k)
    &&& objs.scrolling_factor_changes@ == placed(Seq::empty(), scroll_items(evs, res))
}

/// The sound files and notes read from the channels.
pub open spec fn wav_read(
    sound: Seq<SoundChannel>,
    mine: Seq<MineChannel>,
    key: Seq<KeyChannel>,
    res: u64,
    objs: crate::bms::objects::WavObjects,
) -> bool {
    let evs = wav_events(sound, mine, key);
    &&& forall|k: int| #[trigger] objs.wav_files.at(k) == issued_def(wav_names(sound, mine, key), k)
    &&& objs.notes@ == channel_notes(evs, res, evs.len() as int)
}

/// The picture files and changes read from the pictures of a chart.
pub open spec fn bmp_read(bga: Bga, res: u64, objs: crate::bms::objects::BmpObjects) -> bool {
    let pictures = layered_events(bga.bga_events@, bga.layer_events@, bga.poor_events@);
    &&& forall|k: int| #[trigger] objs.bmp_files.at(k) == issued_def(header_bmps(bga.bga_header@), k)
    &&& objs.bga_changes@ == placed(
        Seq::empty(),
        pictures.map_values(|p: (BgaEvent, BgaLayer)| bga_item(bga.bga_header@, p, res)),
    )
}

/// The objects of a score read from the events of a bmson chart: definitions under ids
/// issued in order of the events (tempo, stop, scrolling, sound files, picture files), the
/// objects at the pulses of the events in 4/4 measures, and the notes of the channels.
pub open spec fn events_read(value: Bmson, bms: Bms) -> bool {
    let res = value.info.resolution;
    &&& bpm_read(value.bpm_events@, res, bms.bpm)
    &&& stop_read(value.stop_events@, res, bms.stop)
    &&& scroll_read(value.scroll_events@, res, bms.scroll)
    &&& wav_read(value.sound_channels@, value.mine_channels@, value.key_channels@, res, bms.wav)
    &&& bmp_read(value.bga, res, bms.bmp)
}

/// The warnings of reading a bmson chart: one for each event or file past the last id (tempo,
/// stop, scrolling, sound files, picture files in turn), then one for each picture event
/// whose picture no file has.
pub open spec fn read_warnings(value: Bmson) -> Seq<BmsonToBmsWarning> {
    let sounds = wav_names(value.sound_channels@, value.mine_channels@, value.key_channels@);
    let pictures = layered_events(value.bga.bga_events@, value.bga.layer_events@, value.bga.poor_events@);
    repeat(BmsonToBmsWarning::BpmDefOutOfRange, overflow(value.bpm_events@.len() as int)) + repeat(
        BmsonToBmsWarning::StopDefOutOfRange,
        overflow(value.stop_events@.len() as int),
    ) + repeat(BmsonToBmsWarning::ScrollDefOutOfRange, overflow(value.scroll_events@.len() as int))
        + repeat(BmsonToBmsWarning::WavObjIdOutOfRange, overflow(sounds.len() as int)) + repeat(
        BmsonToBmsWarning::BgaHeaderObjIdOutOfRange,
        overflow(value.bga.bga_header@.len() as int),
    ) + repeat(
        BmsonToBmsWarning::BgaEventObjIdOutOfRange,
        bga_misses(value.bga.bga_header@, pictures, pictures.len() as int),
    )
}

impl Bms {
    /// Reads a bmson chart as a score, with the warnings of the conversion and of checking
    /// whether the score can be played (in the beat layout).
    #[verifier::spinoff_prover]
    pub fn from_bmson(value: Bmson) -> (r: BmsonToBmsOutput)
        requires
            0 < value.info.resolution,
            value.info.resolution * 4 <= u64::MAX,
        ensures
            info_read(value.info, r.bms),
            events_read(value, r.bms),
            r.warnings@ == read_warnings(value),
            r.playing_warnings@ == spec_playing_warnings::<KeyLayoutBeat>(r.bms),
            r.playing_errors@ == spec_playing_errors(r.bms),
    {
        let ghost v = value;
        let Bmson {
            version: _,
            info,
            lines: _,
            bpm_events,
            stop_events,
            sound_channels,
            bga,
            scroll_events,
            mine_channels,
            key_channels,
        } = value;
        let res = info.resolution;
        let mut bms = Bms::new();
        let mut warnings: Vec<BmsonToBmsWarning> = Vec::new();

        let sub_artist = if info.subartists.len() > 0 {
            Some(info.subartists[0].clone())
        } else {
            None
        };
        let rank = convert_judge_rank(info.judge_rank);
        let level = (info.level % 256) as u8;
        bms.music_info.title = Some(info.title);
        bms.music_info.subtitle = Some(info.subtitle);
        bms.music_info.artist = Some(info.artist);
        bms.music_info.sub_artist = sub_artist;
        bms.music_info.genre = Some(info.genre);
        bms.music_info.preview_music = info.preview_music;
        bms.metadata.play_level = Some(level);
        bms.judge.total = Some(info.total);
        bms.judge.rank = Some(JudgeLevel::OtherInt(rank));
        bms.sprite.back_bmp = info.back_image;
        bms.sprite.stage_file = info.eyecatch_image;
        bms.sprite.banner = info.banner_image;
        bms.bpm.bpm = Some(info.init_bpm);
        let length = u64_to_text(res);
        let _ = bms.section_len.section_len_changes.push(
            ObjTime::new(0, 0, 1).unwrap(),
            0,
            SectionLenChangeObj { track: Track(0), length: StringValue::new(length.as_str()) },
            Channel::SectionLen,
            &AlwaysUseNewer,
        );

        let (bpm_values, bpm_changes) = bpm_parts(&bpm_events, res);
        define_issued(&mut bms.bpm.bpm_defs, &bpm_values, &mut warnings, BmsonToBmsWarning::BpmDefOutOfRange);
        assert(bms.bpm.bpm_changes@ =~= Seq::<(ObjTime, u8, BpmChangeObj)>::empty());
        place_all(&mut bms.bpm.bpm_changes, bpm_changes, Channel::BpmChange);
        let ghost bpm_done = bms.bpm;
        assert(bpm_read(bpm_events@, res, bpm_done));

        convert_stops(&stop_events, res, &mut bms.stop, &mut warnings);
        let ghost stop_done = bms.stop;
        assert(stop_read(stop_events@, res, stop_done));

        let (rates, scroll_changes) = scroll_parts(&scroll_events, res);
        define_issued(&mut bms.scroll.scroll_defs, &rates, &mut warnings, BmsonToBmsWarning::ScrollDefOutOfRange);
        assert(bms.scroll.scrolling_factor_changes@ =~= Seq::<(ObjTime, u8, ScrollingFactorObj)>::empty());
        place_all(&mut bms.scroll.scrolling_factor_changes, scroll_changes, Channel::Scroll);
        let ghost scroll_done = bms.scroll;
        assert(scroll_read(scroll_events@, res, scroll_done));

        let (names, sounds) = wav_channels(&sound_channels, &mine_channels, &key_channels);
        define_issued(&mut bms.wav.wav_files, &names, &mut warnings, BmsonToBmsWarning::WavObjIdOutOfRange);
        push_channel_notes(&mut bms.wav.notes, &sounds, res);
        let ghost wav_done = bms.wav;
        assert(wav_read(sound_channels@, mine_channels@, key_channels@, res, wav_done));

        let Bga { bga_header, bga_events, layer_events, poor_events } = bga;
        let bmps = header_parts(&bga_header);
        define_issued(&mut bms.bmp.bmp_files, &bmps, &mut warnings, BmsonToBmsWarning::BgaHeaderObjIdOutOfRange);
        let changes = bga_items_of(&bga_header, &bga_events, &layer_events, &poor_events, res, &mut warnings);
        assert(bms.bmp.bga_changes@ =~= Seq::<(ObjTime, u8, BgaObj)>::empty());
        place_all(&mut bms.bmp.bga_changes, changes, Channel::BgaBase);

        let checked = BmsProcessor::check_playing::<KeyLayoutBeat>(&bms);
        proof {
            assert(bms.bpm == bpm_done);
            assert(bms.stop == stop_done);
            assert(bms.scroll == scroll_done);
            assert(bms.wav == wav_done);
            assert(bmp_read(v.bga, res, bms.bmp));
            assert(events_read(v, bms));
            assert(warnings@ =~= read_warnings(v));
        }
        BmsonToBmsOutput {
            bms,
            warnings,
            playing_warnings: checked.playing_warnings,
            playing_errors: checked.playing_errors,
        }
    }
}

} // verus!
