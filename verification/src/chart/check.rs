//! Validity checks of a score: references without definitions, and notes that cannot be
//! played as written, read through a key layout.
use crate::bms::command::{time_lt, time_same, ObjTime};
use crate::bms::layout::{KeyLayoutBeat, KeyLayoutMapper};
use crate::bms::model::{Bms, ObjIdMap, WavObj};
use crate::bms::objects::{BgaObj, Bmp};
use crate::bms::command::{ObjId, StringValue};
use crate::bms::parse::validity::{ValidityCheckOutput, ValidityInvalid, ValidityMissing};
use crate::chart::types::{Key, NoteKind, PlayerSide};
use vstd::prelude::*;

verus! {

/// Notes whose sound is not defined, in the order of the notes.
pub open spec fn missing_wavs(notes: Seq<WavObj>, wavs: ObjIdMap<String>) -> Seq<ValidityMissing>
    decreases notes.len(),
{
    if notes.len() == 0 {
        seq![]
    } else {
        let prev = missing_wavs(notes.drop_last(), wavs);
        if wavs.spec_get(notes.last().wav_id) is None {
            prev.push(ValidityMissing::WavForNote(notes.last().wav_id))
        } else {
            prev
        }
    }
}

/// Picture changes whose picture is not defined, in the order of the changes.
pub open spec fn missing_bmps(changes: Seq<(ObjTime, u8, BgaObj)>, bmps: ObjIdMap<Bmp>) -> Seq<
    ValidityMissing,
>
    decreases changes.len(),
{
    if changes.len() == 0 {
        seq![]
    } else {
        let prev = missing_bmps(changes.drop_last(), bmps);
        if bmps.spec_get(changes.last().2.id) is None {
            prev.push(ValidityMissing::BmpForBga(changes.last().2.id))
        } else {
            prev
        }
    }
}

/// The ids below `k` that are used but not defined, in increasing order, as findings of the
/// tempo kind (`bpm`) or of the stop kind.
pub open spec fn missing_defs(used: ObjIdMap<()>, defs: ObjIdMap<StringValue>, k: int, bpm: bool) -> Seq<
    ValidityMissing,
>
    decreases k,
{
    if k <= 0 {
        seq![]
    } else {
        let prev = missing_defs(used, defs, k - 1, bpm);
        if used.at(k - 1) is Some && defs.at(k - 1) is None {
            let id = ObjId::spec_from_value(k - 1);
            prev.push(
                if bpm {
                    ValidityMissing::BpmChangeDef(id)
                } else {
                    ValidityMissing::StopDef(id)
                },
            )
        } else {
            prev
        }
    }
}

/// The references of a score without definitions: notes, then picture changes, then tempo
/// changes and stops by increasing id.
pub open spec fn spec_missing(bms: Bms) -> Seq<ValidityMissing> {
    missing_wavs(bms.wav.notes@, bms.wav.wav_files) + missing_bmps(
        bms.bmp.bga_changes@,
        bms.bmp.bmp_files,
    ) + missing_defs(bms.bpm.bpm_change_ids_used, bms.bpm.bpm_defs, 3844, true) + missing_defs(
        bms.stop.stop_ids_used,
        bms.stop.stop_defs,
        3844,
        false,
    )
}

/// Whether no finding is about a background sound.
pub open spec fn no_bgm_finding(s: Seq<ValidityMissing>) -> bool {
    forall|i: int| 0 <= i < s.len() ==> !(#[trigger] s[i] is WavForBgm)
}

proof fn lemma_no_bgm_wavs(notes: Seq<WavObj>, wavs: ObjIdMap<String>)
    ensures
        no_bgm_finding(missing_wavs(notes, wavs)),
    decreases notes.len(),
{
    if notes.len() > 0 {
        lemma_no_bgm_wavs(notes.drop_last(), wavs);
    }
}

proof fn lemma_no_bgm_bmps(changes: Seq<(ObjTime, u8, BgaObj)>, bmps: ObjIdMap<Bmp>)
    ensures
        no_bgm_finding(missing_bmps(changes, bmps)),
    decreases changes.len(),
{
    if changes.len() > 0 {
        lemma_no_bgm_bmps(changes.drop_last(), bmps);
    }
}

proof fn lemma_no_bgm_defs(used: ObjIdMap<()>, defs: ObjIdMap<StringValue>, k: int, bpm: bool)
    ensures
        no_bgm_finding(missing_defs(used, defs, k, bpm)),
    decreases k,
{
    if k > 0 {
        lemma_no_bgm_defs(used, defs, k - 1, bpm);
    }
}

/// The check of a score never reports a missing background sound: no finding is
/// `WavForBgm`, whatever the score.
pub proof fn lemma_no_missing_bgm(bms: Bms)
    ensures
        no_bgm_finding(spec_missing(bms)),
{
    let a = missing_wavs(bms.wav.notes@, bms.wav.wav_files);
    let b = missing_bmps(bms.bmp.bga_changes@, bms.bmp.bmp_files);
    let c = missing_defs(bms.bpm.bpm_change_ids_used, bms.bpm.bpm_defs, 3844, true);
    let d = missing_defs(bms.stop.stop_ids_used, bms.stop.stop_defs, 3844, false);
    lemma_no_bgm_wavs(bms.wav.notes@, bms.wav.wav_files);
    lemma_no_bgm_bmps(bms.bmp.bga_changes@, bms.bmp.bmp_files);
    lemma_no_bgm_defs(bms.bpm.bpm_change_ids_used, bms.bpm.bpm_defs, 3844, true);
    lemma_no_bgm_defs(bms.stop.stop_ids_used, bms.stop.stop_defs, 3844, false);
    let s = spec_missing(bms);
    assert(s == a + b + c + d);
    assert forall|i: int| 0 <= i < s.len() implies !(#[trigger] s[i] is WavForBgm) by {
        if i < a.len() {
            assert(s[i] == a[i]);
        } else if i < a.len() + b.len() {
            assert(s[i] == b[i - a.len()]);
        } else if i < a.len() + b.len() + c.len() {
            assert(s[i] == c[i - a.len() - b.len()]);
        } else {
            assert(s[i] == d[i - a.len() - b.len() - c.len()]);
        }
    }
}

/// Finds the references without definitions.
pub fn check_missing(bms: &Bms) -> (r: Vec<ValidityMissing>)
    ensures
        r@ == spec_missing(*bms),
{
    let notes = bms.wav.notes.all_notes();
    let mut a: Vec<ValidityMissing> = Vec::new();
    let mut i: usize = 0;
    while i < notes.len()
        invariant
            i <= notes@.len(),
            notes@ == bms.wav.notes@,
            a@ == missing_wavs(notes@.take(i as int), bms.wav.wav_files),
        decreases notes@.len() - i,
    {
        assert(notes@.take(i + 1).drop_last() =~= notes@.take(i as int));
        let id = notes[i].wav_id;
        if !bms.wav.wav_files.contains_key(&id) {
            a.push(ValidityMissing::WavForNote(id));
        }
        i += 1;
    }
    assert(notes@.take(notes@.len() as int) =~= notes@);
    let changes = bms.bmp.bga_changes.entries();
    let mut b: Vec<ValidityMissing> = Vec::new();
    let mut j: usize = 0;
    while j < changes.len()
        invariant
            j <= changes@.len(),
            changes@ == bms.bmp.bga_changes@,
            b@ == missing_bmps(changes@.take(j as int), bms.bmp.bmp_files),
        decreases changes@.len() - j,
    {
        assert(changes@.take(j + 1).drop_last() =~= changes@.take(j as int));
        let id = changes[j].2.id;
        if !bms.bmp.bmp_files.contains_key(&id) {
            b.push(ValidityMissing::BmpForBga(id));
        }
        j += 1;
    }
    assert(changes@.take(changes@.len() as int) =~= changes@);
    let c = missing_defs_of(&bms.bpm.bpm_change_ids_used, &bms.bpm.bpm_defs, true);
    let d = missing_defs_of(&bms.stop.stop_ids_used, &bms.stop.stop_defs, false);
    let mut out = a;
    append_missing(&mut out, &b);
    append_missing(&mut out, &c);
    append_missing(&mut out, &d);
    out
}

/// Appends the findings of `more`.
fn append_missing(out: &mut Vec<ValidityMissing>, more: &Vec<ValidityMissing>)
    ensures
        final(out)@ == old(out)@ + more@,
{
    let mut i: usize = 0;
    while i < more.len()
        invariant
            i <= more@.len(),
            out@ == old(out)@ + more@.take(i as int),
        decreases more@.len() - i,
    {
        out.push(more[i]);
        i += 1;
        assert(out@ =~= old(out)@ + more@.take(i as int));
    }
    assert(more@.take(more@.len() as int) =~= more@);
}

/// The used ids without definitions, by increasing id.
fn missing_defs_of(used: &ObjIdMap<()>, defs: &ObjIdMap<StringValue>, bpm: bool) -> (r: Vec<
    ValidityMissing,
>)
    ensures
        r@ == missing_defs(*used, *defs, 3844, bpm),
{
    let mut r: Vec<ValidityMissing> = Vec::new();
    let mut k: u16 = 0;
    while k < 3844
        invariant
            k <= 3844,
            r@ == missing_defs(*used, *defs, k as int, bpm),
        decreases 3844 - k,
    {
        if used.get_at(k).is_some() && defs.get_at(k).is_none() {
            let id = ObjId::from_u16(k).unwrap();
            if bpm {
                r.push(ValidityMissing::BpmChangeDef(id));
            } else {
                r.push(ValidityMissing::StopDef(id));
            }
        }
        k += 1;
    }
    r
}

/// Whether a note lies on a lane of the given kind.
pub open spec fn kind_is<T: KeyLayoutMapper>(n: WavObj, k: NoteKind) -> bool {
    match T::spec_from_channel_id(n.channel_id) {
        Some(m) => m.spec_kind() == k,
        None => false,
    }
}

/// The player side of the lane of a note.
pub open spec fn side_of<T: KeyLayoutMapper>(n: WavObj) -> PlayerSide {
    T::spec_from_channel_id(n.channel_id)->0.spec_side()
}

/// Playable notes in track 000, in the order of the notes.
pub open spec fn zero_track<T: KeyLayoutMapper>(notes: Seq<WavObj>) -> Seq<ValidityInvalid>
    decreases notes.len(),
{
    if notes.len() == 0 {
        seq![]
    } else {
        let prev = zero_track::<T>(notes.drop_last());
        let n = notes.last();
        match T::spec_from_channel_id(n.channel_id) {
            Some(m) => if m.spec_kind().spec_is_playable() && n.offset.track_of() == 0 {
                prev.push(
                    ValidityInvalid::PlayableNoteInTrackZero {
                        side: m.spec_side(),
                        key: m.spec_key(),
                        time: n.offset,
                    },
                )
            } else {
                prev
            },
            None => prev,
        }
    }
}

/// The keys of the lanes of the notes, in the order they first occur.
pub open spec fn lane_keys<T: KeyLayoutMapper>(notes: Seq<WavObj>) -> Seq<Key>
    decreases notes.len(),
{
    if notes.len() == 0 {
        seq![]
    } else {
        let prev = lane_keys::<T>(notes.drop_last());
        match T::spec_from_channel_id(notes.last().channel_id) {
            Some(m) => if prev.contains(m.spec_key()) {
                prev
            } else {
                prev.push(m.spec_key())
            },
            None => prev,
        }
    }
}

/// The notes on lanes of `key`, of either side, in the order of the notes.
pub open spec fn lane_notes<T: KeyLayoutMapper>(notes: Seq<WavObj>, key: Key) -> Seq<WavObj>
    decreases notes.len(),
{
    if notes.len() == 0 {
        seq![]
    } else {
        let prev = lane_notes::<T>(notes.drop_last(), key);
        match T::spec_from_channel_id(notes.last().channel_id) {
            Some(m) => if m.spec_key() == key {
                prev.push(notes.last())
            } else {
                prev
            },
            None => prev,
        }
    }
}

/// Where a note at `t` goes in notes sorted by position: before the first later note.
pub open spec fn insert_pos(s: Seq<WavObj>, t: ObjTime, i: int) -> int
    decreases s.len() - i,
{
    if i >= s.len() {
        s.len() as int
    } else if time_lt(t, s[i].offset) {
        i
    } else {
        insert_pos(s, t, i + 1)
    }
}

/// The notes sorted by position, notes at one position keeping their order.
pub open spec fn sort_by_time(s: Seq<WavObj>) -> Seq<WavObj>
    decreases s.len(),
{
    if s.len() == 0 {
        seq![]
    } else {
        let p = sort_by_time(s.drop_last());
        p.insert(insert_pos(p, s.last().offset, 0), s.last())
    }
}

/// The positions of the long-note ends among the notes, in their order.
pub open spec fn long_times<T: KeyLayoutMapper>(s: Seq<WavObj>) -> Seq<ObjTime>
    decreases s.len(),
{
    if s.len() == 0 {
        seq![]
    } else {
        let prev = long_times::<T>(s.drop_last());
        if kind_is::<T>(s.last(), NoteKind::Long) {
            prev.push(s.last().offset)
        } else {
            prev
        }
    }
}

/// The first index from `i` of a position not before `t`.
pub open spec fn part_point(l: Seq<ObjTime>, t: ObjTime, i: int) -> int
    decreases l.len() - i,
{
    if i >= l.len() {
        l.len() as int
    } else if !time_lt(l[i], t) {
        i
    } else {
        part_point(l, t, i + 1)
    }
}

/// The long note (start, end) that a position falls into, the long-note ends `l` being
/// paired in turn: at a start it is that note; strictly between a start and its end it is
/// that note; at an end, none.
pub open spec fn ln_overlap(l: Seq<ObjTime>, t: ObjTime) -> Option<(ObjTime, ObjTime)> {
    let pos = part_point(l, t, 0);
    if pos < l.len() && time_same(l[pos], t) {
        if pos % 2 == 0 && pos + 1 < l.len() {
            Some((t, l[pos + 1]))
        } else {
            None
        }
    } else if pos % 2 == 1 && pos < l.len() {
        Some((l[pos - 1], l[pos]))
    } else {
        None
    }
}

/// Whether a visible note of `s` lies at `t`.
pub open spec fn has_visible_at<T: KeyLayoutMapper>(s: Seq<WavObj>, t: ObjTime) -> bool {
    exists|j: int|
        0 <= j < s.len() && kind_is::<T>(s[j], NoteKind::Visible) && time_same(
            #[trigger] s[j].offset,
            t,
        )
}

/// Visible notes at the position of an earlier visible note of the sorted lane.
pub open spec fn single_dups<T: KeyLayoutMapper>(s: Seq<WavObj>, key: Key) -> Seq<ValidityInvalid>
    decreases s.len(),
{
    if s.len() == 0 {
        seq![]
    } else {
        let prev = single_dups::<T>(s.drop_last(), key);
        let n = s.last();
        if kind_is::<T>(n, NoteKind::Visible) && has_visible_at::<T>(s.drop_last(), n.offset) {
            prev.push(
                ValidityInvalid::OverlapVisibleSingleWithSingle {
                    side: side_of::<T>(n),
                    key,
                    time: n.offset,
                },
            )
        } else {
            prev
        }
    }
}

/// Landmines of `s` at the position of a visible note of the lane `full`.
pub open spec fn mine_singles<T: KeyLayoutMapper>(s: Seq<WavObj>, full: Seq<WavObj>, key: Key) -> Seq<
    ValidityInvalid,
>
    decreases s.len(),
{
    if s.len() == 0 {
        seq![]
    } else {
        let prev = mine_singles::<T>(s.drop_last(), full, key);
        let n = s.last();
        if kind_is::<T>(n, NoteKind::Landmine) && has_visible_at::<T>(full, n.offset) {
            prev.push(
                ValidityInvalid::OverlapLandmineWithSingle {
                    side: side_of::<T>(n),
                    key,
                    time: n.offset,
                },
            )
        } else {
            prev
        }
    }
}

/// Visible notes of `s` inside a long note of the ends `l`.
pub open spec fn ln_singles<T: KeyLayoutMapper>(s: Seq<WavObj>, l: Seq<ObjTime>, key: Key) -> Seq<
    ValidityInvalid,
>
    decreases s.len(),
{
    if s.len() == 0 {
        seq![]
    } else {
        let prev = ln_singles::<T>(s.drop_last(), l, key);
        let n = s.last();
        if kind_is::<T>(n, NoteKind::Visible) {
            match ln_overlap(l, n.offset) {
                Some((a, b)) => prev.push(
                    ValidityInvalid::OverlapVisibleSingleWithLong {
                        side: side_of::<T>(n),
                        key,
                        time: n.offset,
                        ln_start: a,
                        ln_end: b,
                    },
                ),
                None => prev,
            }
        } else {
            prev
        }
    }
}

/// Whether a landmine of `s` falls into the long note (`a`, `b`).
pub open spec fn mine_in_ln<T: KeyLayoutMapper>(s: Seq<WavObj>, l: Seq<ObjTime>, a: ObjTime, b: ObjTime) -> bool {
    exists|j: int|
        #![trigger s[j]]
        0 <= j < s.len() && kind_is::<T>(s[j], NoteKind::Landmine) && match ln_overlap(
            l,
            s[j].offset,
        ) {
            Some((a2, b2)) => time_same(a2, a) && time_same(b2, b),
            None => false,
        }
}

/// Long notes with a landmine inside, each reported at its first landmine.
pub open spec fn mine_lns<T: KeyLayoutMapper>(s: Seq<WavObj>, l: Seq<ObjTime>, key: Key) -> Seq<
    ValidityInvalid,
>
    decreases s.len(),
{
    if s.len() == 0 {
        seq![]
    } else {
        let prev = mine_lns::<T>(s.drop_last(), l, key);
        let n = s.last();
        if kind_is::<T>(n, NoteKind::Landmine) {
            match ln_overlap(l, n.offset) {
                Some((a, b)) => if mine_in_ln::<T>(s.drop_last(), l, a, b) {
                    prev
                } else {
                    prev.push(
                        ValidityInvalid::OverlapsLandmineLongAtStart {
                            side: side_of::<T>(n),
                            key,
                            ln_start: a,
                            ln_end: b,
                        },
                    )
                },
                None => prev,
            }
        } else {
            prev
        }
    }
}

/// The findings of one lane.
pub open spec fn lane_output<T: KeyLayoutMapper>(notes: Seq<WavObj>, key: Key) -> Seq<
    ValidityInvalid,
> {
    let s = sort_by_time(lane_notes::<T>(notes, key));
    let l = long_times::<T>(s);
    single_dups::<T>(s, key) + mine_singles::<T>(s, s, key) + ln_singles::<T>(s, l, key)
        + mine_lns::<T>(s, l, key)
}

/// The findings of the lanes of the keys `ks` in turn.
pub open spec fn lanes_output<T: KeyLayoutMapper>(notes: Seq<WavObj>, ks: Seq<Key>) -> Seq<
    ValidityInvalid,
>
    decreases ks.len(),
{
    if ks.len() == 0 {
        seq![]
    } else {
        lanes_output::<T>(notes, ks.drop_last()) + lane_output::<T>(notes, ks.last())
    }
}

/// The arrangements that cannot be played: playable notes in track 000 in the order of the
/// notes, then lane by lane (in the order the lanes first occur) doubled visible notes,
/// landmines on visible notes, visible notes inside long notes and long notes with a
/// landmine inside.
pub open spec fn spec_invalid<T: KeyLayoutMapper>(notes: Seq<WavObj>) -> Seq<ValidityInvalid> {
    zero_track::<T>(notes) + lanes_output::<T>(notes, lane_keys::<T>(notes))
}

/// Whether a note lies on a lane of the given kind.
fn kind_matches<T: KeyLayoutMapper>(n: &WavObj, k: NoteKind) -> (r: bool)
    ensures
        r == kind_is::<T>(*n, k),
{
    match T::from_channel_id(n.channel_id) {
        Some(m) => m.kind() == k,
        None => false,
    }
}

/// The notes on lanes of `key`.
fn lane_notes_of<T: KeyLayoutMapper>(notes: &[WavObj], key: Key) -> (r: Vec<WavObj>)
    ensures
        r@ == lane_notes::<T>(notes@, key),
{
    let mut r: Vec<WavObj> = Vec::new();
    let mut i: usize = 0;
    while i < notes.len()
        invariant
            i <= notes@.len(),
            r@ == lane_notes::<T>(notes@.take(i as int), key),
        decreases notes@.len() - i,
    {
        assert(notes@.take(i + 1).drop_last() =~= notes@.take(i as int));
        match T::from_channel_id(notes[i].channel_id) {
            Some(m) => {
                if m.key() == key {
                    r.push(notes[i]);
                }
            },
            None => {},
        }
        i += 1;
    }
    assert(notes@.take(notes@.len() as int) =~= notes@);
    r
}

/// Where a note at `t` goes in sorted notes.
fn find_insert_pos(s: &Vec<WavObj>, t: &ObjTime) -> (r: usize)
    ensures
        r == insert_pos(s@, *t, 0),
{
    let mut i: usize = 0;
    while i < s.len()
        invariant
            i <= s@.len(),
            insert_pos(s@, *t, 0) == insert_pos(s@, *t, i as int),
        decreases s@.len() - i,
    {
        if t.lt(&s[i].offset) {
            return i;
        }
        i += 1;
    }
    i
}

/// Sorts notes by position, keeping the order of notes at one position.
fn sort_notes(s: &Vec<WavObj>) -> (r: Vec<WavObj>)
    ensures
        r@ == sort_by_time(s@),
{
    let mut r: Vec<WavObj> = Vec::new();
    let mut i: usize = 0;
    while i < s.len()
        invariant
            i <= s@.len(),
            r@ == sort_by_time(s@.take(i as int)),
        decreases s@.len() - i,
    {
        assert(s@.take(i + 1).drop_last() =~= s@.take(i as int));
        let x = s[i];
        let p = find_insert_pos(&r, &x.offset);
        proof {
            lemma_insert_pos_bound(r@, x.offset, 0);
        }
        r.insert(p, x);
        i += 1;
    }
    assert(s@.take(s@.len() as int) =~= s@);
    r
}

proof fn lemma_insert_pos_bound(s: Seq<WavObj>, t: ObjTime, i: int)
    requires
        0 <= i,
    ensures
        i <= s.len() ==> i <= insert_pos(s, t, i) <= s.len(),
        i > s.len() ==> insert_pos(s, t, i) == s.len(),
    decreases s.len() - i,
{
    if i < s.len() {
        lemma_insert_pos_bound(s, t, i + 1);
    }
}

proof fn lemma_part_point_bound(l: Seq<ObjTime>, t: ObjTime, i: int)
    requires
        0 <= i <= l.len(),
    ensures
        i <= part_point(l, t, i) <= l.len(),
        forall|j: int| i <= j < part_point(l, t, i) ==> time_lt(#[trigger] l[j], t),
    decreases l.len() - i,
{
    if i < l.len() {
        lemma_part_point_bound(l, t, i + 1);
    }
}

/// The positions of the long-note ends.
fn long_times_of<T: KeyLayoutMapper>(s: &Vec<WavObj>) -> (r: Vec<ObjTime>)
    ensures
        r@ == long_times::<T>(s@),
{
    let mut r: Vec<ObjTime> = Vec::new();
    let mut i: usize = 0;
    while i < s.len()
        invariant
            i <= s@.len(),
            r@ == long_times::<T>(s@.take(i as int)),
        decreases s@.len() - i,
    {
        assert(s@.take(i + 1).drop_last() =~= s@.take(i as int));
        if kind_matches::<T>(&s[i], NoteKind::Long) {
            r.push(s[i].offset);
        }
        i += 1;
    }
    assert(s@.take(s@.len() as int) =~= s@);
    r
}

/// The long note that a position falls into.
fn overlap_of(l: &Vec<ObjTime>, t: &ObjTime) -> (r: Option<(ObjTime, ObjTime)>)
    ensures
        r == ln_overlap(l@, *t),
{
    let mut pos: usize = 0;
    while pos < l.len() && l[pos].lt(t)
        invariant
            pos <= l@.len(),
            part_point(l@, *t, 0) == part_point(l@, *t, pos as int),
        decreases l@.len() - pos,
    {
        pos += 1;
    }
    assert(pos == part_point(l@, *t, 0));
    if pos < l.len() && l[pos].same(t) {
        if pos % 2 == 0 && pos + 1 < l.len() {
            return Some((*t, l[pos + 1]));
        }
        return None;
    }
    if pos % 2 == 1 && pos < l.len() {
        return Some((l[pos - 1], l[pos]));
    }
    None
}

/// Whether a visible note of `s[..upto]` lies at `t`.
fn visible_at<T: KeyLayoutMapper>(s: &Vec<WavObj>, upto: usize, t: &ObjTime) -> (r: bool)
    requires
        upto <= s@.len(),
    ensures
        r == has_visible_at::<T>(s@.take(upto as int), *t),
{
    let ghost p = s@.take(upto as int);
    let mut j: usize = 0;
    while j < upto
        invariant
            j <= upto <= s@.len(),
            p == s@.take(upto as int),
            forall|k: int|
                0 <= k < j ==> !(kind_is::<T>(p[k], NoteKind::Visible) && time_same(
                    #[trigger] p[k].offset,
                    *t,
                )),
        decreases upto - j,
    {
        if kind_matches::<T>(&s[j], NoteKind::Visible) && s[j].offset.same(t) {
            assert(p[j as int] == s@[j as int]);
            assert(time_same(p[j as int].offset, *t));
            return true;
        }
        assert(p[j as int] == s@[j as int]);
        j += 1;
    }
    false
}

/// Whether a landmine of `s[..upto]` falls into the long note (`a`, `b`).
fn mine_warned<T: KeyLayoutMapper>(s: &Vec<WavObj>, upto: usize, l: &Vec<ObjTime>, a: &ObjTime, b: &ObjTime) -> (r: bool)
    requires
        upto <= s@.len(),
    ensures
        r == mine_in_ln::<T>(s@.take(upto as int), l@, *a, *b),
{
    let ghost p = s@.take(upto as int);
    let mut j: usize = 0;
    while j < upto
        invariant
            j <= upto <= s@.len(),
            p == s@.take(upto as int),
            forall|k: int|
                #![trigger p[k]]
                0 <= k < j ==> !(kind_is::<T>(p[k], NoteKind::Landmine) && match ln_overlap(
                    l@,
                    p[k].offset,
                ) {
                    Some((a2, b2)) => time_same(a2, *a) && time_same(b2, *b),
                    None => false,
                }),
        decreases upto - j,
    {
        assert(p[j as int] == s@[j as int]);
        if kind_matches::<T>(&s[j], NoteKind::Landmine) {
            match overlap_of(l, &s[j].offset) {
                Some((a2, b2)) => {
                    if a2.same(a) && b2.same(b) {
                        return true;
                    }
                },
                None => {},
            }
        }
        j += 1;
    }
    false
}

/// The findings of the lane of `key`.
fn check_lane<T: KeyLayoutMapper>(notes: &[WavObj], key: Key) -> (r: Vec<ValidityInvalid>)
    ensures
        r@ == lane_output::<T>(notes@, key),
{
    let lane = lane_notes_of::<T>(notes, key);
    let s = sort_notes(&lane);
    let l = long_times_of::<T>(&s);
    let mut out: Vec<ValidityInvalid> = Vec::new();
    let mut i: usize = 0;
    while i < s.len()
        invariant
            i <= s@.len(),
            out@ == single_dups::<T>(s@.take(i as int), key),
        decreases s@.len() - i,
    {
        assert(s@.take(i + 1).drop_last() =~= s@.take(i as int));
        let n = s[i];
        if kind_matches::<T>(&n, NoteKind::Visible) && visible_at::<T>(&s, i, &n.offset) {
            let side = match T::from_channel_id(n.channel_id) {
                Some(m) => m.side(),
                None => PlayerSide::Player1,
            };
            out.push(ValidityInvalid::OverlapVisibleSingleWithSingle { side, key, time: n.offset });
        }
        i += 1;
    }
    assert(s@.take(s@.len() as int) =~= s@);
    let ghost part1 = out@;
    let mut i: usize = 0;
    while i < s.len()
        invariant
            i <= s@.len(),
            out@ == part1 + mine_singles::<T>(s@.take(i as int), s@, key),
        decreases s@.len() - i,
    {
        assert(s@.take(i + 1).drop_last() =~= s@.take(i as int));
        let n = s[i];
        if kind_matches::<T>(&n, NoteKind::Landmine) && visible_at::<T>(&s, s.len(), &n.offset) {
            let side = match T::from_channel_id(n.channel_id) {
                Some(m) => m.side(),
                None => PlayerSide::Player1,
            };
            out.push(ValidityInvalid::OverlapLandmineWithSingle { side, key, time: n.offset });
        }
        i += 1;
        assert(s@.take(s@.len() as int) =~= s@);
    }
    assert(s@.take(s@.len() as int) =~= s@);
    let ghost part2 = out@;
    let mut i: usize = 0;
    while i < s.len()
        invariant
            i <= s@.len(),
            out@ == part2 + ln_singles::<T>(s@.take(i as int), l@, key),
        decreases s@.len() - i,
    {
        assert(s@.take(i + 1).drop_last() =~= s@.take(i as int));
        let n = s[i];
        if kind_matches::<T>(&n, NoteKind::Visible) {
            match overlap_of(&l, &n.offset) {
                Some((a, b)) => {
                    let side = match T::from_channel_id(n.channel_id) {
                        Some(m) => m.side(),
                        None => PlayerSide::Player1,
                    };
                    out.push(
                        ValidityInvalid::OverlapVisibleSingleWithLong {
                            side,
                            key,
                            time: n.offset,
                            ln_start: a,
                            ln_end: b,
                        },
                    );
                },
                None => {},
            }
        }
        i += 1;
    }
    assert(s@.take(s@.len() as int) =~= s@);
    let ghost part3 = out@;
    let mut i: usize = 0;
    while i < s.len()
        invariant
            i <= s@.len(),
            out@ == part3 + mine_lns::<T>(s@.take(i as int), l@, key),
        decreases s@.len() - i,
    {
        assert(s@.take(i + 1).drop_last() =~= s@.take(i as int));
        let n = s[i];
        if kind_matches::<T>(&n, NoteKind::Landmine) {
            match overlap_of(&l, &n.offset) {
                Some((a, b)) => {
                    if !mine_warned::<T>(&s, i, &l, &a, &b) {
                        let side = match T::from_channel_id(n.channel_id) {
                            Some(m) => m.side(),
                            None => PlayerSide::Player1,
                        };
                        out.push(
                            ValidityInvalid::OverlapsLandmineLongAtStart {
                                side,
                                key,
                                ln_start: a,
                                ln_end: b,
                            },
                        );
                    }
                },
                None => {},
            }
        }
        i += 1;
    }
    assert(s@.take(s@.len() as int) =~= s@);
    out
}

/// Finds the arrangements of notes that cannot be played, reading lanes with `T`.
pub fn check_invalid<T: KeyLayoutMapper>(bms: &Bms) -> (r: Vec<ValidityInvalid>)
    ensures
        r@ == spec_invalid::<T>(bms.wav.notes@),
{
    let notes = bms.wav.notes.all_notes();
    let mut out: Vec<ValidityInvalid> = Vec::new();
    let mut keys: Vec<Key> = Vec::new();
    let mut i: usize = 0;
    while i < notes.len()
        invariant
            i <= notes@.len(),
            out@ == zero_track::<T>(notes@.take(i as int)),
            keys@ == lane_keys::<T>(notes@.take(i as int)),
        decreases notes@.len() - i,
    {
        assert(notes@.take(i + 1).drop_last() =~= notes@.take(i as int));
        let n = notes[i];
        match T::from_channel_id(n.channel_id) {
            Some(m) => {
                if m.kind().is_playable() && n.offset.track().0 == 0 {
                    out.push(
                        ValidityInvalid::PlayableNoteInTrackZero {
                            side: m.side(),
                            key: m.key(),
                            time: n.offset,
                        },
                    );
                }
                let k = m.key();
                if !contains_key_of(&keys, k) {
                    keys.push(k);
                }
            },
            None => {},
        }
        i += 1;
    }
    assert(notes@.take(notes@.len() as int) =~= notes@);
    let ghost zero = out@;
    let mut j: usize = 0;
    while j < keys.len()
        invariant
            j <= keys@.len(),
            out@ == zero + lanes_output::<T>(notes@, keys@.take(j as int)),
        decreases keys@.len() - j,
    {
        assert(keys@.take(j + 1).drop_last() =~= keys@.take(j as int));
        let lane = check_lane::<T>(notes, keys[j]);
        let mut q: usize = 0;
        let ghost before = out@;
        while q < lane.len()
            invariant
                q <= lane@.len(),
                out@ == before + lane@.take(q as int),
            decreases lane@.len() - q,
        {
            out.push(lane[q]);
            q += 1;
            assert(out@ =~= before + lane@.take(q as int));
        }
        assert(lane@.take(lane@.len() as int) =~= lane@);
        j += 1;
        assert(out@ =~= zero + lanes_output::<T>(notes@, keys@.take(j as int)));
    }
    assert(keys@.take(keys@.len() as int) =~= keys@);
    out
}

/// Whether `keys` holds `k`.
fn contains_key_of(keys: &Vec<Key>, k: Key) -> (r: bool)
    ensures
        r == keys@.contains(k),
{
    let mut i: usize = 0;
    while i < keys.len()
        invariant
            i <= keys@.len(),
            forall|j: int| 0 <= j < i ==> keys@[j] != k,
        decreases keys@.len() - i,
    {
        if keys[i] == k {
            assert(keys@[i as int] == k);
            return true;
        }
        i += 1;
    }
    false
}

/// Checks a score for references without definitions and, reading lanes with the beat
/// layout, for notes that cannot be played as written.
pub fn check_bms_validity(bms: &Bms) -> (r: ValidityCheckOutput)
    ensures
        r.missing@ == spec_missing(*bms),
        r.invalid@ == spec_invalid::<KeyLayoutBeat>(bms.wav.notes@),
{
    let missing = check_missing(bms);
    let invalid = check_invalid::<KeyLayoutBeat>(bms);
    ValidityCheckOutput { missing, invalid }
}

} // verus!
