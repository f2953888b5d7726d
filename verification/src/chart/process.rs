//! From a parsed score to what a player needs: checks for play, the notes of each use, and
//! the validated values and resources of a chart.
use crate::bms::command::{time_le, ObjId, ObjTime, StringValue};
use crate::bms::error::{PlayingCheckOutput, PlayingError, PlayingWarning};
use crate::bms::layout::KeyLayoutMapper;
use crate::bms::model::{Bms, Notes, ObjIdMap, WavObj};
use crate::bms::command::NoteChannelId;
use crate::bms::parse::validity::ValidityCheckOutput;
use crate::chart::check::{check_invalid, check_missing, spec_invalid, spec_missing};
use crate::chart::types::{Key, NoteKind, PlayerSide};
use crate::bmson::to_bmson::{earliest_after, next_on_channel};
use crate::text::owned;
use crate::number::{fin_f64_check, fin_f64_error, non_negative_f64_check, non_negative_f64_error, positive_f64_check, positive_f64_error};
use vstd::prelude::*;

verus! {

/// The kinds of numeric definitions that a chart validates.
#[derive(Debug, Clone, Copy, PartialEq, Eq, Hash, Structural)]
pub enum DefKind {
    /// `#BPMxx`: a positive tempo.
    Bpm,
    /// `#STOPxx`: a non-negative length.
    Stop,
    /// `#SPEEDxx`: a positive factor.
    Speed,
    /// `#SCROLLxx`: a finite factor.
    Scroll,
    /// `#SEEKxx`: a finite position.
    Seek,
}

/// Why the text of a definition of the kind is refused.
pub open spec fn def_error(kind: DefKind, s: Seq<char>) -> Option<Seq<char>> {
    match kind {
        DefKind::Bpm | DefKind::Speed => positive_f64_error(s),
        DefKind::Stop => non_negative_f64_error(s),
        DefKind::Scroll | DefKind::Seek => fin_f64_error(s),
    }
}

/// Whether `e` is the error of the definition `raw` of `id`, refused with the text `error`.
pub open spec fn is_def_error(e: PlayingError, kind: DefKind, id: ObjId, raw: Seq<char>, error: Seq<char>) -> bool {
    match (kind, e) {
        (DefKind::Bpm, PlayingError::InvalidBpm { raw: r, error: t }) => r@ == raw && t@ == error,
        (DefKind::Stop, PlayingError::InvalidStop { obj_id, raw: r, error: t }) => obj_id == id
            && r@ == raw && t@ == error,
        (DefKind::Speed, PlayingError::InvalidSpeed { obj_id, raw: r, error: t }) => obj_id == id
            && r@ == raw && t@ == error,
        (DefKind::Scroll, PlayingError::InvalidScroll { obj_id, raw: r, error: t }) => obj_id == id
            && r@ == raw && t@ == error,
        (DefKind::Seek, PlayingError::InvalidSeek { obj_id, raw: r, error: t }) => obj_id == id
            && r@ == raw && t@ == error,
        _ => false,
    }
}

/// The first id below `k`, by increasing number, whose definition is refused.
pub open spec fn first_bad_def(defs: ObjIdMap<StringValue>, kind: DefKind, k: int) -> Option<int>
    decreases k,
{
    if k <= 0 {
        None
    } else {
        match first_bad_def(defs, kind, k - 1) {
            Some(i) => Some(i),
            None => match defs.at(k - 1) {
                Some(v) => if def_error(kind, v.text()) is Some {
                    Some(k - 1)
                } else {
                    None
                },
                None => None,
            },
        }
    }
}

/// Checks the text of a definition of the kind.
fn def_check(kind: DefKind, s: &str) -> (r: Option<String>)
    ensures
        match r {
            Some(t) => def_error(kind, s@) == Some(t@),
            None => def_error(kind, s@) is None,
        },
{
    match kind {
        DefKind::Bpm | DefKind::Speed => positive_f64_check(s),
        DefKind::Stop => non_negative_f64_check(s),
        DefKind::Scroll | DefKind::Seek => fin_f64_check(s),
    }
}

/// The error of the first refused definition, by increasing id.
pub fn first_def_error(defs: &ObjIdMap<StringValue>, kind: DefKind) -> (r: Option<PlayingError>)
    ensures
        match first_bad_def(*defs, kind, 3844) {
            None => r is None,
            Some(i) => r matches Some(e) && is_def_error(
                e,
                kind,
                ObjId::spec_from_value(i),
                defs.at(i)->0.text(),
                def_error(kind, defs.at(i)->0.text())->0,
            ),
        },
{
    let mut k: u16 = 0;
    while k < 3844
        invariant
            k <= 3844,
            first_bad_def(*defs, kind, k as int) is None,
        decreases 3844 - k,
    {
        match defs.get_at(k) {
            Some(v) => {
                match def_check(kind, v.raw()) {
                    Some(error) => {
                        let id = ObjId::from_u16(k).unwrap();
                        let raw = owned(v.raw());
                        proof {
                            lemma_first_bad_def_stays(*defs, kind, k as int + 1, 3844);
                        }
                        let e = match kind {
                            DefKind::Bpm => PlayingError::InvalidBpm { raw, error },
                            DefKind::Stop => PlayingError::InvalidStop { obj_id: id, raw, error },
                            DefKind::Speed => PlayingError::InvalidSpeed { obj_id: id, raw, error },
                            DefKind::Scroll => PlayingError::InvalidScroll { obj_id: id, raw, error },
                            DefKind::Seek => PlayingError::InvalidSeek { obj_id: id, raw, error },
                        };
                        return Some(e);
                    },
                    None => {},
                }
            },
            None => {},
        }
        k += 1;
    }
    None
}

/// Once found, the first refused definition stays the first for any larger bound.
proof fn lemma_first_bad_def_stays(defs: ObjIdMap<StringValue>, kind: DefKind, k: int, m: int)
    requires
        first_bad_def(defs, kind, k) is Some,
        k <= m,
    ensures
        first_bad_def(defs, kind, m) == first_bad_def(defs, kind, k),
    decreases m - k,
{
    if k < m {
        lemma_first_bad_def_stays(defs, kind, k + 1, m);
    }
}

/// What a chart is made of beside its timed events: the starting tempo and the resources by
/// id number.
#[derive(Debug, Clone, PartialEq, Eq)]
pub struct Chart {
    /// The tempo at the start, as written (`120` when the score gives none).
    pub init_bpm: StringValue,
    /// The sound files by the number of their id.
    pub wav_files: Vec<(u16, String)>,
    /// The image files by the number of their id.
    pub bmp_files: Vec<(u16, String)>,
}

/// The first error among the definitions of a score: tempo, stop, spacing, scrolling and
/// seek definitions in turn, each by increasing id.
pub open spec fn first_defs_error_kind(bms: Bms) -> Option<DefKind> {
    if first_bad_def(bms.bpm.bpm_defs, DefKind::Bpm, 3844) is Some {
        Some(DefKind::Bpm)
    } else if first_bad_def(bms.stop.stop_defs, DefKind::Stop, 3844) is Some {
        Some(DefKind::Stop)
    } else if first_bad_def(bms.speed.speed_defs, DefKind::Speed, 3844) is Some {
        Some(DefKind::Speed)
    } else if first_bad_def(bms.scroll.scroll_defs, DefKind::Scroll, 3844) is Some {
        Some(DefKind::Scroll)
    } else if first_bad_def(bms.video.seek_defs, DefKind::Seek, 3844) is Some {
        Some(DefKind::Seek)
    } else {
        None
    }
}

/// The definitions of the kind in a score.
pub open spec fn defs_of(bms: Bms, kind: DefKind) -> ObjIdMap<StringValue> {
    match kind {
        DefKind::Bpm => bms.bpm.bpm_defs,
        DefKind::Stop => bms.stop.stop_defs,
        DefKind::Speed => bms.speed.speed_defs,
        DefKind::Scroll => bms.scroll.scroll_defs,
        DefKind::Seek => bms.video.seek_defs,
    }
}

/// The text of the tempo at the start: `#BPM`, else `120`.
pub open spec fn init_bpm_text(bms: Bms) -> Seq<char> {
    match bms.bpm.bpm {
        Some(v) => v.text(),
        None => "120"@,
    }
}

/// The resources of a map of files, by id number.
pub open spec fn files_upto<V>(m: ObjIdMap<V>, k: int, file: spec_fn(V) -> Seq<char>) -> Seq<(u16, Seq<char>)>
    decreases k,
{
    if k <= 0 {
        seq![]
    } else {
        let prev = files_upto(m, k - 1, file);
        match m.at(k - 1) {
            Some(v) => prev.push(((k - 1) as u16, file(v))),
            None => prev,
        }
    }
}

/// The processing of a parsed BMS score.
pub struct BmsProcessor;

impl BmsProcessor {
    /// The side, key and kind of the lane of a channel in the layout `T`.
    pub fn lane_of_channel_id<T: KeyLayoutMapper>(channel_id: NoteChannelId) -> (r: Option<
        (PlayerSide, Key, NoteKind),
    >)
        ensures
            match T::spec_from_channel_id(channel_id) {
                Some(m) => r == Some((m.spec_side(), m.spec_key(), m.spec_kind())),
                None => r is None,
            },
    {
        match T::from_channel_id(channel_id) {
            Some(m) => Some((m.side(), m.key(), m.kind())),
            None => None,
        }
    }

    /// Checks a score for references without definitions and notes that cannot be played.
    pub fn check_validity<T: KeyLayoutMapper>(bms: &Bms) -> (r: ValidityCheckOutput)
        ensures
            r.missing@ == spec_missing(*bms),
            r.invalid@ == spec_invalid::<T>(bms.wav.notes@),
    {
        let missing = check_missing(bms);
        let invalid = check_invalid::<T>(bms);
        ValidityCheckOutput { missing, invalid }
    }

    /// Checks whether a score can be played: a gauge total, a tempo and notes, displayable
    /// and playable.
    pub fn check_playing<T: KeyLayoutMapper>(bms: &Bms) -> (r: PlayingCheckOutput)
        ensures
            r.playing_warnings@ == spec_playing_warnings::<T>(*bms),
            r.playing_errors@ == spec_playing_errors(*bms),
            bms.judge.total is None <==> r.playing_warnings@.contains(PlayingWarning::TotalUndefined),
            bms.judge.total is None ==> r.playing_warnings@[0] == PlayingWarning::TotalUndefined,
    {
        let mut playing_warnings: Vec<PlayingWarning> = Vec::new();
        let mut playing_errors: Vec<PlayingError> = Vec::new();
        if bms.judge.total.is_none() {
            playing_warnings.push(PlayingWarning::TotalUndefined);
        }
        if bms.bpm.bpm.is_none() {
            if bms.bpm.bpm_changes.is_empty() {
                playing_errors.push(PlayingError::BpmUndefined);
            } else {
                playing_warnings.push(PlayingWarning::StartBpmUndefined);
            }
        }
        let notes = bms.wav.notes.all_notes();
        if notes.len() == 0 {
            playing_errors.push(PlayingError::NoNotes);
        } else {
            if !any_of_kind::<T>(notes, true) {
                playing_warnings.push(PlayingWarning::NoDisplayableNotes);
            }
            if !any_of_kind::<T>(notes, false) {
                playing_warnings.push(PlayingWarning::NoPlayableNotes);
            }
        }
        let r = PlayingCheckOutput { playing_warnings, playing_errors };
        assert(r.playing_warnings@ =~= spec_playing_warnings::<T>(*bms));
        assert(r.playing_errors@ =~= spec_playing_errors(*bms));
        proof {
            lemma_total_undefined_warned::<T>(*bms);
        }
        r
    }

    /// Validates the numeric definitions and the starting tempo of a score and collects its
    /// resources. The definitions are checked as tempo, stop, spacing, scrolling and seek
    /// definitions in turn, each by increasing id, and the first refused one is the error;
    /// then the starting tempo (`120` when the score gives none) must be a positive number.
    pub fn parse<T: KeyLayoutMapper>(bms: &Bms) -> (r: Result<Chart, PlayingError>)
        ensures
            match first_defs_error_kind(*bms) {
                Some(kind) => {
                    let i = first_bad_def(defs_of(*bms, kind), kind, 3844)->0;
                    let raw = defs_of(*bms, kind).at(i)->0.text();
                    r matches Err(e) && is_def_error(
                        e,
                        kind,
                        ObjId::spec_from_value(i),
                        raw,
                        def_error(kind, raw)->0,
                    )
                },
                None => match positive_f64_error(init_bpm_text(*bms)) {
                    Some(t) => r matches Err(e) && is_def_error(
                        e,
                        DefKind::Bpm,
                        ObjId::spec_from_value(0),
                        init_bpm_text(*bms),
                        t,
                    ),
                    None => r matches Ok(chart) && chart.init_bpm.text() == init_bpm_text(*bms)
                        && chart.wav_files@.map_values(|p: (u16, String)| (p.0, p.1@))
                        == files_upto(bms.wav.wav_files, 3844, |s: String| s@)
                        && chart.bmp_files@.map_values(|p: (u16, String)| (p.0, p.1@))
                        == files_upto(
                        bms.bmp.bmp_files,
                        3844,
                        |b: crate::bms::objects::Bmp| b.file@,
                    ),
                },
            },
    {
        match first_def_error(&bms.bpm.bpm_defs, DefKind::Bpm) {
            Some(e) => {
                return Err(e);
            },
            None => {},
        }
        match first_def_error(&bms.stop.stop_defs, DefKind::Stop) {
            Some(e) => {
                return Err(e);
            },
            None => {},
        }
        match first_def_error(&bms.speed.speed_defs, DefKind::Speed) {
            Some(e) => {
                return Err(e);
            },
            None => {},
        }
        match first_def_error(&bms.scroll.scroll_defs, DefKind::Scroll) {
            Some(e) => {
                return Err(e);
            },
            None => {},
        }
        match first_def_error(&bms.video.seek_defs, DefKind::Seek) {
            Some(e) => {
                return Err(e);
            },
            None => {},
        }
        let init_bpm = match &bms.bpm.bpm {
            Some(v) => v.clone(),
            None => StringValue::new("120"),
        };
        proof {
            reveal_strlit("120");
        }
        match positive_f64_check(init_bpm.raw()) {
            Some(error) => {
                return Err(PlayingError::InvalidBpm { raw: owned(init_bpm.raw()), error });
            },
            None => {},
        }
        let wav_files = wav_file_list(&bms.wav.wav_files);
        let bmp_files = bmp_file_list(&bms.bmp.bmp_files);
        Ok(Chart { init_bpm, wav_files, bmp_files })
    }
}

/// The sound files by id number.
fn wav_file_list(m: &ObjIdMap<String>) -> (r: Vec<(u16, String)>)
    ensures
        r@.map_values(|p: (u16, String)| (p.0, p.1@)) == files_upto(*m, 3844, |s: String| s@),
{
    let mut r: Vec<(u16, String)> = Vec::new();
    let mut k: u16 = 0;
    while k < 3844
        invariant
            k <= 3844,
            r@.map_values(|p: (u16, String)| (p.0, p.1@)) == files_upto(*m, k as int, |s: String| s@),
        decreases 3844 - k,
    {
        match m.get_at(k) {
            Some(path) => {
                r.push((k, path.clone()));
            },
            None => {},
        }
        k += 1;
        assert(r@.map_values(|p: (u16, String)| (p.0, p.1@)) =~= files_upto(*m, k as int, |s: String| s@));
    }
    r
}

/// The image files by id number.
fn bmp_file_list(m: &ObjIdMap<crate::bms::objects::Bmp>) -> (r: Vec<(u16, String)>)
    ensures
        r@.map_values(|p: (u16, String)| (p.0, p.1@)) == files_upto(
            *m,
            3844,
            |b: crate::bms::objects::Bmp| b.file@,
        ),
{
    let mut r: Vec<(u16, String)> = Vec::new();
    let mut k: u16 = 0;
    while k < 3844
        invariant
            k <= 3844,
            r@.map_values(|p: (u16, String)| (p.0, p.1@)) == files_upto(
                *m,
                k as int,
                |b: crate::bms::objects::Bmp| b.file@,
            ),
        decreases 3844 - k,
    {
        match m.get_at(k) {
            Some(bmp) => {
                r.push((k, bmp.file.clone()));
            },
            None => {},
        }
        k += 1;
        assert(r@.map_values(|p: (u16, String)| (p.0, p.1@)) =~= files_upto(
            *m,
            k as int,
            |b: crate::bms::objects::Bmp| b.file@,
        ));
    }
    r
}

/// Whether a note lies on a displayable lane (`displayable`) or a playable one.
pub open spec fn note_is<T: KeyLayoutMapper>(n: WavObj, displayable: bool) -> bool {
    match T::spec_from_channel_id(n.channel_id) {
        Some(m) => if displayable {
            m.spec_kind().spec_is_displayable()
        } else {
            m.spec_kind().spec_is_playable()
        },
        None => false,
    }
}

/// The warnings of `check_playing`, in this order: no gauge total; no tempo at the start
/// though tempo changes; notes but none displayable; notes but none playable.
pub open spec fn spec_playing_warnings<T: KeyLayoutMapper>(bms: Bms) -> Seq<PlayingWarning> {
    seq![PlayingWarning::TotalUndefined].take(if bms.judge.total is None { 1 } else { 0 })
        + seq![PlayingWarning::StartBpmUndefined].take(
        if bms.bpm.bpm is None && bms.bpm.bpm_changes@.len() > 0 { 1 } else { 0 },
    ) + seq![PlayingWarning::NoDisplayableNotes].take(
        if bms.wav.notes@.len() > 0 && !has_kind::<T>(bms.wav.notes@, true) { 1 } else { 0 },
    ) + seq![PlayingWarning::NoPlayableNotes].take(
        if bms.wav.notes@.len() > 0 && !has_kind::<T>(bms.wav.notes@, false) { 1 } else { 0 },
    )
}

/// A score without a gauge total is warned of it, first of all, and a score with one never
/// is.
pub proof fn lemma_total_undefined_warned<T: KeyLayoutMapper>(bms: Bms)
    ensures
        bms.judge.total is None <==> spec_playing_warnings::<T>(bms).contains(
            PlayingWarning::TotalUndefined,
        ),
        bms.judge.total is None ==> spec_playing_warnings::<T>(bms)[0]
            == PlayingWarning::TotalUndefined,
{
    let w = spec_playing_warnings::<T>(bms);
    if bms.judge.total is None {
        assert(w[0] == PlayingWarning::TotalUndefined);
    } else {
        assert forall|i: int| 0 <= i < w.len() implies w[i] != PlayingWarning::TotalUndefined by {}
    }
}

/// The errors of `check_playing`, in this order: no tempo at all; no notes.
pub open spec fn spec_playing_errors(bms: Bms) -> Seq<PlayingError> {
    seq![PlayingError::BpmUndefined].take(
        if bms.bpm.bpm is None && bms.bpm.bpm_changes@.len() == 0 { 1 } else { 0 },
    ) + seq![PlayingError::NoNotes].take(if bms.wav.notes@.len() == 0 { 1 } else { 0 })
}

/// Whether some note lies on a displayable lane (`displayable`) or a playable one.
pub open spec fn has_kind<T: KeyLayoutMapper>(notes: Seq<WavObj>, displayable: bool) -> bool {
    exists|i: int| 0 <= i < notes.len() && #[trigger] note_is::<T>(notes[i], displayable)
}

/// Whether some note lies on a displayable lane (`displayable`) or a playable one.
fn any_of_kind<T: KeyLayoutMapper>(notes: &[WavObj], displayable: bool) -> (r: bool)
    ensures
        r == has_kind::<T>(notes@, displayable),
{
    let mut i: usize = 0;
    while i < notes.len()
        invariant
            i <= notes@.len(),
            forall|j: int| 0 <= j < i ==> !#[trigger] note_is::<T>(notes@[j], displayable),
        decreases notes@.len() - i,
    {
        if note_matches::<T>(&notes[i], displayable) {
            return true;
        }
        i += 1;
    }
    false
}

/// Whether a note lies on a displayable lane (`displayable`) or a playable one.
fn note_matches<T: KeyLayoutMapper>(n: &WavObj, displayable: bool) -> (r: bool)
    ensures
        r == note_is::<T>(*n, displayable),
{
    match T::from_channel_id(n.channel_id) {
        Some(m) => if displayable {
            m.kind().is_displayable()
        } else {
            m.kind().is_playable()
        },
        None => false,
    }
}

/// The notes that a selector keeps: displayable ones (0), playable ones (1), or those
/// on the background channel `01` or on no lane of the layout (2).
pub open spec fn selects<T: KeyLayoutMapper>(n: WavObj, which: u8) -> bool {
    if which == 0 {
        note_is::<T>(n, true)
    } else if which == 1 {
        note_is::<T>(n, false)
    } else {
        n.channel_id == (NoteChannelId { first: 48, second: 49 }) || T::spec_from_channel_id(n.channel_id) is None
    }
}

/// Whether a note is a background note: on the background channel `01`, or on no lane of the
/// layout `T`.
fn is_background<T: KeyLayoutMapper>(n: &WavObj) -> (r: bool)
    ensures
        r == selects::<T>(*n, 2),
{
    n.channel_id == NoteChannelId::bgm() || T::from_channel_id(n.channel_id).is_none()
}

/// The notes kept by a selector, in their order.
pub open spec fn select_notes<T: KeyLayoutMapper>(notes: Seq<WavObj>, which: u8) -> Seq<WavObj>
    decreases notes.len(),
{
    if notes.len() == 0 {
        seq![]
    } else {
        let prev = select_notes::<T>(notes.drop_last(), which);
        if selects::<T>(notes.last(), which) {
            prev.push(notes.last())
        } else {
            prev
        }
    }
}

/// The notes kept by a selector.
fn filter_notes<T: KeyLayoutMapper>(notes: &Notes, which: u8) -> (r: Vec<WavObj>)
    ensures
        r@ == select_notes::<T>(notes@, which),
{
    let all = notes.all_notes();
    let mut r: Vec<WavObj> = Vec::new();
    let mut i: usize = 0;
    while i < all.len()
        invariant
            i <= all@.len(),
            all@ == notes@,
            r@ == select_notes::<T>(all@.take(i as int), which),
        decreases all@.len() - i,
    {
        assert(all@.take(i + 1).drop_last() =~= all@.take(i as int));
        let n = all[i];
        let keep = if which == 0 {
            note_matches::<T>(&n, true)
        } else if which == 1 {
            note_matches::<T>(&n, false)
        } else {
            is_background::<T>(&n)
        };
        if keep {
            r.push(n);
        }
        i += 1;
    }
    assert(all@.take(all@.len() as int) =~= all@);
    r
}

/// The playable notes are the playable ones among the displayable notes, in the same
/// order: every playable note is displayable, so the playable notes form a subsequence of the
/// displayable ones.
pub proof fn lemma_playables_within_displayables<T: KeyLayoutMapper>(notes: Seq<WavObj>)
    ensures
        select_notes::<T>(notes, 1) == select_notes::<T>(select_notes::<T>(notes, 0), 1),
    decreases notes.len(),
{
    if notes.len() > 0 {
        lemma_playables_within_displayables::<T>(notes.drop_last());
        let d = select_notes::<T>(notes.drop_last(), 0);
        if selects::<T>(notes.last(), 0) {
            assert(d.push(notes.last()).drop_last() =~= d);
        }
    }
}

/// The notes on playable lanes of the layout `T`, in their order.
pub fn notes_playables<T: KeyLayoutMapper>(notes: &Notes) -> (r: Vec<WavObj>)
    ensures
        r@ == select_notes::<T>(notes@, 1),
{
    filter_notes::<T>(notes, 1)
}

/// The notes on displayable lanes of the layout `T`, in their order.
pub fn notes_displayables<T: KeyLayoutMapper>(notes: &Notes) -> (r: Vec<WavObj>)
    ensures
        r@ == select_notes::<T>(notes@, 0),
{
    filter_notes::<T>(notes, 0)
}

/// The background notes: those on the background channel or on no lane of the layout `T`,
/// in their order.
pub fn notes_bgms<T: KeyLayoutMapper>(notes: &Notes) -> (r: Vec<WavObj>)
    ensures
        r@ == select_notes::<T>(notes@, 2),
{
    filter_notes::<T>(notes, 2)
}

/// The latest position among the notes kept by a selector (the last of them in order among
/// those at the latest position).
pub open spec fn last_time<T: KeyLayoutMapper>(notes: Seq<WavObj>, which: u8) -> Option<ObjTime>
    decreases notes.len(),
{
    if notes.len() == 0 {
        None
    } else {
        let prev = last_time::<T>(notes.drop_last(), which);
        let n = notes.last();
        if selects::<T>(n, which) {
            match prev {
                Some(t) => if time_le(t, n.offset) {
                    Some(n.offset)
                } else {
                    Some(t)
                },
                None => Some(n.offset),
            }
        } else {
            prev
        }
    }
}

/// The latest position among the notes kept by a selector.
fn last_time_of<T: KeyLayoutMapper>(notes: &Notes, which: u8) -> (r: Option<ObjTime>)
    ensures
        r == last_time::<T>(notes@, which),
{
    let all = notes.all_notes();
    let mut best: Option<ObjTime> = None;
    let mut i: usize = 0;
    while i < all.len()
        invariant
            i <= all@.len(),
            all@ == notes@,
            best == last_time::<T>(all@.take(i as int), which),
        decreases all@.len() - i,
    {
        assert(all@.take(i + 1).drop_last() =~= all@.take(i as int));
        let n = all[i];
        let keep = if which == 0 {
            note_matches::<T>(&n, true)
        } else if which == 1 {
            note_matches::<T>(&n, false)
        } else {
            is_background::<T>(&n)
        };
        if keep {
            best = match best {
                Some(t) => if t.le(&n.offset) {
                    Some(n.offset)
                } else {
                    Some(t)
                },
                None => Some(n.offset),
            };
        }
        i += 1;
    }
    assert(all@.take(all@.len() as int) =~= all@);
    best
}

/// The latest position of a note on a playable lane of the layout `T`.
pub fn last_playable_time<T: KeyLayoutMapper>(notes: &Notes) -> (r: Option<ObjTime>)
    ensures
        r == last_time::<T>(notes@, 1),
{
    last_time_of::<T>(notes, 1)
}

/// The latest position of a background note (on the background channel `01` or on no lane
/// of the layout `T`).
pub fn last_bgm_time<T: KeyLayoutMapper>(notes: &Notes) -> (r: Option<ObjTime>)
    ensures
        r == last_time::<T>(notes@, 2),
{
    last_time_of::<T>(notes, 2)
}

/// What a note becomes in play, its position apart: a background sound, or a note on a lane
/// with its kind and, for a long note, the position where it ends (the next note on its
/// channel, if any).
#[derive(Debug, Clone, Copy, PartialEq, Eq, Hash, Structural)]
pub enum NoteEvent {
    /// A sound that no lane of the layout plays.
    Bgm {
        /// The sound.
        wav_id: ObjId,
    },
    /// A note on a lane.
    Note {
        /// The player side of the lane.
        side: PlayerSide,
        /// The key of the lane.
        key: Key,
        /// The kind of note.
        kind: NoteKind,
        /// The sound.
        wav_id: ObjId,
        /// For a long note, the position of the next note on its channel.
        end: Option<ObjTime>,
    },
}

/// The event of the note `obj` among the notes `notes` in the layout `T`: background when the
/// layout has no lane for its channel; otherwise a note of the lane's side, key and kind, and
/// for a long note the earliest later position on its channel.
pub open spec fn spec_note_event<T: KeyLayoutMapper>(notes: Seq<WavObj>, obj: WavObj) -> NoteEvent {
    match T::spec_from_channel_id(obj.channel_id) {
        None => NoteEvent::Bgm { wav_id: obj.wav_id },
        Some(m) => NoteEvent::Note {
            side: m.spec_side(),
            key: m.spec_key(),
            kind: m.spec_kind(),
            wav_id: obj.wav_id,
            end: if m.spec_kind() is Long {
                match earliest_after(notes, obj.offset, obj.channel_id, notes.len() as int) {
                    Some(j) => Some(notes[j].offset),
                    None => None,
                }
            } else {
                None
            },
        },
    }
}

/// The event of a note in the layout `T`, as `spec_note_event` says.
pub fn event_for_note<T: KeyLayoutMapper>(notes: &Notes, obj: &WavObj) -> (r: NoteEvent)
    ensures
        r == spec_note_event::<T>(notes@, *obj),
{
    match BmsProcessor::lane_of_channel_id::<T>(obj.channel_id) {
        None => NoteEvent::Bgm { wav_id: obj.wav_id },
        Some((side, key, kind)) => {
            let end = if kind == NoteKind::Long {
                let all = notes.all_notes();
                match next_on_channel(all, &obj.offset, obj.channel_id) {
                    Some(j) => Some(all[j].offset),
                    None => None,
                }
            } else {
                None
            };
            NoteEvent::Note { side, key, kind, wav_id: obj.wav_id, end }
        },
    }
}

} // verus!
