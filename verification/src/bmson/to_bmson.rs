//! Writing a score as a bmson chart.
use crate::bms::command::{time_lt, JudgeLevel, LnMode, NoteChannelId, ObjTime, StringValue, Track};
use crate::bms::model::ObjIdMap;
use crate::bms::layout::{KeyLayoutBeat, KeyLayoutMapper};
use crate::bms::model::{Bms, WavObj};
use crate::bms::objects::{BgaObj, Bmp, BpmChangeObj, ScrollingFactorObj, StopObj};
use crate::bmson::convert::BmsToBmsonWarning;
use crate::bmson::pulse::{PulseConverter, PulseNumber};
use crate::bmson::{
    BarLine, Bga, BgaEvent, BgaHeader, BgaId, Bmson, BmsonInfo, BpmEvent, JudgeRank, KeyChannel, KeyEvent, MineChannel, MineEvent, Note, ScrollEvent,
    SoundChannel, StopEvent,
};
use crate::chart::types::{BgaLayer, Key, NoteKind, PlayerSide};
use crate::number::{
    fin_f64_check, fin_f64_error, non_negative_f64_error, non_negative_f64_to_u64,
    non_negative_f64_u64, positive_f64_check, positive_f64_error,
};
use crate::text::{concat, owned};
use vstd::prelude::*;

verus! {

/// The judge width of the easy rank, in quarter frames (21 frames).
pub const EASY_JUDGE_WIDTH: u64 = 84;

/// The judge width of the very easy rank of beatoraja, in quarter frames: a quarter more
/// than the easy one.
pub const VERY_EASY_JUDGE_WIDTH: u64 = EASY_JUDGE_WIDTH + EASY_JUDGE_WIDTH / 4;

/// The judge width of the normal rank, in quarter frames (18 frames).
pub const NORMAL_JUDGE_WIDTH: u64 = 72;

/// The judge width of the hard rank, in quarter frames (15 frames).
pub const HARD_JUDGE_WIDTH: u64 = 60;

/// The judge width of the very hard rank, in quarter frames (8 frames).
pub const VERY_HARD_JUDGE_WIDTH: u64 = 32;

/// The judge width of a judge rank: rank `4` is the very easy width, any rank without a
/// width of its own (or none) the normal one.
pub open spec fn judge_width(rank: Option<JudgeLevel>) -> int {
    match rank {
        Some(JudgeLevel::OtherInt(4)) => VERY_EASY_JUDGE_WIDTH as int,
        Some(JudgeLevel::Easy) => EASY_JUDGE_WIDTH as int,
        Some(JudgeLevel::Hard) => HARD_JUDGE_WIDTH as int,
        Some(JudgeLevel::VeryHard) => VERY_HARD_JUDGE_WIDTH as int,
        _ => NORMAL_JUDGE_WIDTH as int,
    }
}

/// The judge rank of a score is its judge width divided by the normal width: the ratio has
/// a positive denominator and equals that quotient, and it is exactly one for the normal
/// rank and for a score without a rank.
pub proof fn lemma_judge_rank_is_width_ratio(rank: Option<JudgeLevel>)
    ensures
        judge_rank_ratio(rank).denominator > 0,
        judge_rank_ratio(rank).numerator * NORMAL_JUDGE_WIDTH == judge_width(rank)
            * judge_rank_ratio(rank).denominator,
        rank == Some(JudgeLevel::Normal) || rank is None ==> judge_rank_ratio(rank).numerator
            == judge_rank_ratio(rank).denominator,
{
    assert(VERY_EASY_JUDGE_WIDTH == 105);
    let r = judge_rank_ratio(rank);
    if rank == Some(JudgeLevel::OtherInt(4)) {
        assert(r.numerator * 72 == 105 * 72);
    } else if rank == Some(JudgeLevel::Easy) {
        assert(r.numerator * 72 == 84 * 18);
    } else if rank == Some(JudgeLevel::Hard) {
        assert(r.numerator * 72 == 60 * 18);
    } else if rank == Some(JudgeLevel::VeryHard) {
        assert(r.numerator * 72 == 32 * 18);
    } else {
        assert(r.numerator * 72 == 72 * 1);
    }
}

/// The judge width of a judge rank relative to the normal one, as a ratio: `4` is the very
/// easy width of beatoraja (26.25 / 18), easy 21 / 18, hard 15 / 18, very hard 8 / 18, and
/// any other rank (or none) the normal width.
pub open spec fn judge_rank_ratio(rank: Option<JudgeLevel>) -> JudgeRank {
    match rank {
        Some(JudgeLevel::OtherInt(4)) => JudgeRank { numerator: 105, denominator: 72 },
        Some(JudgeLevel::Easy) => JudgeRank { numerator: 21, denominator: 18 },
        Some(JudgeLevel::Hard) => JudgeRank { numerator: 15, denominator: 18 },
        Some(JudgeLevel::VeryHard) => JudgeRank { numerator: 8, denominator: 18 },
        _ => JudgeRank { numerator: 1, denominator: 1 },
    }
}

/// Computes `judge_rank_ratio`.
pub fn judge_rank_of(rank: Option<JudgeLevel>) -> (r: JudgeRank)
    ensures
        r == judge_rank_ratio(rank),
        r.denominator > 0,
        r.numerator * NORMAL_JUDGE_WIDTH == judge_width(rank) * r.denominator,
        rank == Some(JudgeLevel::Normal) || rank is None ==> r.numerator == r.denominator,
{
    proof {
        lemma_judge_rank_is_width_ratio(rank);
    }
    match rank {
        Some(JudgeLevel::OtherInt(4)) => JudgeRank { numerator: 105, denominator: 72 },
        Some(JudgeLevel::Easy) => JudgeRank { numerator: 21, denominator: 18 },
        Some(JudgeLevel::Hard) => JudgeRank { numerator: 15, denominator: 18 },
        Some(JudgeLevel::VeryHard) => JudgeRank { numerator: 8, denominator: 18 },
        _ => JudgeRank { numerator: 1, denominator: 1 },
    }
}

/// The lane of a note in the beat layout, if it lies on one.
pub open spec fn beat_lane(c: NoteChannelId) -> Option<KeyLayoutBeat> {
    KeyLayoutBeat::spec_from_channel_id(c)
}

/// Whether a note lies on key 6 or 7 of the beat layout.
pub open spec fn on_key_6_or_7(c: NoteChannelId) -> bool {
    beat_lane(c) matches Some(m) && (m.key == Key::Key(6) || m.key == Key::Key(7))
}

/// Whether a note lies on the second player's side of the beat layout.
pub open spec fn on_player2(c: NoteChannelId) -> bool {
    beat_lane(c) matches Some(m) && m.side == PlayerSide::Player2
}

/// The layout a score is for: 14 keys when some note lies on keys 6 or 7 and some on the
/// second player's side, 10 keys for the second side without those keys, 7 keys with them
/// on one side, else 5 keys.
pub open spec fn spec_mode_hint(notes: Seq<WavObj>) -> Seq<char> {
    let seven = exists|i: int| 0 <= i < notes.len() && #[trigger] on_key_6_or_7(notes[i].channel_id);
    let dp = exists|i: int| 0 <= i < notes.len() && #[trigger] on_player2(notes[i].channel_id);
    if dp && seven {
        "beat-14k"@
    } else if dp {
        "beat-10k"@
    } else if seven {
        "beat-7k"@
    } else {
        "beat-5k"@
    }
}

/// Computes `spec_mode_hint`.
pub fn mode_hint_of(notes: &[WavObj]) -> (r: String)
    ensures
        r@ == spec_mode_hint(notes@),
{
    let mut seven = false;
    let mut dp = false;
    let mut i: usize = 0;
    while i < notes.len()
        invariant
            i <= notes@.len(),
            seven == exists|j: int| 0 <= j < i && #[trigger] on_key_6_or_7(notes@[j].channel_id),
            dp == exists|j: int| 0 <= j < i && #[trigger] on_player2(notes@[j].channel_id),
        decreases notes@.len() - i,
    {
        let (k7, p2) = match KeyLayoutBeat::from_channel_id(notes[i].channel_id) {
            Some(m) => {
                let k = m.key();
                let k7 = match k {
                    Key::Key(n) => n == 6 || n == 7,
                    _ => false,
                };
                (k7, m.side() == PlayerSide::Player2)
            },
            None => (false, false),
        };
        assert(k7 == on_key_6_or_7(notes@[i as int].channel_id));
        assert(p2 == on_player2(notes@[i as int].channel_id));
        let ghost seven0 = seven;
        let ghost dp0 = dp;
        seven = seven || k7;
        dp = dp || p2;
        proof {
            if seven0 {
                let j = choose|j: int| 0 <= j < i && #[trigger] on_key_6_or_7(notes@[j].channel_id);
                assert(0 <= j < i + 1 && on_key_6_or_7(notes@[j].channel_id));
            }
            if dp0 {
                let j = choose|j: int| 0 <= j < i && #[trigger] on_player2(notes@[j].channel_id);
                assert(0 <= j < i + 1 && on_player2(notes@[j].channel_id));
            }
            if !seven {
                assert forall|j: int| 0 <= j < i + 1 implies !#[trigger] on_key_6_or_7(notes@[j].channel_id) by {
                    if j < i {
                        assert(!(0 <= j < i && on_key_6_or_7(notes@[j].channel_id)));
                    }
                }
            }
            if !dp {
                assert forall|j: int| 0 <= j < i + 1 implies !#[trigger] on_player2(notes@[j].channel_id) by {
                    if j < i {
                        assert(!(0 <= j < i && on_player2(notes@[j].channel_id)));
                    }
                }
            }
        }
        i += 1;
    }
    proof {
        reveal_strlit("beat-14k");
        reveal_strlit("beat-10k");
        reveal_strlit("beat-7k");
        reveal_strlit("beat-5k");
    }
    if dp && seven {
        owned("beat-14k")
    } else if dp {
        owned("beat-10k")
    } else if seven {
        owned("beat-7k")
    } else {
        owned("beat-5k")
    }
}

/// The number of a key of the beat layout in a bmson lane: keys 1 to 7 by their number, the
/// scratch and the free zone 8, anything else 0.
pub open spec fn key_number(k: Key) -> u8 {
    match k {
        Key::Key(n) => if 1 <= n <= 7 {
            n
        } else {
            0
        },
        Key::Scratch(_) => 8,
        Key::FreeZone => 8,
        Key::FootPedal => 0,
    }
}

/// The bmson lane of a note (`0` for none): for a playable note of the beat layout, the
/// number of its key, plus 8 on the second player's side.
pub open spec fn note_lane(c: NoteChannelId) -> u8 {
    match beat_lane(c) {
        Some(m) => if m.kind.spec_is_playable() {
            (key_number(m.key) + if m.side == PlayerSide::Player2 {
                8u8
            } else {
                0u8
            }) as u8
        } else {
            0
        },
        None => 0,
    }
}

/// Computes `note_lane`.
pub fn lane_of_note(c: NoteChannelId) -> (r: u8)
    ensures
        r == note_lane(c),
{
    match KeyLayoutBeat::from_channel_id(c) {
        Some(m) => {
            if !m.kind().is_playable() {
                return 0;
            }
            let n: u8 = match m.key() {
                Key::Key(n) => if 1 <= n && n <= 7 {
                    n
                } else {
                    0
                },
                Key::Scratch(_) => 8,
                Key::FreeZone => 8,
                Key::FootPedal => 0,
            };
            if m.side() == PlayerSide::Player2 {
                n + 8
            } else {
                n
            }
        },
        None => 0,
    }
}

/// The bar lines at the start of tracks `0` to `last_track`.
pub open spec fn spec_bar_lines(c: PulseConverter, last_track: u64) -> Seq<BarLine> {
    Seq::new((last_track + 1) as nat, |t: int| BarLine { y: PulseNumber(c.spec_pulses_on(t as u64)) })
}

/// The bar lines at the start of tracks `0` to `last_track`.
pub fn bar_lines(c: &PulseConverter, last_track: u64) -> (r: Vec<BarLine>)
    ensures
        r@ == spec_bar_lines(*c, last_track),
{
    let mut r: Vec<BarLine> = Vec::new();
    let mut t: u64 = 0;
    loop
        invariant_except_break
            t <= last_track,
            r@ == spec_bar_lines(*c, last_track).take(t as int),
        ensures
            r@ == spec_bar_lines(*c, last_track),
        decreases last_track - t,
    {
        r.push(BarLine { y: c.get_pulses_on(Track(t)) });
        assert(r@ =~= spec_bar_lines(*c, last_track).take(t + 1));
        if t == last_track {
            assert(r@ =~= spec_bar_lines(*c, last_track));
            break;
        }
        t += 1;
    }
    r
}

/// `n` copies of a warning.
pub open spec fn warned(w: BmsToBmsonWarning, n: int) -> Seq<BmsToBmsonWarning> {
    Seq::new(n as nat, |i: int| w)
}

/// The text of a tempo to write: the tempo when it is a positive number, else `120`.
pub open spec fn usable_bpm(s: Seq<char>) -> Seq<char> {
    if positive_f64_error(s) is None {
        s
    } else {
        "120"@
    }
}

/// The pulse and the text of a tempo event.
pub open spec fn bpm_view(e: BpmEvent) -> (u64, Seq<char>) {
    (e.y.0, e.bpm.text())
}

/// The tempo events of tempo changes: at the pulses of the changes, with the tempo to write.
pub open spec fn spec_bpm_events(c: PulseConverter, es: Seq<(ObjTime, u8, BpmChangeObj)>) -> Seq<
    (u64, Seq<char>),
> {
    es.map_values(
        |e: (ObjTime, u8, BpmChangeObj)| (c.spec_pulses_at(e.2.time) as u64, usable_bpm(e.2.bpm.text())),
    )
}

/// How many of the first `n` tempo changes are no positive number.
pub open spec fn bad_bpms(es: Seq<(ObjTime, u8, BpmChangeObj)>, n: int) -> int
    decreases n,
{
    if n <= 0 {
        0
    } else {
        bad_bpms(es, n - 1) + if positive_f64_error(es[n - 1].2.bpm.text()) is Some {
            1int
        } else {
            0
        }
    }
}

proof fn lemma_bad_bpms_nonneg(es: Seq<(ObjTime, u8, BpmChangeObj)>, n: int)
    ensures
        bad_bpms(es, n) >= 0,
    decreases n,
{
    if n > 0 {
        lemma_bad_bpms_nonneg(es, n - 1);
    }
}

/// The tempo events of the tempo changes, warning of each tempo that is no positive number.
fn bpm_events_of(
    c: &PulseConverter,
    es: &[(ObjTime, u8, BpmChangeObj)],
    warnings: &mut Vec<BmsToBmsonWarning>,
) -> (r: Vec<BpmEvent>)
    requires
        forall|i: int| 0 <= i < es@.len() ==> c.fits(#[trigger] es@[i].2.time),
    ensures
        r@.map_values(|e: BpmEvent| bpm_view(e)) == spec_bpm_events(*c, es@),
        final(warnings)@ == old(warnings)@ + warned(
            BmsToBmsonWarning::InvalidBpm,
            bad_bpms(es@, es@.len() as int),
        ),
{
    let mut r: Vec<BpmEvent> = Vec::new();
    let mut i: usize = 0;
    while i < es.len()
        invariant
            i <= es@.len(),
            forall|j: int| 0 <= j < es@.len() ==> c.fits(#[trigger] es@[j].2.time),
            r@.map_values(|e: BpmEvent| bpm_view(e)) == spec_bpm_events(*c, es@).take(i as int),
            warnings@ == old(warnings)@ + warned(BmsToBmsonWarning::InvalidBpm, bad_bpms(es@, i as int)),
        decreases es@.len() - i,
    {
        let obj = &es[i].2;
        assert(c.fits(es@[i as int].2.time));
        let y = c.get_pulses_at(obj.time);
        let bpm = if positive_f64_check(obj.bpm.raw()).is_none() {
            obj.bpm.clone()
        } else {
            warnings.push(BmsToBmsonWarning::InvalidBpm);
            proof {
                reveal_strlit("120");
            }
            StringValue::new("120")
        };
        let ghost before = r@;
        assert(bpm.text() == usable_bpm(obj.bpm.text()));
        assert(y.0 == c.spec_pulses_at(obj.time) as u64);
        r.push(BpmEvent { y, bpm });
        proof {
            lemma_bad_bpms_nonneg(es@, i as int);
            assert(r@.map_values(|e: BpmEvent| bpm_view(e)) =~= before.map_values(|e: BpmEvent| bpm_view(e)).push(
                (y.0, usable_bpm(obj.bpm.text())),
            ));
            assert(r@.map_values(|e: BpmEvent| bpm_view(e)) =~= spec_bpm_events(*c, es@).take(i + 1));
            assert(warnings@ =~= old(warnings)@ + warned(BmsToBmsonWarning::InvalidBpm, bad_bpms(es@, i + 1)));
        }
        i += 1;
    }
    assert(spec_bpm_events(*c, es@).take(es@.len() as int) =~= spec_bpm_events(*c, es@));
    r
}

/// The stop events of stops whose length is a non-negative number, at their pulses, as
/// long as that number rounded toward zero; the others are left out.
pub open spec fn spec_stop_events(c: PulseConverter, stops: Seq<StopObj>) -> Seq<StopEvent>
    decreases stops.len(),
{
    if stops.len() == 0 {
        Seq::empty()
    } else {
        let rest = spec_stop_events(c, stops.drop_last());
        let o = stops.last();
        if non_negative_f64_error(o.duration.text()) is None {
            rest.push(
                StopEvent {
                    y: PulseNumber(c.spec_pulses_at(o.time) as u64),
                    duration: non_negative_f64_u64(o.duration.text()),
                },
            )
        } else {
            rest
        }
    }
}

/// The stop events of the stops.
fn stop_events_of(c: &PulseConverter, stops: &[StopObj]) -> (r: Vec<StopEvent>)
    requires
        forall|i: int|
            0 <= i < stops@.len() && non_negative_f64_error(#[trigger] stops@[i].duration.text())
                is None ==> c.fits(stops@[i].time),
    ensures
        r@ == spec_stop_events(*c, stops@),
{
    let mut r: Vec<StopEvent> = Vec::new();
    let mut i: usize = 0;
    while i < stops.len()
        invariant
            i <= stops@.len(),
            forall|j: int|
                0 <= j < stops@.len() && non_negative_f64_error(#[trigger] stops@[j].duration.text())
                    is None ==> c.fits(stops@[j].time),
            r@ == spec_stop_events(*c, stops@.take(i as int)),
        decreases stops@.len() - i,
    {
        let o = &stops[i];
        assert(stops@.take(i + 1).drop_last() =~= stops@.take(i as int));
        match non_negative_f64_to_u64(o.duration.raw()) {
            Some(duration) => {
                assert(c.fits(stops@[i as int].time));
                let y = c.get_pulses_at(o.time);
                r.push(StopEvent { y, duration });
            },
            None => {},
        }
        i += 1;
    }
    assert(stops@.take(stops@.len() as int) =~= stops@);
    r
}

/// The pulse and the text of a scrolling event.
pub open spec fn scroll_view(e: ScrollEvent) -> (u64, Seq<char>) {
    (e.y.0, e.rate.text())
}

/// The scrolling events of the changes whose factor is a finite number, at their pulses;
/// the others are left out.
pub open spec fn spec_scroll_events(c: PulseConverter, es: Seq<(ObjTime, u8, ScrollingFactorObj)>) -> Seq<
    (u64, Seq<char>),
>
    decreases es.len(),
{
    if es.len() == 0 {
        Seq::empty()
    } else {
        let rest = spec_scroll_events(c, es.drop_last());
        let o = es.last().2;
        if fin_f64_error(o.factor.text()) is None {
            rest.push((c.spec_pulses_at(o.time) as u64, o.factor.text()))
        } else {
            rest
        }
    }
}

/// How many of the first `n` scrolling changes are no finite number.
pub open spec fn bad_scrolls(es: Seq<(ObjTime, u8, ScrollingFactorObj)>, n: int) -> int
    decreases n,
{
    if n <= 0 {
        0
    } else {
        bad_scrolls(es, n - 1) + if fin_f64_error(es[n - 1].2.factor.text()) is Some {
            1int
        } else {
            0
        }
    }
}

proof fn lemma_bad_scrolls_nonneg(es: Seq<(ObjTime, u8, ScrollingFactorObj)>, n: int)
    ensures
        bad_scrolls(es, n) >= 0,
    decreases n,
{
    if n > 0 {
        lemma_bad_scrolls_nonneg(es, n - 1);
    }
}

/// The scrolling events of the changes, warning of each factor that is no finite number.
fn scroll_events_of(
    c: &PulseConverter,
    es: &[(ObjTime, u8, ScrollingFactorObj)],
    warnings: &mut Vec<BmsToBmsonWarning>,
) -> (r: Vec<ScrollEvent>)
    requires
        forall|i: int|
            0 <= i < es@.len() && fin_f64_error(#[trigger] es@[i].2.factor.text()) is None ==> c.fits(
                es@[i].2.time,
            ),
    ensures
        r@.map_values(|e: ScrollEvent| scroll_view(e)) == spec_scroll_events(*c, es@),
        final(warnings)@ == old(warnings)@ + warned(
            BmsToBmsonWarning::InvalidScrollingFactor,
            bad_scrolls(es@, es@.len() as int),
        ),
{
    let mut r: Vec<ScrollEvent> = Vec::new();
    let mut i: usize = 0;
    while i < es.len()
        invariant
            i <= es@.len(),
            forall|j: int|
                0 <= j < es@.len() && fin_f64_error(#[trigger] es@[j].2.factor.text()) is None ==> c.fits(
                    es@[j].2.time,
                ),
            r@.map_values(|e: ScrollEvent| scroll_view(e)) == spec_scroll_events(*c, es@.take(i as int)),
            warnings@ == old(warnings)@ + warned(
                BmsToBmsonWarning::InvalidScrollingFactor,
                bad_scrolls(es@, i as int),
            ),
        decreases es@.len() - i,
    {
        let o = &es[i].2;
        let ghost before = r@;
        assert(es@.take(i + 1).drop_last() =~= es@.take(i as int));
        assert(es@.take(i + 1).last() == es@[i as int]);
        proof {
            lemma_bad_scrolls_nonneg(es@, i as int);
        }
        if fin_f64_check(o.factor.raw()).is_none() {
            assert(c.fits(es@[i as int].2.time));
            let y = c.get_pulses_at(o.time);
            r.push(ScrollEvent { y, rate: o.factor.clone() });
            assert(r@.map_values(|e: ScrollEvent| scroll_view(e)) =~= before.map_values(
                |e: ScrollEvent| scroll_view(e),
            ).push((y.0, o.factor.text())));
            assert(warnings@ =~= old(warnings)@ + warned(
                BmsToBmsonWarning::InvalidScrollingFactor,
                bad_scrolls(es@, i + 1),
            ));
        } else {
            warnings.push(BmsToBmsonWarning::InvalidScrollingFactor);
            assert(warnings@ =~= old(warnings)@ + warned(
                BmsToBmsonWarning::InvalidScrollingFactor,
                bad_scrolls(es@, i + 1),
            ));
        }
        i += 1;
    }
    assert(es@.take(es@.len() as int) =~= es@);
    r
}

/// Where a note goes: `0` a sound channel (visible and long notes of the beat layout), `1`
/// a landmine channel, `2` an invisible note channel (also notes off the layout).
pub open spec fn note_class(c: NoteChannelId) -> u8 {
    match beat_lane(c) {
        Some(m) => match m.kind {
            NoteKind::Landmine => 1,
            NoteKind::Invisible => 2,
            _ => 0,
        },
        None => 2,
    }
}

/// Computes `note_class`.
fn class_of(c: NoteChannelId) -> (r: u8)
    ensures
        r == note_class(c),
{
    match KeyLayoutBeat::from_channel_id(c) {
        Some(m) => match m.kind() {
            NoteKind::Landmine => 1,
            NoteKind::Invisible => 2,
            _ => 0,
        },
        None => 2,
    }
}

/// Among the first `n` notes, the index of the earliest on `channel_id` strictly after
/// `time`; of several at the same position, the one added first.
pub open spec fn earliest_after(s: Seq<WavObj>, time: ObjTime, channel_id: NoteChannelId, n: int) -> Option<
    int,
>
    decreases n,
{
    if n <= 0 {
        None
    } else {
        let b = earliest_after(s, time, channel_id, n - 1);
        let j = n - 1;
        if time_lt(time, s[j].offset) && s[j].channel_id == channel_id && (b is None || time_lt(
            s[j].offset,
            s[b->0].offset,
        )) {
            Some(j)
        } else {
            b
        }
    }
}

proof fn lemma_earliest_after_bounds(s: Seq<WavObj>, time: ObjTime, channel_id: NoteChannelId, n: int)
    ensures
        earliest_after(s, time, channel_id, n) matches Some(b) ==> 0 <= b < n,
    decreases n,
{
    if n > 0 {
        lemma_earliest_after_bounds(s, time, channel_id, n - 1);
    }
}

/// Finds `earliest_after` among all notes.
pub(crate) fn next_on_channel(s: &[WavObj], time: &ObjTime, channel_id: NoteChannelId) -> (r: Option<usize>)
    ensures
        r is None <==> earliest_after(s@, *time, channel_id, s@.len() as int) is None,
        r matches Some(i) ==> earliest_after(s@, *time, channel_id, s@.len() as int) == Some(i as int),
        r matches Some(i) ==> i < s@.len(),
{
    let mut best: Option<usize> = None;
    let mut i: usize = 0;
    while i < s.len()
        invariant
            i <= s@.len(),
            best is None <==> earliest_after(s@, *time, channel_id, i as int) is None,
            best matches Some(j) ==> earliest_after(s@, *time, channel_id, i as int) == Some(j as int),
            best matches Some(j) ==> j < i,
        decreases s@.len() - i,
    {
        proof {
            lemma_earliest_after_bounds(s@, *time, channel_id, i as int);
        }
        let o = s[i];
        if time.lt(&o.offset) && o.channel_id == channel_id {
            let earlier = match best {
                None => true,
                Some(b) => o.offset.lt(&s[b].offset),
            };
            if earlier {
                best = Some(i);
            }
        }
        i += 1;
    }
    best
}

/// The pulses at a position, as a pulse number.
pub open spec fn pulse_of(c: PulseConverter, t: ObjTime) -> PulseNumber {
    PulseNumber(c.spec_pulses_at(t) as u64)
}

/// The length in pulses of a long note: the distance to the next note on its channel, or 0
/// when there is none; for another note 0.
pub open spec fn note_length(c: PulseConverter, notes: Seq<WavObj>, n: WavObj) -> u64 {
    if beat_lane(n.channel_id) matches Some(m) && m.kind == NoteKind::Long {
        match earliest_after(notes, n.offset, n.channel_id, notes.len() as int) {
            Some(j) => {
                let a = pulse_of(c, n.offset).0;
                let b = pulse_of(c, notes[j].offset).0;
                if a >= b {
                    (a - b) as u64
                } else {
                    (b - a) as u64
                }
            },
            None => 0,
        }
    } else {
        0
    }
}

/// The bmson note of a note of a sound channel.
pub open spec fn sound_note(c: PulseConverter, notes: Seq<WavObj>, n: WavObj, ln: LnMode) -> Note {
    Note {
        y: pulse_of(c, n.offset),
        x: note_lane(n.channel_id),
        l: note_length(c, notes, n),
        c: false,
        t: Some(ln),
        up: Some(false),
    }
}

/// The notes of class `class` that play the sound whose id is the base-62 number `k`.
pub open spec fn notes_of(notes: Seq<WavObj>, class: u8, k: int) -> Seq<WavObj> {
    notes.filter(|n: WavObj| note_class(n.channel_id) == class && n.wav_id.value() == k)
}

/// The base-62 numbers below `k` of the sounds that notes of class `class` play, ascending.
pub open spec fn ids_below(notes: Seq<WavObj>, class: u8, k: int) -> Seq<int>
    decreases k,
{
    if k <= 0 {
        Seq::empty()
    } else {
        let rest = ids_below(notes, class, k - 1);
        if notes_of(notes, class, k - 1).len() > 0 {
            rest.push(k - 1)
        } else {
            rest
        }
    }
}

/// The path of `file` under `root`, as `Path::join` on Unix gives it: `file` alone when the
/// root is empty or the file absolute, else the two with one `/` between.
pub open spec fn joined_path(root: Seq<char>, file: Seq<char>) -> Seq<char> {
    if root.len() == 0 || (file.len() > 0 && file[0] == '/') {
        file
    } else if root.last() == '/' {
        root + file
    } else {
        root + seq!['/'] + file
    }
}

/// Computes `joined_path`.
pub fn join_path(root: &str, file: &str) -> (r: String)
    ensures
        r@ == joined_path(root@, file@),
{
    let rc = crate::text::chars_of(root);
    let fc = crate::text::chars_of(file);
    if rc.len() == 0 || (fc.len() > 0 && fc[0] == '/') {
        return owned(file);
    }
    if rc[rc.len() - 1] == '/' {
        concat(root, file)
    } else {
        proof {
            reveal_strlit("/");
        }
        let with_slash = concat(root, "/");
        let r = concat(with_slash.as_str(), file);
        assert(r@ =~= joined_path(root@, file@));
        r
    }
}

/// The file name of the channel of the sound `k`: its file under the root, an empty file
/// when the sound is not defined.
pub open spec fn channel_name(root: Seq<char>, files: ObjIdMap<String>, k: int) -> Seq<char> {
    joined_path(
        root,
        match files.at(k) {
            Some(f) => f@,
            None => Seq::empty(),
        },
    )
}

/// The ids of the sounds that notes of a class play, ascending.
fn class_ids(notes: &[WavObj], class: u8) -> (r: Vec<u16>)
    ensures
        r@.map_values(|k: u16| k as int) == ids_below(notes@, class, 3844),
{
    let mut r: Vec<u16> = Vec::new();
    let mut k: u16 = 0;
    while k < 3844
        invariant
            k <= 3844,
            r@.map_values(|k: u16| k as int) == ids_below(notes@, class, k as int),
        decreases 3844 - k,
    {
        let mut found = false;
        let mut i: usize = 0;
        while i < notes.len()
            invariant
                i <= notes@.len(),
                found == (notes@.take(i as int).filter(
                    |n: WavObj| note_class(n.channel_id) == class && n.wav_id.value() == k,
                ).len() > 0),
            decreases notes@.len() - i,
        {
            proof {
                assert(notes@.take(i + 1).drop_last() =~= notes@.take(i as int));
                notes@.take(i as int).lemma_filter_push(
                    notes@[i as int],
                    |n: WavObj| note_class(n.channel_id) == class && n.wav_id.value() == k,
                );
                assert(notes@.take(i + 1) =~= notes@.take(i as int).push(notes@[i as int]));
            }
            if class_of(notes[i].channel_id) == class && notes[i].wav_id.as_u16() == k {
                found = true;
            }
            i += 1;
        }
        assert(notes@.take(notes@.len() as int) =~= notes@);
        let ghost before = r@;
        if found {
            r.push(k);
            assert(r@.map_values(|k: u16| k as int) =~= before.map_values(|k: u16| k as int).push(k as int));
        }
        k += 1;
    }
    r
}

/// The notes of class `class` playing the sound `k`, in order.
fn notes_with(notes: &[WavObj], class: u8, k: u16) -> (r: Vec<WavObj>)
    ensures
        r@ == notes_of(notes@, class, k as int),
{
    let mut r: Vec<WavObj> = Vec::new();
    let mut i: usize = 0;
    while i < notes.len()
        invariant
            i <= notes@.len(),
            r@ == notes@.take(i as int).filter(
                |n: WavObj| note_class(n.channel_id) == class && n.wav_id.value() == k,
            ),
        decreases notes@.len() - i,
    {
        proof {
            assert(notes@.take(i + 1).drop_last() =~= notes@.take(i as int));
            notes@.take(i as int).lemma_filter_push(
                notes@[i as int],
                |n: WavObj| note_class(n.channel_id) == class && n.wav_id.value() == k,
            );
            assert(notes@.take(i + 1) =~= notes@.take(i as int).push(notes@[i as int]));
        }
        if class_of(notes[i].channel_id) == class && notes[i].wav_id.as_u16() == k {
            r.push(notes[i]);
        }
        i += 1;
    }
    assert(notes@.take(notes@.len() as int) =~= notes@);
    r
}

/// Whether the pulses of every note can be computed.
pub open spec fn notes_fit(c: PulseConverter, notes: Seq<WavObj>) -> bool {
    forall|i: int| 0 <= i < notes.len() ==> c.fits(#[trigger] notes[i].offset)
}

/// Every note kept by a filter fits when every note fits.
proof fn lemma_filter_fits(c: PulseConverter, s: Seq<WavObj>, pred: spec_fn(WavObj) -> bool)
    requires
        notes_fit(c, s),
    ensures
        notes_fit(c, s.filter(pred)),
    decreases s.len(),
{
    reveal(Seq::filter);
    if s.len() > 0 {
        assert(notes_fit(c, s.drop_last())) by {
            assert forall|i: int| 0 <= i < s.drop_last().len() implies c.fits(
                #[trigger] s.drop_last()[i].offset,
            ) by {
                assert(s.drop_last()[i] == s[i]);
            }
        }
        lemma_filter_fits(c, s.drop_last(), pred);
        assert(c.fits(s.last().offset));
    }
}

/// The notes of one sound and class fit when every note fits.
proof fn lemma_notes_of_fit(c: PulseConverter, notes: Seq<WavObj>, class: u8, k: int)
    requires
        notes_fit(c, notes),
    ensures
        notes_fit(c, notes_of(notes, class, k)),
{
    lemma_filter_fits(c, notes, |n: WavObj| note_class(n.channel_id) == class && n.wav_id.value() == k);
}

/// The bmson note of a note of a sound channel.
fn make_sound_note(c: &PulseConverter, notes: &[WavObj], n: WavObj, ln: LnMode) -> (r: Note)
    requires
        notes_fit(*c, notes@),
        c.fits(n.offset),
    ensures
        r == sound_note(*c, notes@, n, ln),
{
    let y = c.get_pulses_at(n.offset);
    let long = match KeyLayoutBeat::from_channel_id(n.channel_id) {
        Some(m) => match m.kind() {
            NoteKind::Long => true,
            _ => false,
        },
        None => false,
    };
    let l = if long {
        match next_on_channel(notes, &n.offset, n.channel_id) {
            Some(j) => {
                proof {
                    lemma_earliest_after_bounds(notes@, n.offset, n.channel_id, notes@.len() as int);
                }
                assert(c.fits(notes@[j as int].offset));
                let other = c.get_pulses_at(notes[j].offset);
                y.abs_diff(other)
            },
            None => 0,
        }
    } else {
        0
    };
    Note { y, x: lane_of_note(n.channel_id), l, c: false, t: Some(ln), up: Some(false) }
}

/// The sound channels: one for each sound that visible or long notes play, in ascending
/// order of its id, named by its file under the root, with those notes in order.
pub open spec fn sound_channels_fit(
    c: PulseConverter,
    notes: Seq<WavObj>,
    root: Seq<char>,
    files: ObjIdMap<String>,
    ln: LnMode,
    r: Seq<SoundChannel>,
) -> bool {
    let ids = ids_below(notes, 0, 3844);
    &&& r.len() == ids.len()
    &&& forall|i: int|
        0 <= i < r.len() ==> {
            &&& (#[trigger] r[i]).name@ == channel_name(root, files, ids[i])
            &&& r[i].notes@ == notes_of(notes, 0, ids[i]).map_values(|n: WavObj| sound_note(c, notes, n, ln))
        }
}

/// The landmine events of a landmine channel: the lane, the pulse and the damage text.
pub open spec fn mine_view(e: MineEvent) -> (u8, PulseNumber, Seq<char>) {
    (e.x, e.y, e.damage.text())
}

/// The landmine channels: one for each sound that landmines play, as for sound channels;
/// each landmine does a damage of `100`.
pub open spec fn mine_channels_fit(
    c: PulseConverter,
    notes: Seq<WavObj>,
    root: Seq<char>,
    files: ObjIdMap<String>,
    r: Seq<MineChannel>,
) -> bool {
    let ids = ids_below(notes, 1, 3844);
    &&& r.len() == ids.len()
    &&& forall|i: int|
        0 <= i < r.len() ==> {
            &&& (#[trigger] r[i]).name@ == channel_name(root, files, ids[i])
            &&& r[i].notes@.map_values(|e: MineEvent| mine_view(e)) == notes_of(notes, 1, ids[i]).map_values(
                |n: WavObj| (note_lane(n.channel_id), pulse_of(c, n.offset), "100"@),
            )
        }
}

/// The invisible note channels: one for each sound that invisible notes or notes off the
/// beat layout play, as for sound channels.
pub open spec fn key_channels_fit(
    c: PulseConverter,
    notes: Seq<WavObj>,
    root: Seq<char>,
    files: ObjIdMap<String>,
    r: Seq<KeyChannel>,
) -> bool {
    let ids = ids_below(notes, 2, 3844);
    &&& r.len() == ids.len()
    &&& forall|i: int|
        0 <= i < r.len() ==> {
            &&& (#[trigger] r[i]).name@ == channel_name(root, files, ids[i])
            &&& r[i].notes@ == notes_of(notes, 2, ids[i]).map_values(
                |n: WavObj| KeyEvent { x: note_lane(n.channel_id), y: pulse_of(c, n.offset) },
            )
        }
}

/// The file name of the channel of the sound `k`.
fn name_of_channel(root: &str, files: &ObjIdMap<String>, k: u16) -> (r: String)
    ensures
        r@ == channel_name(root@, *files, k as int),
{
    match files.get_at(k) {
        Some(f) => join_path(root, f.as_str()),
        None => {
            proof {
                reveal_strlit("");
            }
            join_path(root, "")
        },
    }
}

/// Builds the sound channels.
fn sound_channels_of(
    c: &PulseConverter,
    notes: &[WavObj],
    root: &str,
    files: &ObjIdMap<String>,
    ln: LnMode,
) -> (r: Vec<SoundChannel>)
    requires
        notes_fit(*c, notes@),
    ensures
        sound_channels_fit(*c, notes@, root@, *files, ln, r@),
{
    let ids = class_ids(notes, 0);
    let ghost idv = ids@.map_values(|k: u16| k as int);
    let mut r: Vec<SoundChannel> = Vec::new();
    let mut i: usize = 0;
    while i < ids.len()
        invariant
            i <= ids@.len(),
            notes_fit(*c, notes@),
            idv == ids_below(notes@, 0, 3844),
            idv == ids@.map_values(|k: u16| k as int),
            r@.len() == i,
            forall|j: int|
                0 <= j < i ==> {
                    &&& (#[trigger] r@[j]).name@ == channel_name(root@, *files, idv[j])
                    &&& r@[j].notes@ == notes_of(notes@, 0, idv[j]).map_values(
                        |n: WavObj| sound_note(*c, notes@, n, ln),
                    )
                },
        decreases ids@.len() - i,
    {
        let k = ids[i];
        let mine = notes_with(notes, 0, k);
        proof {
            lemma_notes_of_fit(*c, notes@, 0, k as int);
        }
        let mut out: Vec<Note> = Vec::new();
        let mut j: usize = 0;
        while j < mine.len()
            invariant
                j <= mine@.len(),
                notes_fit(*c, notes@),
                notes_fit(*c, mine@),
                mine@ == notes_of(notes@, 0, k as int),
                out@ == mine@.take(j as int).map_values(|n: WavObj| sound_note(*c, notes@, n, ln)),
            decreases mine@.len() - j,
        {
            assert(c.fits(mine@[j as int].offset));
            let n = make_sound_note(c, notes, mine[j], ln);
            out.push(n);
            assert(out@ =~= mine@.take(j + 1).map_values(|n: WavObj| sound_note(*c, notes@, n, ln)));
            j += 1;
        }
        assert(mine@.take(mine@.len() as int) =~= mine@);
        let name = name_of_channel(root, files, k);
        assert(idv[i as int] == k as int);
        r.push(SoundChannel { name, notes: out });
        i += 1;
    }
    r
}

/// Builds the landmine channels.
fn mine_channels_of(c: &PulseConverter, notes: &[WavObj], root: &str, files: &ObjIdMap<String>) -> (r: Vec<
    MineChannel,
>)
    requires
        notes_fit(*c, notes@),
    ensures
        mine_channels_fit(*c, notes@, root@, *files, r@),
{
    let ids = class_ids(notes, 1);
    let ghost idv = ids@.map_values(|k: u16| k as int);
    let mut r: Vec<MineChannel> = Vec::new();
    let mut i: usize = 0;
    while i < ids.len()
        invariant
            i <= ids@.len(),
            notes_fit(*c, notes@),
            idv == ids_below(notes@, 1, 3844),
            idv == ids@.map_values(|k: u16| k as int),
            r@.len() == i,
            forall|j: int|
                0 <= j < i ==> {
                    &&& (#[trigger] r@[j]).name@ == channel_name(root@, *files, idv[j])
                    &&& r@[j].notes@.map_values(|e: MineEvent| mine_view(e)) == notes_of(notes@, 1, idv[j]).map_values(
                        |n: WavObj| (note_lane(n.channel_id), pulse_of(*c, n.offset), "100"@),
                    )
                },
        decreases ids@.len() - i,
    {
        let k = ids[i];
        let these = notes_with(notes, 1, k);
        proof {
            lemma_notes_of_fit(*c, notes@, 1, k as int);
        }
        let mut out: Vec<MineEvent> = Vec::new();
        let mut j: usize = 0;
        while j < these.len()
            invariant
                j <= these@.len(),
                notes_fit(*c, these@),
                out@.map_values(|e: MineEvent| mine_view(e)) == these@.take(j as int).map_values(
                    |n: WavObj| (note_lane(n.channel_id), pulse_of(*c, n.offset), "100"@),
                ),
            decreases these@.len() - j,
        {
            assert(c.fits(these@[j as int].offset));
            let n = these[j];
            let y = c.get_pulses_at(n.offset);
            proof {
                reveal_strlit("100");
            }
            let ghost before = out@;
            out.push(MineEvent { x: lane_of_note(n.channel_id), y, damage: StringValue::new("100") });
            assert(out@.map_values(|e: MineEvent| mine_view(e)) =~= before.map_values(|e: MineEvent| mine_view(e)).push(
                (note_lane(n.channel_id), pulse_of(*c, n.offset), "100"@),
            ));
            assert(out@.map_values(|e: MineEvent| mine_view(e)) =~= these@.take(j + 1).map_values(
                |n: WavObj| (note_lane(n.channel_id), pulse_of(*c, n.offset), "100"@),
            ));
            j += 1;
        }
        assert(these@.take(these@.len() as int) =~= these@);
        let name = name_of_channel(root, files, k);
        assert(idv[i as int] == k as int);
        r.push(MineChannel { name, notes: out });
        i += 1;
    }
    r
}

/// Builds the invisible note channels.
fn key_channels_of(c: &PulseConverter, notes: &[WavObj], root: &str, files: &ObjIdMap<String>) -> (r: Vec<
    KeyChannel,
>)
    requires
        notes_fit(*c, notes@),
    ensures
        key_channels_fit(*c, notes@, root@, *files, r@),
{
    let ids = class_ids(notes, 2);
    let ghost idv = ids@.map_values(|k: u16| k as int);
    let mut r: Vec<KeyChannel> = Vec::new();
    let mut i: usize = 0;
    while i < ids.len()
        invariant
            i <= ids@.len(),
            notes_fit(*c, notes@),
            idv == ids_below(notes@, 2, 3844),
            idv == ids@.map_values(|k: u16| k as int),
            r@.len() == i,
            forall|j: int|
                0 <= j < i ==> {
                    &&& (#[trigger] r@[j]).name@ == channel_name(root@, *files, idv[j])
                    &&& r@[j].notes@ == notes_of(notes@, 2, idv[j]).map_values(
                        |n: WavObj| KeyEvent { x: note_lane(n.channel_id), y: pulse_of(*c, n.offset) },
                    )
                },
        decreases ids@.len() - i,
    {
        let k = ids[i];
        let these = notes_with(notes, 2, k);
        proof {
            lemma_notes_of_fit(*c, notes@, 2, k as int);
        }
        let mut out: Vec<KeyEvent> = Vec::new();
        let mut j: usize = 0;
        while j < these.len()
            invariant
                j <= these@.len(),
                notes_fit(*c, these@),
                out@ == these@.take(j as int).map_values(
                    |n: WavObj| KeyEvent { x: note_lane(n.channel_id), y: pulse_of(*c, n.offset) },
                ),
            decreases these@.len() - j,
        {
            assert(c.fits(these@[j as int].offset));
            let n = these[j];
            let y = c.get_pulses_at(n.offset);
            out.push(KeyEvent { x: lane_of_note(n.channel_id), y });
            assert(out@ =~= these@.take(j + 1).map_values(
                |n: WavObj| KeyEvent { x: note_lane(n.channel_id), y: pulse_of(*c, n.offset) },
            ));
            j += 1;
        }
        assert(these@.take(these@.len() as int) =~= these@);
        let name = name_of_channel(root, files, k);
        assert(idv[i as int] == k as int);
        r.push(KeyChannel { name, notes: out });
        i += 1;
    }
    r
}

/// The picture event of a picture change.
pub open spec fn bga_event_of(c: PulseConverter, o: BgaObj) -> BgaEvent {
    BgaEvent { y: pulse_of(c, o.time), id: BgaId(o.id.value() as u32) }
}

/// The picture events of the changes on the layers that `on` picks, in order.
pub open spec fn events_on(
    c: PulseConverter,
    es: Seq<(ObjTime, u8, BgaObj)>,
    on: spec_fn(BgaLayer) -> bool,
) -> Seq<BgaEvent> {
    es.filter(|e: (ObjTime, u8, BgaObj)| on(e.2.layer)).map_values(
        |e: (ObjTime, u8, BgaObj)| bga_event_of(c, e.2),
    )
}

/// The bmson pictures of a score: a file for each defined picture in ascending order of
/// its id, the base layer changes, the overlay changes (both overlay layers) and the miss
/// layer changes.
pub open spec fn bga_fits(c: PulseConverter, files: ObjIdMap<Bmp>, es: Seq<(ObjTime, u8, BgaObj)>, r: Bga) -> bool {
    let hs = r.bga_header@;
    &&& forall|i: int, j: int| 0 <= i < j < hs.len() ==> hs[i].id.0 < hs[j].id.0
    &&& forall|i: int|
        0 <= i < hs.len() ==> ((#[trigger] files.at(hs[i].id.0 as int)) matches Some(b) && hs[i].name
            == b.file)
    &&& forall|k: int|
        #![trigger files.at(k)]
        0 <= k < 3844 && files.at(k) is Some ==> exists|i: int| 0 <= i < hs.len() && #[trigger] hs[i].id.0 == k
    &&& r.bga_events@ == events_on(c, es, |l: BgaLayer| l == BgaLayer::Base)
    &&& r.layer_events@ == events_on(c, es, |l: BgaLayer| l == BgaLayer::Overlay || l == BgaLayer::Overlay2)
    &&& r.poor_events@ == events_on(c, es, |l: BgaLayer| l == BgaLayer::Poor)
}

/// The picture events of the changes on the layers that `on` picks.
fn events_on_layers(
    c: &PulseConverter,
    es: &[(ObjTime, u8, BgaObj)],
    Ghost(on): Ghost<spec_fn(BgaLayer) -> bool>,
    base: bool,
    overlay: bool,
    poor: bool,
) -> (r: Vec<BgaEvent>)
    requires
        forall|l: BgaLayer| #[trigger] on(l) == match l {
            BgaLayer::Base => base,
            BgaLayer::Overlay => overlay,
            BgaLayer::Overlay2 => overlay,
            BgaLayer::Poor => poor,
        },
        forall|i: int| 0 <= i < es@.len() ==> c.fits(#[trigger] es@[i].2.time),
    ensures
        r@ == events_on(*c, es@, on),
{
    let ghost pred = |e: (ObjTime, u8, BgaObj)| on(e.2.layer);
    let mut kept: Vec<BgaObj> = Vec::new();
    let mut r: Vec<BgaEvent> = Vec::new();
    let mut i: usize = 0;
    while i < es.len()
        invariant
            i <= es@.len(),
            forall|l: BgaLayer| #[trigger] on(l) == match l {
                BgaLayer::Base => base,
                BgaLayer::Overlay => overlay,
                BgaLayer::Overlay2 => overlay,
                BgaLayer::Poor => poor,
            },
            forall|j: int| 0 <= j < es@.len() ==> c.fits(#[trigger] es@[j].2.time),
            pred == (|e: (ObjTime, u8, BgaObj)| on(e.2.layer)),
            r@ == es@.take(i as int).filter(pred).map_values(|e: (ObjTime, u8, BgaObj)| bga_event_of(*c, e.2)),
        decreases es@.len() - i,
    {
        proof {
            assert(es@.take(i + 1).drop_last() =~= es@.take(i as int));
            es@.take(i as int).lemma_filter_push(es@[i as int], pred);
            assert(es@.take(i + 1) =~= es@.take(i as int).push(es@[i as int]));
        }
        let o = es[i].2;
        let take = match o.layer {
            BgaLayer::Base => base,
            BgaLayer::Overlay => overlay,
            BgaLayer::Overlay2 => overlay,
            BgaLayer::Poor => poor,
        };
        assert(take == pred(es@[i as int]));
        let ghost before = r@;
        if take {
            assert(c.fits(es@[i as int].2.time));
            let y = c.get_pulses_at(o.time);
            let id = o.id.as_u16() as u32;
            r.push(BgaEvent { y, id: BgaId(id) });
            assert(r@ =~= before.push(bga_event_of(*c, o)));
        }
        assert(r@ =~= es@.take(i + 1).filter(pred).map_values(|e: (ObjTime, u8, BgaObj)| bga_event_of(*c, e.2)));
        i += 1;
    }
    assert(es@.take(es@.len() as int) =~= es@);
    r
}

/// Builds the bmson pictures of a score.
fn bga_of(c: &PulseConverter, files: &ObjIdMap<Bmp>, es: &[(ObjTime, u8, BgaObj)]) -> (r: Bga)
    requires
        forall|i: int| 0 <= i < es@.len() ==> c.fits(#[trigger] es@[i].2.time),
    ensures
        bga_fits(*c, *files, es@, r),
{
    let ids = files.keys();
    let mut hs: Vec<BgaHeader> = Vec::new();
    let mut i: usize = 0;
    while i < ids.len()
        invariant
            i <= ids@.len(),
            hs@.len() == i,
            forall|j: int| 0 <= j < ids@.len() ==> files.spec_get(#[trigger] ids@[j]) is Some,
            forall|a: int, b: int| 0 <= a < b < ids@.len() ==> ids@[a].value() < ids@[b].value(),
            forall|j: int| 0 <= j < i ==> (#[trigger] hs@[j]).id.0 == ids@[j].value(),
            forall|j: int|
                0 <= j < i ==> ((#[trigger] files.at(hs@[j].id.0 as int)) matches Some(b) && hs@[j].name == b.file),
        decreases ids@.len() - i,
    {
        let id = ids[i];
        let k = id.as_u16();
        let name = match files.get(&id) {
            Some(b) => b.file.clone(),
            None => String::new(),
        };
        hs.push(BgaHeader { id: BgaId(k as u32), name });
        i += 1;
    }
    let base = events_on_layers(c, es, Ghost(|l: BgaLayer| l == BgaLayer::Base), true, false, false);
    let overlay = events_on_layers(
        c,
        es,
        Ghost(|l: BgaLayer| l == BgaLayer::Overlay || l == BgaLayer::Overlay2),
        false,
        true,
        false,
    );
    let poor = events_on_layers(c, es, Ghost(|l: BgaLayer| l == BgaLayer::Poor), false, false, true);
    let r = Bga { bga_header: hs, bga_events: base, layer_events: overlay, poor_events: poor };
    assert forall|k: int|
        #![trigger files.at(k)]
        0 <= k < 3844 && files.at(k) is Some implies exists|i: int|
            0 <= i < r.bga_header@.len() && #[trigger] r.bga_header@[i].id.0 == k by {
        let i = choose|i: int| 0 <= i < ids@.len() && #[trigger] ids@[i].value() == k;
        assert(r.bga_header@[i].id.0 == k);
    }
    r
}

/// The outcome of writing a score as a bmson chart.
pub struct BmsToBmsonOutput {
    /// The chart.
    pub bmson: Bmson,
    /// Warnings of the conversion.
    pub warnings: Vec<BmsToBmsonWarning>,
}

/// The text of a value, or `default` when there is none.
pub open spec fn text_or(o: Option<String>, default: Seq<char>) -> Seq<char> {
    match o {
        Some(s) => s@,
        None => default,
    }
}

/// The tempo at the start to write: `120` when there is none or it is no positive number.
pub open spec fn start_bpm(bms: Bms) -> Seq<char> {
    match bms.bpm.bpm {
        Some(v) => usable_bpm(v.text()),
        None => "120"@,
    }
}

/// The gauge total to write: `100` when there is none or it is no finite number.
pub open spec fn gauge_total(bms: Bms) -> Seq<char> {
    match bms.judge.total {
        Some(v) => if fin_f64_error(v.text()) is None {
            v.text()
        } else {
            "100"@
        },
        None => "100"@,
    }
}

/// The information of the chart written from a score.
pub open spec fn info_fits(bms: Bms, resolution: u64, info: BmsonInfo) -> bool {
    &&& info.title@ == text_or(bms.music_info.title, Seq::empty())
    &&& info.subtitle@ == text_or(bms.music_info.subtitle, Seq::empty())
    &&& info.artist@ == text_or(bms.music_info.artist, Seq::empty())
    &&& info.subartists@.len() == 1
    &&& info.subartists@[0]@ == text_or(bms.music_info.sub_artist, Seq::empty())
    &&& info.genre@ == text_or(bms.music_info.genre, Seq::empty())
    &&& info.mode_hint@ == spec_mode_hint(bms.wav.notes@)
    &&& info.chart_name@ == Seq::<char>::empty()
    &&& info.level == (match bms.metadata.play_level {
        Some(l) => l as u32,
        None => 0u32,
    })
    &&& info.init_bpm.text() == start_bpm(bms)
    &&& info.judge_rank == judge_rank_ratio(bms.judge.rank)
    &&& info.total.text() == gauge_total(bms)
    &&& info.back_image == bms.sprite.back_bmp
    &&& info.eyecatch_image == bms.sprite.stage_file
    &&& info.title_image == bms.sprite.back_bmp
    &&& info.banner_image == bms.sprite.banner
    &&& info.preview_music is None
    &&& info.resolution == (if resolution == 0 {
        1
    } else {
        resolution
    })
    &&& info.ln_type == bms.repr.ln_mode
}

/// The warnings of writing the information: the tempo at the start missing or no positive
/// number, then the gauge total missing or no finite number.
pub open spec fn info_warnings(bms: Bms) -> Seq<BmsToBmsonWarning> {
    let bpm: Seq<BmsToBmsonWarning> = match bms.bpm.bpm {
        None => seq![BmsToBmsonWarning::MissingBpm],
        Some(v) => if positive_f64_error(v.text()) is Some {
            seq![BmsToBmsonWarning::InvalidBpm]
        } else {
            Seq::empty()
        },
    };
    let total: Seq<BmsToBmsonWarning> = match bms.judge.total {
        None => seq![BmsToBmsonWarning::MissingTotal],
        Some(v) => if fin_f64_error(v.text()) is Some {
            seq![BmsToBmsonWarning::InvalidTotal]
        } else {
            Seq::empty()
        },
    };
    bpm + total
}

/// Copies an optional text.
fn copy_text(o: &Option<String>) -> (r: Option<String>)
    ensures
        r == *o,
{
    match o {
        Some(s) => Some(s.clone()),
        None => None,
    }
}

/// The text of a value, or the empty text.
fn text_or_empty(o: &Option<String>) -> (r: String)
    ensures
        r@ == text_or(*o, Seq::empty()),
{
    match o {
        Some(s) => s.clone(),
        None => String::new(),
    }
}

/// Writes the information of the chart.
fn info_of(bms: &Bms, resolution: u64, warnings: &mut Vec<BmsToBmsonWarning>) -> (r: BmsonInfo)
    ensures
        info_fits(*bms, resolution, r),
        final(warnings)@ == old(warnings)@ + info_warnings(*bms),
{
    proof {
        reveal_strlit("120");
        reveal_strlit("100");
    }
    let init_bpm = match &bms.bpm.bpm {
        None => {
            warnings.push(BmsToBmsonWarning::MissingBpm);
            StringValue::new("120")
        },
        Some(v) => {
            if positive_f64_check(v.raw()).is_none() {
                v.clone()
            } else {
                warnings.push(BmsToBmsonWarning::InvalidBpm);
                StringValue::new("120")
            }
        },
    };
    let ghost after_bpm = warnings@;
    let total = match &bms.judge.total {
        None => {
            warnings.push(BmsToBmsonWarning::MissingTotal);
            StringValue::new("100")
        },
        Some(v) => {
            if fin_f64_check(v.raw()).is_none() {
                v.clone()
            } else {
                warnings.push(BmsToBmsonWarning::InvalidTotal);
                StringValue::new("100")
            }
        },
    };
    assert(warnings@ =~= old(warnings)@ + info_warnings(*bms));
    let mut subartists: Vec<String> = Vec::new();
    subartists.push(text_or_empty(&bms.music_info.sub_artist));
    let level: u32 = match bms.metadata.play_level {
        Some(l) => l as u32,
        None => 0,
    };
    BmsonInfo {
        title: text_or_empty(&bms.music_info.title),
        subtitle: text_or_empty(&bms.music_info.subtitle),
        artist: text_or_empty(&bms.music_info.artist),
        subartists,
        genre: text_or_empty(&bms.music_info.genre),
        mode_hint: mode_hint_of(bms.wav.notes.all_notes()),
        chart_name: String::new(),
        level,
        init_bpm,
        judge_rank: judge_rank_of(bms.judge.rank),
        total,
        back_image: copy_text(&bms.sprite.back_bmp),
        eyecatch_image: copy_text(&bms.sprite.stage_file),
        title_image: copy_text(&bms.sprite.back_bmp),
        banner_image: copy_text(&bms.sprite.banner),
        preview_music: None,
        resolution: if resolution == 0 {
            1
        } else {
            resolution
        },
        ln_type: bms.repr.ln_mode,
    }
}

/// Whether the pulses of every object that a score writes can be computed: tempo changes,
/// stops of a non-negative length, notes, picture changes and scrolling changes of a finite
/// factor.
pub open spec fn pulses_fit(c: PulseConverter, bms: Bms) -> bool {
    &&& forall|i: int| 0 <= i < bms.bpm.bpm_changes@.len() ==> c.fits(#[trigger] bms.bpm.bpm_changes@[i].2.time)
    &&& forall|i: int|
        0 <= i < bms.stop.stops@.len() && non_negative_f64_error(
            #[trigger] bms.stop.stops@[i].duration.text(),
        ) is None ==> c.fits(bms.stop.stops@[i].time)
    &&& notes_fit(c, bms.wav.notes@)
    &&& forall|i: int| 0 <= i < bms.bmp.bga_changes@.len() ==> c.fits(#[trigger] bms.bmp.bga_changes@[i].2.time)
    &&& forall|i: int|
        0 <= i < bms.scroll.scrolling_factor_changes@.len() && fin_f64_error(
            #[trigger] bms.scroll.scrolling_factor_changes@[i].2.factor.text(),
        ) is None ==> c.fits(bms.scroll.scrolling_factor_changes@[i].2.time)
}

/// The chart written from a score.
pub open spec fn bmson_fits(bms: Bms, c: PulseConverter, last_track: u64, b: Bmson) -> bool {
    let notes = bms.wav.notes@;
    let root = text_or(bms.metadata.wav_path_root, Seq::empty());
    &&& b.version@ == "1.0.0"@
    &&& info_fits(bms, c.spec_resolution(), b.info)
    &&& b.lines matches Some(ls) && ls@ == spec_bar_lines(c, last_track)
    &&& b.bpm_events@.map_values(|e: BpmEvent| bpm_view(e)) == spec_bpm_events(c, bms.bpm.bpm_changes@)
    &&& b.stop_events@ == spec_stop_events(c, bms.stop.stops@)
    &&& sound_channels_fit(c, notes, root, bms.wav.wav_files, bms.repr.ln_mode, b.sound_channels@)
    &&& mine_channels_fit(c, notes, root, bms.wav.wav_files, b.mine_channels@)
    &&& key_channels_fit(c, notes, root, bms.wav.wav_files, b.key_channels@)
    &&& bga_fits(c, bms.bmp.bmp_files, bms.bmp.bga_changes@, b.bga)
    &&& b.scroll_events@.map_values(|e: ScrollEvent| scroll_view(e)) == spec_scroll_events(
        c,
        bms.scroll.scrolling_factor_changes@,
    )
}

/// The warnings of writing a score: a tempo change that is no positive number, then those of
/// the information, then a scrolling factor that is no finite number.
pub open spec fn bmson_warnings(bms: Bms) -> Seq<BmsToBmsonWarning> {
    warned(BmsToBmsonWarning::InvalidBpm, bad_bpms(bms.bpm.bpm_changes@, bms.bpm.bpm_changes@.len() as int))
        + info_warnings(bms) + warned(
        BmsToBmsonWarning::InvalidScrollingFactor,
        bad_scrolls(bms.scroll.scrolling_factor_changes@, bms.scroll.scrolling_factor_changes@.len() as int),
    )
}

impl Bms {
    /// Writes the score as a bmson chart, with positions converted to pulses by `converter`
    /// and bar lines up to `last_track`. Channels are listed in ascending order of their
    /// sound ids, picture files in ascending order of their ids.
    pub fn to_bmson(&self, converter: &PulseConverter, last_track: u64) -> (r: BmsToBmsonOutput)
        requires
            pulses_fit(*converter, *self),
        ensures
            bmson_fits(*self, *converter, last_track, r.bmson),
            r.warnings@ == bmson_warnings(*self),
    {
        let mut warnings: Vec<BmsToBmsonWarning> = Vec::new();
        let lines = bar_lines(converter, last_track);
        let bpm_events = bpm_events_of(converter, self.bpm.bpm_changes.entries(), &mut warnings);
        let stop_events = stop_events_of(converter, self.stop.stops.as_slice());
        let info = info_of(self, converter.resolution(), &mut warnings);
        let notes = self.wav.notes.all_notes();
        let root = text_or_empty(&self.metadata.wav_path_root);
        let sound_channels = sound_channels_of(
            converter,
            notes,
            root.as_str(),
            &self.wav.wav_files,
            self.repr.ln_mode,
        );
        let mine_channels = mine_channels_of(converter, notes, root.as_str(), &self.wav.wav_files);
        let key_channels = key_channels_of(converter, notes, root.as_str(), &self.wav.wav_files);
        let bga = bga_of(converter, &self.bmp.bmp_files, self.bmp.bga_changes.entries());
        let scroll_events = scroll_events_of(
            converter,
            self.scroll.scrolling_factor_changes.entries(),
            &mut warnings,
        );
        proof {
            reveal_strlit("1.0.0");
            assert(warnings@ =~= bmson_warnings(*self));
        }
        let bmson = Bmson {
            version: owned("1.0.0"),
            info,
            lines: Some(lines),
            bpm_events,
            stop_events,
            sound_channels,
            bga,
            scroll_events,
            mine_channels,
            key_channels,
        };
        BmsToBmsonOutput { bmson, warnings }
    }
}

/// The largest of `init` and the numbers of `xs`.
pub open spec fn max_of(init: u64, xs: Seq<u64>) -> u64
    decreases xs.len(),
{
    if xs.len() == 0 {
        init
    } else {
        let m = max_of(init, xs.drop_last());
        if xs.last() > m {
            xs.last()
        } else {
            m
        }
    }
}

/// The tracks of the positions of timeline entries, in their order.
pub open spec fn entry_tracks<T>(es: Seq<(ObjTime, u8, T)>) -> Seq<u64> {
    es.map_values(|e: (ObjTime, u8, T)| e.0.track_of())
}

/// The tracks of every object of a score that takes room in it: notes, tempo changes, stops,
/// scrolling and spacing changes, picture changes and section lengths.
pub open spec fn object_tracks(bms: Bms) -> Seq<u64> {
    bms.wav.notes@.map_values(|n: WavObj| n.offset.track_of()) + entry_tracks(bms.bpm.bpm_changes@)
        + bms.stop.stops@.map_values(|o: StopObj| o.time.track_of()) + entry_tracks(
        bms.scroll.scrolling_factor_changes@,
    ) + entry_tracks(bms.speed.speed_factor_changes@) + entry_tracks(bms.bmp.bga_changes@)
        + entry_tracks(bms.section_len.section_len_changes@)
}

/// Appends the tracks of timeline entries.
fn push_entry_tracks<T>(out: &mut Vec<u64>, es: &[(ObjTime, u8, T)])
    ensures
        final(out)@ == old(out)@ + entry_tracks(es@),
{
    let ghost start = out@;
    let mut i: usize = 0;
    while i < es.len()
        invariant
            i <= es@.len(),
            out@ == start + entry_tracks(es@.take(i as int)),
        decreases es@.len() - i,
    {
        out.push(es[i].0.track().0);
        assert(entry_tracks(es@.take(i + 1)) =~= entry_tracks(es@.take(i as int)).push(es@[i as int].0.track_of()));
        i += 1;
    }
    assert(es@.take(es@.len() as int) =~= es@);
}

/// The track of the last object of a score that takes room in it, `0` when there is none:
/// the number of the last track that a chart of the score must cover.
pub fn last_track(bms: &Bms) -> (r: u64)
    ensures
        r == max_of(0, object_tracks(*bms)),
{
    let mut tracks: Vec<u64> = Vec::new();
    let notes = bms.wav.notes.all_notes();
    let mut i: usize = 0;
    while i < notes.len()
        invariant
            i <= notes@.len(),
            notes@ == bms.wav.notes@,
            tracks@ == notes@.take(i as int).map_values(|n: WavObj| n.offset.track_of()),
        decreases notes@.len() - i,
    {
        tracks.push(notes[i].offset.track().0);
        assert(notes@.take(i + 1).map_values(|n: WavObj| n.offset.track_of()) =~= notes@.take(i as int).map_values(
            |n: WavObj| n.offset.track_of(),
        ).push(notes@[i as int].offset.track_of()));
        i += 1;
    }
    assert(notes@.take(notes@.len() as int) =~= notes@);
    push_entry_tracks(&mut tracks, bms.bpm.bpm_changes.entries());
    let ghost before_stops = tracks@;
    let mut j: usize = 0;
    while j < bms.stop.stops.len()
        invariant
            j <= bms.stop.stops@.len(),
            tracks@ == before_stops + bms.stop.stops@.take(j as int).map_values(|o: StopObj| o.time.track_of()),
        decreases bms.stop.stops@.len() - j,
    {
        tracks.push(bms.stop.stops[j].time.track().0);
        assert(bms.stop.stops@.take(j + 1).map_values(|o: StopObj| o.time.track_of()) =~= bms.stop.stops@.take(
            j as int,
        ).map_values(|o: StopObj| o.time.track_of()).push(bms.stop.stops@[j as int].time.track_of()));
        j += 1;
    }
    assert(bms.stop.stops@.take(bms.stop.stops@.len() as int) =~= bms.stop.stops@);
    push_entry_tracks(&mut tracks, bms.scroll.scrolling_factor_changes.entries());
    push_entry_tracks(&mut tracks, bms.speed.speed_factor_changes.entries());
    push_entry_tracks(&mut tracks, bms.bmp.bga_changes.entries());
    push_entry_tracks(&mut tracks, bms.section_len.section_len_changes.entries());
    assert(tracks@ =~= object_tracks(*bms));
    let mut last: u64 = 0;
    let mut k: usize = 0;
    while k < tracks.len()
        invariant
            k <= tracks@.len(),
            last == max_of(0, tracks@.take(k as int)),
        decreases tracks@.len() - k,
    {
        assert(tracks@.take(k + 1).drop_last() =~= tracks@.take(k as int));
        if tracks[k] > last {
            last = tracks[k];
        }
        k += 1;
    }
    assert(tracks@.take(tracks@.len() as int) =~= tracks@);
    last
}

} // verus!
