//! Conversions between bmson charts and scores.
use crate::bms::command::{JudgeLevel, NoteChannelId, ObjId, ObjTime, StringValue, Track};
use crate::bms::error::{PlayingError, PlayingWarning};
use crate::bms::layout::{KeyLayoutBeat, KeyLayoutMapper};
use crate::bms::model::{Bms, ObjIdMap, WavObj};
use crate::bms::objects::{BgaObj, Bmp, BpmChangeObj, ScrollingFactorObj, SectionLenChangeObj, StopObj};
use crate::bms::prompt::AlwaysUseNewer;
use crate::bmson::pulse::PulseNumber;
use crate::bmson::{BgaId, Bmson};
use crate::chart::process::BmsProcessor;
use crate::chart::types::{Argb, BgaLayer, Key, NoteKind, PlayerSide};
use crate::text::{owned, u64_to_text};
use vstd::prelude::*;

verus! {

/// Warnings of converting a score to a bmson chart.
#[derive(Debug, Clone, Copy, PartialEq, Eq, Hash, Structural)]
pub enum BmsToBmsonWarning {
    /// The tempo at the start was not a positive number; 120 was used.
    InvalidBpm,
    /// The gauge total was not a finite number; 100 was used.
    InvalidTotal,
    /// A scrolling factor was not a finite number; the change was left out.
    InvalidScrollingFactor,
    /// The judge rank could not be converted; the normal width was used.
    InvalidJudgeRank,
    /// A stop length was not a non-negative number; the stop was left out.
    InvalidStopDuration,
    /// A note lane was not known; no lane was used.
    InvalidNoteLane,
    /// The score has no tempo at the start; 120 was used.
    MissingBpm,
    /// The score has no gauge total; 100 was used.
    MissingTotal,
}

/// Warnings of converting a bmson chart to a score.
#[derive(Debug, Clone, Copy, PartialEq, Eq, Hash, Structural)]
pub enum BmsonToBmsWarning {
    /// No sound id was left; `00` was used.
    WavObjIdOutOfRange,
    /// No picture id was left; `00` was used.
    BgaHeaderObjIdOutOfRange,
    /// A picture event named no picture; `00` was used.
    BgaEventObjIdOutOfRange,
    /// No tempo id was left; `00` was used.
    BpmDefOutOfRange,
    /// No stop id was left; `00` was used.
    StopDefOutOfRange,
    /// No scrolling id was left; `00` was used.
    ScrollDefOutOfRange,
}

/// The outcome of converting a bmson chart to a score.
pub struct BmsonToBmsOutput {
    /// The score.
    pub bms: Bms,
    /// Warnings of the conversion.
    pub warnings: Vec<BmsonToBmsWarning>,
    /// Findings that make playing the score questionable.
    pub playing_warnings: Vec<PlayingWarning>,
    /// Findings that make the score unplayable.
    pub playing_errors: Vec<PlayingError>,
}

/// The id that `create_obj_id_from_u16` makes of `value`: the two base-62 digits of
/// `value`, the first taken modulo 256 as a byte; none when it is not a digit.
pub open spec fn spec_obj_id_from_u16(value: u16) -> Option<ObjId> {
    let first = ((value / 62) as int) % 256;
    let second = (value % 62) as int;
    if first < 62 {
        Some(ObjId::spec_from_value(first * 62 + second))
    } else {
        None
    }
}

/// The id of the base-62 digits of `value`.
pub fn create_obj_id_from_u16(value: u16) -> (r: Option<ObjId>)
    ensures
        r == spec_obj_id_from_u16(value),
{
    let first = (value / 62) % 256;
    let second = value % 62;
    if first < 62 {
        ObjId::from_u16(first * 62 + second)
    } else {
        None
    }
}

/// Hands out ids in order from `01`.
pub struct ObjIdIssuer(pub u16);

impl ObjIdIssuer {
    /// An issuer starting at `01`.
    pub fn new() -> (r: Self)
        ensures
            r.0 == 1,
    {
        ObjIdIssuer(1)
    }

    /// The next id; none once `62 * 62` is reached.
    pub fn next(&mut self) -> (r: Option<ObjId>)
        ensures
            old(self).0 > 3844 ==> r is None && final(self).0 == old(self).0,
            old(self).0 <= 3844 ==> final(self).0 == old(self).0 + 1 && r == spec_obj_id_from_u16(old(self).0),
    {
        if self.0 > 3844 {
            return None;
        }
        let id = self.0;
        self.0 = self.0 + 1;
        create_obj_id_from_u16(id)
    }
}

/// The position of a pulse in 4/4 measures of `4 * resolution` pulses.
pub open spec fn spec_pulse_time(pulse: u64, resolution: u64) -> ObjTime {
    let per_measure = (resolution * 4) as u64;
    ObjTime::spec_new((pulse / per_measure) as u64, (pulse % per_measure) as u64, per_measure)
}

/// Converts a pulse to a position, taking every measure as 4/4.
pub fn convert_pulse_to_obj_time(pulse: PulseNumber, resolution: u64) -> (r: ObjTime)
    requires
        0 < resolution,
        resolution * 4 <= u64::MAX,
    ensures
        r == spec_pulse_time(pulse.0, resolution),
{
    let per_measure = resolution * 4;
    let track = pulse.0 / per_measure;
    let numerator = pulse.0 % per_measure;
    ObjTime::new(track, numerator, per_measure).unwrap()
}

/// The key and side of a bmson lane: lanes above 8 are player 2's, lanes 1 to 7 keys, 8 the
/// scratch, and anything else key 1.
pub open spec fn spec_lane_key_side(lane: u8) -> (Key, PlayerSide) {
    let (adjusted, side) = if lane > 8 {
        ((lane - 8) as u8, PlayerSide::Player2)
    } else {
        (lane, PlayerSide::Player1)
    };
    let key = if 1 <= adjusted <= 7 {
        Key::Key(adjusted)
    } else if adjusted == 8 {
        Key::Scratch(1)
    } else {
        Key::Key(1)
    };
    (key, side)
}

/// Converts a bmson lane (`0` for none) to a key and player side.
pub fn convert_lane_to_key_side(lane: u8) -> (r: (Key, PlayerSide))
    ensures
        r == spec_lane_key_side(lane),
{
    let (adjusted, side) = if lane > 8 {
        (lane - 8, PlayerSide::Player2)
    } else {
        (lane, PlayerSide::Player1)
    };
    let key = if 1 <= adjusted && adjusted <= 7 {
        Key::Key(adjusted)
    } else if adjusted == 8 {
        Key::Scratch(1)
    } else {
        Key::Key(1)
    };
    (key, side)
}

/// The channel of a note of a bmson lane and kind in the beat layout. A sound note without
/// lane (`0`) is a background sound, on the channel `01`, which stands for no key.
pub open spec fn lane_channel(lane: u8, kind: NoteKind) -> NoteChannelId {
    if lane == 0 && (kind is Visible || kind is Long) {
        NoteChannelId { first: 48, second: 49 }
    } else {
        let (key, side) = spec_lane_key_side(lane);
        KeyLayoutBeat::spec_from_parts(side, kind, key).spec_to_channel_id()
    }
}

/// Makes the channel of a note of a bmson lane and kind, as `lane_channel` says.
pub(crate) fn make_lane_channel(lane: u8, kind: NoteKind) -> (r: NoteChannelId)
    ensures
        r == lane_channel(lane, kind),
{
    let sound = match kind {
        NoteKind::Visible | NoteKind::Long => true,
        _ => false,
    };
    if lane == 0 && sound {
        return NoteChannelId::bgm();
    }
    let (key, side) = convert_lane_to_key_side(lane);
    KeyLayoutBeat::from_tuple((side, kind, key)).to_channel_id()
}

/// A sound note without lane maps to no key of the beat layout: it is a background sound.
pub proof fn lemma_laneless_note_is_background(kind: NoteKind)
    requires
        kind is Visible || kind is Long,
    ensures
        KeyLayoutBeat::spec_from_channel_id(lane_channel(0, kind)) is None,
{
}

} // verus!
