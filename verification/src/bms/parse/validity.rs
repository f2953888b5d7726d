//! The findings of the validity checks of a score, after parsing or editing.
use crate::bms::command::{ObjId, ObjTime};
use crate::chart::types::{Key, PlayerSide};
use vstd::prelude::*;

verus! {

/// A reference without the definition it needs.
#[derive(Debug, Clone, Copy, PartialEq, Eq, Hash, Structural)]
pub enum ValidityMissing {
    /// A note plays a sound with no `#WAV` definition.
    WavForNote(ObjId),
    /// A background sound with no `#WAV` definition (reserved; the checks report notes).
    WavForBgm(ObjId),
    /// A picture change with no `#BMP`/`#EXBMP` definition.
    BmpForBga(ObjId),
    /// A tempo change with no `#BPMxx` definition.
    BpmChangeDef(ObjId),
    /// A stop with no `#STOPxx` definition.
    StopDef(ObjId),
}

/// An arrangement of notes that cannot be played as written.
#[derive(Debug, Clone, Copy, PartialEq, Eq, Hash, Structural)]
pub enum ValidityInvalid {
    /// A playable note in track 000.
    PlayableNoteInTrackZero { side: PlayerSide, key: Key, time: ObjTime },
    /// Two visible notes at the same position of a lane.
    OverlapVisibleSingleWithSingle { side: PlayerSide, key: Key, time: ObjTime },
    /// A visible note inside a long note of its lane.
    OverlapVisibleSingleWithLong {
        side: PlayerSide,
        key: Key,
        time: ObjTime,
        ln_start: ObjTime,
        ln_end: ObjTime,
    },
    /// A landmine inside a long note of its lane, reported once per long note.
    OverlapsLandmineLongAtStart { side: PlayerSide, key: Key, ln_start: ObjTime, ln_end: ObjTime },
    /// A landmine at the position of a visible note of its lane.
    OverlapLandmineWithSingle { side: PlayerSide, key: Key, time: ObjTime },
}

/// The findings of the validity checks.
#[derive(Debug, Clone, PartialEq, Eq, Hash)]
pub struct ValidityCheckOutput {
    /// References without definitions.
    pub missing: Vec<ValidityMissing>,
    /// Arrangements that cannot be played.
    pub invalid: Vec<ValidityInvalid>,
}

} // verus!
