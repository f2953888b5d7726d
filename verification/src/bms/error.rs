//! Warnings and errors of parsing and of checking a score for play.
use crate::bms::command::{Channel, ObjId, ObjTime, Track};
use vstd::prelude::*;

verus! {

/// A problem found while parsing that does not stop the parse.
#[derive(Debug, PartialEq, Eq)]
pub enum ParseWarning {
    /// The syntax of a command was wrong.
    SyntaxError(String),
    /// An object refers to an id that no definition gave.
    UndefinedObject(ObjId),
    /// A definition was given twice for one id.
    DuplicatingDef(ObjId),
    /// A track-wide object was given twice for one track.
    DuplicatingTrackObj(Track, Channel),
    /// An object was given twice for one position and channel.
    DuplicatingChannelObj(ObjTime, Channel),
    /// `#BASE` with another base than 62.
    OutOfBase62,
}

impl Clone for ParseWarning {
    fn clone(&self) -> (r: Self)
        ensures
            r == *self,
    {
        match self {
            ParseWarning::SyntaxError(m) => ParseWarning::SyntaxError(m.clone()),
            ParseWarning::UndefinedObject(id) => ParseWarning::UndefinedObject(*id),
            ParseWarning::DuplicatingDef(id) => ParseWarning::DuplicatingDef(*id),
            ParseWarning::DuplicatingTrackObj(t, c) => ParseWarning::DuplicatingTrackObj(*t, *c),
            ParseWarning::DuplicatingChannelObj(t, c) => ParseWarning::DuplicatingChannelObj(*t, *c),
            ParseWarning::OutOfBase62 => ParseWarning::OutOfBase62,
        }
    }
}

/// The first and last character position of a token in its source.
#[derive(Debug, Clone, Copy, PartialEq, Eq, Hash, Structural)]
pub struct SourceRange {
    /// Position of the first character.
    pub start: usize,
    /// Position after the last character.
    pub end: usize,
}

/// A warning with the place of the token that caused it.
#[derive(Debug, Clone, PartialEq, Eq)]
pub struct ParseWarningWithRange {
    /// The warning.
    pub warning: ParseWarning,
    /// Where the token stood.
    pub range: SourceRange,
}

/// An error that stops the parse.
#[derive(Debug, Clone, PartialEq, Eq)]
pub enum ParseError {
    /// A control flow command stood where it cannot.
    UnexpectedControlFlow(String),
    /// The random generator gave a value out of the `#RANDOM` range.
    RandomGeneratedValueOutOfRange {
        /// Lowest value of the range.
        start: u64,
        /// Highest value of the range.
        end: u64,
        /// The value given.
        actual: u64,
    },
    /// The random generator gave a value out of the `#SWITCH` range.
    SwitchGeneratedValueOutOfRange {
        /// Lowest value of the range.
        start: u64,
        /// Highest value of the range.
        end: u64,
        /// The value given.
        actual: u64,
    },
}

/// An error with the place of the token that caused it.
#[derive(Debug, Clone, PartialEq, Eq)]
pub struct ParseErrorWithRange {
    /// The error.
    pub error: ParseError,
    /// Where the token stood.
    pub range: SourceRange,
}

/// A finding that makes the score questionable to play.
#[derive(Debug, Clone, Copy, PartialEq, Eq, Hash, Structural)]
pub enum PlayingWarning {
    /// `#TOTAL` is not given.
    TotalUndefined,
    /// There is no displayable note.
    NoDisplayableNotes,
    /// There is no playable note.
    NoPlayableNotes,
    /// `#BPM` is not given but BPM changes are.
    StartBpmUndefined,
}

/// A finding that makes the score unplayable.
#[derive(Debug, Clone, PartialEq, Eq)]
pub enum PlayingError {
    /// Neither `#BPM` nor any BPM change is given.
    BpmUndefined,
    /// There is no note.
    NoNotes,
    /// A BPM value is not a positive finite number.
    InvalidBpm {
        /// The text of the value.
        raw: String,
        /// What was wrong with it.
        error: String,
    },
    /// A STOP value is not a non-negative finite number.
    InvalidStop {
        /// The id of the definition.
        obj_id: ObjId,
        /// The text of the value.
        raw: String,
        /// What was wrong with it.
        error: String,
    },
    /// A SPEED value is not a finite number.
    InvalidSpeed {
        /// The id of the definition.
        obj_id: ObjId,
        /// The text of the value.
        raw: String,
        /// What was wrong with it.
        error: String,
    },
    /// A SCROLL value is not a finite number.
    InvalidScroll {
        /// The id of the definition.
        obj_id: ObjId,
        /// The text of the value.
        raw: String,
        /// What was wrong with it.
        error: String,
    },
    /// A SEEK value is not a finite number.
    InvalidSeek {
        /// The id of the definition.
        obj_id: ObjId,
        /// The text of the value.
        raw: String,
        /// What was wrong with it.
        error: String,
    },
}

/// The findings of checking a score for play.
#[derive(Debug, Clone, PartialEq, Eq)]
pub struct PlayingCheckOutput {
    /// Questionable findings.
    pub playing_warnings: Vec<PlayingWarning>,
    /// Fatal findings.
    pub playing_errors: Vec<PlayingError>,
}

} // verus!
