//! The bmson format, held as plain values: numbers that the JSON gives as floating point are
//! kept as the text of the number (and the judge rank as a ratio), so that the conversions
//! to and from a score stay exact.
pub mod convert;
pub mod json;
pub mod pulse;
pub mod to_bms;
pub mod to_bmson;

use crate::bms::command::{LnMode, StringValue};
use pulse::PulseNumber;
use vstd::prelude::*;

verus! {

/// The default mode hint, beatmania 7 keys.
pub fn default_mode_hint() -> (r: String)
    ensures
        r@ == "beat-7k"@,
{
    crate::text::owned("beat-7k")
}

/// The default resolution: 240 pulses a quarter note.
pub fn default_resolution() -> (r: u64)
    ensures
        r == 240,
{
    240
}

/// A bar line.
#[derive(Debug, Clone, Copy, PartialEq, Eq, Hash, Structural)]
pub struct BarLine {
    /// Where the line lies.
    pub y: PulseNumber,
}

/// A note of a sound channel.
#[derive(Debug, Clone, Copy, PartialEq, Eq, Hash, Structural)]
pub struct Note {
    /// Where it lies.
    pub y: PulseNumber,
    /// The lane, `0` for a note that is not played (background sound).
    pub x: u8,
    /// Its length in pulses: a long note when above zero.
    pub l: u64,
    /// Whether the sound continues from where it stopped.
    pub c: bool,
    /// The long note type.
    pub t: Option<LnMode>,
    /// Whether this position ends a long note.
    pub up: Option<bool>,
}

/// A sound file and its notes.
#[derive(Debug, Clone, PartialEq, Eq)]
pub struct SoundChannel {
    /// The sound file.
    pub name: String,
    /// The notes.
    pub notes: Vec<Note>,
}

/// A tempo change.
#[derive(Debug, Clone, PartialEq, Eq)]
pub struct BpmEvent {
    /// Where it lies.
    pub y: PulseNumber,
    /// The tempo, as the text of the number.
    pub bpm: StringValue,
}

/// A stop.
#[derive(Debug, Clone, Copy, PartialEq, Eq, Hash, Structural)]
pub struct StopEvent {
    /// Where it lies.
    pub y: PulseNumber,
    /// How long, in pulses.
    pub duration: u64,
}

/// The id of a picture.
#[derive(Debug, Clone, Copy, PartialEq, Eq, Hash, Structural)]
pub struct BgaId(pub u32);

/// A picture file.
#[derive(Debug, Clone, PartialEq, Eq)]
pub struct BgaHeader {
    /// Its id.
    pub id: BgaId,
    /// The file.
    pub name: String,
}

/// A picture shown from a position.
#[derive(Debug, Clone, Copy, PartialEq, Eq, Hash, Structural)]
pub struct BgaEvent {
    /// Where it lies.
    pub y: PulseNumber,
    /// The picture.
    pub id: BgaId,
}

/// The pictures and when they show.
#[derive(Debug, Clone, PartialEq, Eq)]
pub struct Bga {
    /// The picture files.
    pub bga_header: Vec<BgaHeader>,
    /// The base layer.
    pub bga_events: Vec<BgaEvent>,
    /// The overlay layer.
    pub layer_events: Vec<BgaEvent>,
    /// The miss layer.
    pub poor_events: Vec<BgaEvent>,
}

/// A scrolling speed change.
#[derive(Debug, Clone, PartialEq, Eq)]
pub struct ScrollEvent {
    /// Where it lies.
    pub y: PulseNumber,
    /// The rate, as the text of the number.
    pub rate: StringValue,
}

/// A landmine.
#[derive(Debug, Clone, PartialEq, Eq)]
pub struct MineEvent {
    /// The lane, `0` for none.
    pub x: u8,
    /// Where it lies.
    pub y: PulseNumber,
    /// The damage, as the text of the number.
    pub damage: StringValue,
}

/// A sound file and its landmines.
#[derive(Debug, Clone, PartialEq, Eq)]
pub struct MineChannel {
    /// The sound file.
    pub name: String,
    /// The landmines.
    pub notes: Vec<MineEvent>,
}

/// An invisible note.
#[derive(Debug, Clone, Copy, PartialEq, Eq, Hash, Structural)]
pub struct KeyEvent {
    /// The lane, `0` for none.
    pub x: u8,
    /// Where it lies.
    pub y: PulseNumber,
}

/// A sound file and its invisible notes.
#[derive(Debug, Clone, PartialEq, Eq)]
pub struct KeyChannel {
    /// The sound file.
    pub name: String,
    /// The invisible notes.
    pub notes: Vec<KeyEvent>,
}

/// The judge width relative to the normal one, as a ratio.
#[derive(Debug, Clone, Copy, PartialEq, Eq, Hash, Structural)]
pub struct JudgeRank {
    /// The numerator.
    pub numerator: i64,
    /// The denominator, not zero.
    pub denominator: u64,
}

/// Information about the chart.
#[derive(Debug, Clone, PartialEq, Eq)]
pub struct BmsonInfo {
    /// The title.
    pub title: String,
    /// The subtitle.
    pub subtitle: String,
    /// The artist.
    pub artist: String,
    /// Other artists.
    pub subartists: Vec<String>,
    /// The genre.
    pub genre: String,
    /// The layout the chart is for, such as `beat-7k`.
    pub mode_hint: String,
    /// The name of the chart, such as `HYPER`.
    pub chart_name: String,
    /// The level.
    pub level: u32,
    /// The tempo at the start, as the text of the number.
    pub init_bpm: StringValue,
    /// The judge width.
    pub judge_rank: JudgeRank,
    /// The gauge total, as the text of the number.
    pub total: StringValue,
    /// The background picture.
    pub back_image: Option<String>,
    /// The picture shown while loading.
    pub eyecatch_image: Option<String>,
    /// The title picture.
    pub title_image: Option<String>,
    /// The banner.
    pub banner_image: Option<String>,
    /// The preview music.
    pub preview_music: Option<String>,
    /// Pulses a quarter note.
    pub resolution: u64,
    /// The long note type.
    pub ln_type: LnMode,
}

/// A bmson chart.
#[derive(Debug, Clone, PartialEq, Eq)]
pub struct Bmson {
    /// The format version.
    pub version: String,
    /// Information about the chart.
    pub info: BmsonInfo,
    /// The bar lines.
    pub lines: Option<Vec<BarLine>>,
    /// Tempo changes.
    pub bpm_events: Vec<BpmEvent>,
    /// Stops.
    pub stop_events: Vec<StopEvent>,
    /// Sounds and notes.
    pub sound_channels: Vec<SoundChannel>,
    /// Pictures.
    pub bga: Bga,
    /// Scrolling speed changes.
    pub scroll_events: Vec<ScrollEvent>,
    /// Landmines.
    pub mine_channels: Vec<MineChannel>,
    /// Invisible notes.
    pub key_channels: Vec<KeyChannel>,
}

/// An error of reading a bmson value.
#[derive(Debug, Clone, PartialEq, Eq)]
pub struct DeError {
    /// What went wrong.
    pub message: String,
}

impl DeError {
    /// An error with a message.
    pub fn custom(msg: &str) -> (r: Self)
        ensures
            r.message@ == msg@,
    {
        DeError { message: crate::text::owned(msg) }
    }
}

} // verus!
