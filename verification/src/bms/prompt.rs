//! What to do when a definition or an object is given twice.
use crate::bms::command::{Channel, ObjId, ObjTime, Track};
use crate::bms::error::ParseWarning;
use vstd::prelude::*;

verus! {

/// The choice made for a duplicated definition or object.
#[derive(Debug, Clone, Copy, PartialEq, Eq, Hash, Structural)]
pub enum DuplicationWorkaround {
    /// Keep the older one silently.
    UseOlder,
    /// Take the newer one silently.
    UseNewer,
    /// Keep the older one and warn.
    WarnAndUseOlder,
    /// Take the newer one and warn.
    WarnAndUseNewer,
}

impl DuplicationWorkaround {
    /// Whether the newer value replaces the older one.
    pub open spec fn takes_newer(self) -> bool {
        self is UseNewer || self is WarnAndUseNewer
    }

    /// Whether a warning is reported.
    pub open spec fn warns(self) -> bool {
        self is WarnAndUseOlder || self is WarnAndUseNewer
    }

    /// Whether the newer value replaces the older one.
    pub fn uses_newer(self) -> (r: bool)
        ensures
            r == self.takes_newer(),
    {
        matches!(self, DuplicationWorkaround::UseNewer | DuplicationWorkaround::WarnAndUseNewer)
    }

    /// The warning for a duplicated definition of `id`, if this choice warns.
    pub fn def_warning(self, id: ObjId) -> (r: Result<(), ParseWarning>)
        ensures
            self.warns() ==> r == Err::<(), ParseWarning>(ParseWarning::DuplicatingDef(id)),
            !self.warns() ==> r == Ok::<(), ParseWarning>(()),
    {
        match self {
            DuplicationWorkaround::WarnAndUseOlder | DuplicationWorkaround::WarnAndUseNewer => Err(
                ParseWarning::DuplicatingDef(id),
            ),
            _ => Ok(()),
        }
    }

    /// The warning for a duplicated object at `time` on `channel`, if this choice warns.
    pub fn channel_warning(self, time: ObjTime, channel: Channel) -> (r: Result<(), ParseWarning>)
        ensures
            self.warns() ==> r == Err::<(), ParseWarning>(
                ParseWarning::DuplicatingChannelObj(time, channel),
            ),
            !self.warns() ==> r == Ok::<(), ParseWarning>(()),
    {
        match self {
            DuplicationWorkaround::WarnAndUseOlder | DuplicationWorkaround::WarnAndUseNewer => Err(
                ParseWarning::DuplicatingChannelObj(time, channel),
            ),
            _ => Ok(()),
        }
    }

    /// The warning for a duplicated track-wide object, if this choice warns.
    pub fn track_warning(self, track: Track, channel: Channel) -> (r: Result<(), ParseWarning>)
        ensures
            self.warns() ==> r == Err::<(), ParseWarning>(
                ParseWarning::DuplicatingTrackObj(track, channel),
            ),
            !self.warns() ==> r == Ok::<(), ParseWarning>(()),
    {
        match self {
            DuplicationWorkaround::WarnAndUseOlder | DuplicationWorkaround::WarnAndUseNewer => Err(
                ParseWarning::DuplicatingTrackObj(track, channel),
            ),
            _ => Ok(()),
        }
    }
}

/// A definition given twice: which command and which id.
#[derive(Debug, Clone, Copy, PartialEq, Eq, Hash, Structural)]
pub enum DefDuplication {
    /// `#WAVxx`.
    Wav { id: ObjId },
    /// `#BMPxx` or `#EXBMPxx`.
    Bmp { id: ObjId },
    /// `#ARGBxx`.
    BgaArgb { id: ObjId },
    /// `#@BGAxx`.
    AtBga { id: ObjId },
    /// `#BGAxx`.
    Bga { id: ObjId },
    /// `#SWBGAxx`.
    SwBgaEvent { id: ObjId },
    /// `#BPMxx` or `#EXBPMxx`.
    BpmChange { id: ObjId },
    /// `#STOPxx`.
    Stop { id: ObjId },
    /// `#EXRANKxx`.
    ExRank { id: ObjId },
    /// `#SCROLLxx`.
    ScrollingFactorChange { id: ObjId },
    /// `#SPEEDxx`.
    SpeedFactorChange { id: ObjId },
    /// `#TEXTxx` or `#SONGxx`.
    Text { id: ObjId },
    /// `#CHANGEOPTIONxx`.
    ChangeOption { id: ObjId },
    /// `#SEEKxx`.
    SeekEvent { id: ObjId },
    /// `#EXWAVxx`.
    ExWav { id: ObjId },
    /// `#WAVCMD` for the sound `wav_index`.
    WavCmdEvent { wav_index: ObjId },
}

/// An object given twice at one position of one channel.
#[derive(Debug, Clone, Copy, PartialEq, Eq, Hash, Structural)]
pub struct ChannelDuplication {
    /// The position.
    pub time: ObjTime,
    /// The channel.
    pub channel: Channel,
}

/// Decides what to do with duplicated definitions and objects.
pub trait Prompter {
    /// The choice for a duplicated definition.
    spec fn def_choice(&self, dup: DefDuplication) -> DuplicationWorkaround;

    /// The choice for a duplicated object.
    spec fn channel_choice(&self, dup: ChannelDuplication) -> DuplicationWorkaround;

    /// Decides about a duplicated definition.
    fn handle_def_duplication(&self, dup: DefDuplication) -> (r: DuplicationWorkaround)
        ensures
            r == self.def_choice(dup),
    ;

    /// Decides about a duplicated object.
    fn handle_channel_duplication(&self, dup: ChannelDuplication) -> (r: DuplicationWorkaround)
        ensures
            r == self.channel_choice(dup),
    ;
}

/// Always keeps the older one silently.
#[derive(Debug, Clone, Copy, PartialEq, Eq, Hash)]
pub struct AlwaysUseOlder;

/// Always takes the newer one silently.
#[derive(Debug, Clone, Copy, PartialEq, Eq, Hash)]
pub struct AlwaysUseNewer;

/// Always keeps the older one and warns.
#[derive(Debug, Clone, Copy, PartialEq, Eq, Hash)]
pub struct AlwaysWarnAndUseOlder;

/// Always takes the newer one and warns.
#[derive(Debug, Clone, Copy, PartialEq, Eq, Hash)]
pub struct AlwaysWarnAndUseNewer;

impl Prompter for AlwaysUseOlder {
    open spec fn def_choice(&self, dup: DefDuplication) -> DuplicationWorkaround {
        DuplicationWorkaround::UseOlder
    }

    open spec fn channel_choice(&self, dup: ChannelDuplication) -> DuplicationWorkaround {
        DuplicationWorkaround::UseOlder
    }

    fn handle_def_duplication(&self, dup: DefDuplication) -> (r: DuplicationWorkaround) {
        DuplicationWorkaround::UseOlder
    }

    fn handle_channel_duplication(&self, dup: ChannelDuplication) -> (r: DuplicationWorkaround) {
        DuplicationWorkaround::UseOlder
    }
}

impl Prompter for AlwaysUseNewer {
    open spec fn def_choice(&self, dup: DefDuplication) -> DuplicationWorkaround {
        DuplicationWorkaround::UseNewer
    }

    open spec fn channel_choice(&self, dup: ChannelDuplication) -> DuplicationWorkaround {
        DuplicationWorkaround::UseNewer
    }

    fn handle_def_duplication(&self, dup: DefDuplication) -> (r: DuplicationWorkaround) {
        DuplicationWorkaround::UseNewer
    }

    fn handle_channel_duplication(&self, dup: ChannelDuplication) -> (r: DuplicationWorkaround) {
        DuplicationWorkaround::UseNewer
    }
}

impl Prompter for AlwaysWarnAndUseOlder {
    open spec fn def_choice(&self, dup: DefDuplication) -> DuplicationWorkaround {
        DuplicationWorkaround::WarnAndUseOlder
    }

    open spec fn channel_choice(&self, dup: ChannelDuplication) -> DuplicationWorkaround {
        DuplicationWorkaround::WarnAndUseOlder
    }

    fn handle_def_duplication(&self, dup: DefDuplication) -> (r: DuplicationWorkaround) {
        DuplicationWorkaround::WarnAndUseOlder
    }

    fn handle_channel_duplication(&self, dup: ChannelDuplication) -> (r: DuplicationWorkaround) {
        DuplicationWorkaround::WarnAndUseOlder
    }
}

impl Prompter for AlwaysWarnAndUseNewer {
    open spec fn def_choice(&self, dup: DefDuplication) -> DuplicationWorkaround {
        DuplicationWorkaround::WarnAndUseNewer
    }

    open spec fn channel_choice(&self, dup: ChannelDuplication) -> DuplicationWorkaround {
        DuplicationWorkaround::WarnAndUseNewer
    }

    fn handle_def_duplication(&self, dup: DefDuplication) -> (r: DuplicationWorkaround) {
        DuplicationWorkaround::WarnAndUseNewer
    }

    fn handle_channel_duplication(&self, dup: ChannelDuplication) -> (r: DuplicationWorkaround) {
        DuplicationWorkaround::WarnAndUseNewer
    }
}

} // verus!
