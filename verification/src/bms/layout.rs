//! Key layouts: how the two characters of a note channel name a player side, a key and a
//! note kind.
use crate::bms::command::NoteChannelId;
use crate::chart::types::{Key, NoteKind, PlayerSide};
use vstd::prelude::*;

verus! {

/// A way of reading note channels as lanes of a controller.
pub trait KeyLayoutMapper: Sized {
    /// The lane that `channel_id` stands for in this layout, if any.
    spec fn spec_from_channel_id(channel_id: NoteChannelId) -> Option<Self>;

    /// The channel that stands for this lane.
    spec fn spec_to_channel_id(self) -> NoteChannelId;

    /// The player side of the lane.
    spec fn spec_side(self) -> PlayerSide;

    /// The key of the lane.
    spec fn spec_key(self) -> Key;

    /// The kind of the notes on the lane.
    spec fn spec_kind(self) -> NoteKind;

    /// The lane of a player side, note kind and key.
    spec fn spec_from_parts(side: PlayerSide, kind: NoteKind, key: Key) -> Self;

    /// The lane of a player side, note kind and key.
    fn from_tuple(parts: (PlayerSide, NoteKind, Key)) -> (r: Self)
        ensures
            r == Self::spec_from_parts(parts.0, parts.1, parts.2),
    ;

    /// Reads a channel as a lane.
    fn from_channel_id(channel_id: NoteChannelId) -> (r: Option<Self>)
        ensures
            r == Self::spec_from_channel_id(channel_id),
    ;

    /// The channel of the lane.
    fn to_channel_id(&self) -> (r: NoteChannelId)
        ensures
            r == self.spec_to_channel_id(),
    ;

    /// The player side of the lane.
    fn side(&self) -> (r: PlayerSide)
        ensures
            r == self.spec_side(),
    ;

    /// The key of the lane.
    fn key(&self) -> (r: Key)
        ensures
            r == self.spec_key(),
    ;

    /// The kind of the notes on the lane.
    fn kind(&self) -> (r: NoteKind)
        ensures
            r == self.spec_kind(),
    ;
}

/// The beat layout of BMS (`11`-`19` for player 1, `21`-`29` for player 2, with `3x`/`4x`
/// invisible, `5x`/`6x` long and `Dx`/`Ex` landmine notes).
#[derive(Debug, Clone, Copy, PartialEq, Eq, Hash, Structural)]
pub struct KeyLayoutBeat {
    /// The player side.
    pub side: PlayerSide,
    /// The kind of the notes.
    pub kind: NoteKind,
    /// The key.
    pub key: Key,
}

/// The side and kind that the first character of a beat channel stands for.
pub open spec fn beat_side_kind(b: u8) -> Option<(PlayerSide, NoteKind)> {
    if b == 0x31 {
        Some((PlayerSide::Player1, NoteKind::Visible))
    } else if b == 0x32 {
        Some((PlayerSide::Player2, NoteKind::Visible))
    } else if b == 0x33 {
        Some((PlayerSide::Player1, NoteKind::Invisible))
    } else if b == 0x34 {
        Some((PlayerSide::Player2, NoteKind::Invisible))
    } else if b == 0x35 {
        Some((PlayerSide::Player1, NoteKind::Long))
    } else if b == 0x36 {
        Some((PlayerSide::Player2, NoteKind::Long))
    } else if b == 0x44 {
        Some((PlayerSide::Player1, NoteKind::Landmine))
    } else if b == 0x45 {
        Some((PlayerSide::Player2, NoteKind::Landmine))
    } else {
        None
    }
}

/// The key that the second character of a beat channel stands for.
pub open spec fn beat_key(b: u8) -> Option<Key> {
    if 0x31 <= b <= 0x35 {
        Some(Key::Key((b - 0x30) as u8))
    } else if b == 0x36 {
        Some(Key::Scratch(1))
    } else if b == 0x37 {
        Some(Key::FreeZone)
    } else if b == 0x38 {
        Some(Key::Key(6))
    } else if b == 0x39 {
        Some(Key::Key(7))
    } else {
        None
    }
}

/// The first character of the beat channel of a side and kind.
pub open spec fn beat_first(side: PlayerSide, kind: NoteKind) -> u8 {
    match (side, kind) {
        (PlayerSide::Player1, NoteKind::Visible) => 0x31,
        (PlayerSide::Player2, NoteKind::Visible) => 0x32,
        (PlayerSide::Player1, NoteKind::Invisible) => 0x33,
        (PlayerSide::Player2, NoteKind::Invisible) => 0x34,
        (PlayerSide::Player1, NoteKind::Long) => 0x35,
        (PlayerSide::Player2, NoteKind::Long) => 0x36,
        (PlayerSide::Player1, NoteKind::Landmine) => 0x44,
        (PlayerSide::Player2, NoteKind::Landmine) => 0x45,
    }
}

/// The second character of the beat channel of a key; `0` for a key that the layout
/// has no channel for.
pub open spec fn beat_second(key: Key) -> u8 {
    match key {
        Key::Key(n) => if 1 <= n <= 5 {
            (n + 0x30) as u8
        } else if n == 6 {
            0x38
        } else if n == 7 {
            0x39
        } else {
            0x30
        },
        Key::Scratch(n) => if n == 1 {
            0x36
        } else {
            0x30
        },
        Key::FreeZone => 0x37,
        Key::FootPedal => 0x30,
    }
}

/// The keys that the beat layout has a channel for.
pub open spec fn beat_key_supported(key: Key) -> bool {
    match key {
        Key::Key(n) => 1 <= n <= 7,
        Key::Scratch(n) => n == 1,
        Key::FreeZone => true,
        Key::FootPedal => false,
    }
}

impl KeyLayoutBeat {
    /// The lane of `side`, `kind` and `key`.
    pub fn new(side: PlayerSide, kind: NoteKind, key: Key) -> (r: Self)
        ensures
            r == (KeyLayoutBeat { side, kind, key }),
    {
        KeyLayoutBeat { side, kind, key }
    }
}

impl KeyLayoutMapper for KeyLayoutBeat {
    open spec fn spec_from_channel_id(channel_id: NoteChannelId) -> Option<Self> {
        match (beat_side_kind(channel_id.first), beat_key(channel_id.second)) {
            (Some((side, kind)), Some(key)) => Some(KeyLayoutBeat { side, kind, key }),
            _ => None,
        }
    }

    open spec fn spec_to_channel_id(self) -> NoteChannelId {
        NoteChannelId { first: beat_first(self.side, self.kind), second: beat_second(self.key) }
    }

    open spec fn spec_side(self) -> PlayerSide {
        self.side
    }

    open spec fn spec_from_parts(side: PlayerSide, kind: NoteKind, key: Key) -> Self {
        KeyLayoutBeat { side, kind, key }
    }

    fn from_tuple(parts: (PlayerSide, NoteKind, Key)) -> (r: Self) {
        KeyLayoutBeat { side: parts.0, kind: parts.1, key: parts.2 }
    }

    open spec fn spec_key(self) -> Key {
        self.key
    }

    open spec fn spec_kind(self) -> NoteKind {
        self.kind
    }

    fn from_channel_id(channel_id: NoteChannelId) -> (r: Option<Self>) {
        let b = channel_id.first;
        let side_kind = if b == 0x31 {
            Some((PlayerSide::Player1, NoteKind::Visible))
        } else if b == 0x32 {
            Some((PlayerSide::Player2, NoteKind::Visible))
        } else if b == 0x33 {
            Some((PlayerSide::Player1, NoteKind::Invisible))
        } else if b == 0x34 {
            Some((PlayerSide::Player2, NoteKind::Invisible))
        } else if b == 0x35 {
            Some((PlayerSide::Player1, NoteKind::Long))
        } else if b == 0x36 {
            Some((PlayerSide::Player2, NoteKind::Long))
        } else if b == 0x44 {
            Some((PlayerSide::Player1, NoteKind::Landmine))
        } else if b == 0x45 {
            Some((PlayerSide::Player2, NoteKind::Landmine))
        } else {
            None
        };
        let c = channel_id.second;
        let key = if 0x31 <= c && c <= 0x35 {
            Some(Key::Key(c - 0x30))
        } else if c == 0x36 {
            Some(Key::Scratch(1))
        } else if c == 0x37 {
            Some(Key::FreeZone)
        } else if c == 0x38 {
            Some(Key::Key(6))
        } else if c == 0x39 {
            Some(Key::Key(7))
        } else {
            None
        };
        match (side_kind, key) {
            (Some((side, kind)), Some(key)) => Some(KeyLayoutBeat { side, kind, key }),
            _ => None,
        }
    }

    fn to_channel_id(&self) -> (r: NoteChannelId) {
        let first: u8 = match (self.side, self.kind) {
            (PlayerSide::Player1, NoteKind::Visible) => 0x31,
            (PlayerSide::Player2, NoteKind::Visible) => 0x32,
            (PlayerSide::Player1, NoteKind::Invisible) => 0x33,
            (PlayerSide::Player2, NoteKind::Invisible) => 0x34,
            (PlayerSide::Player1, NoteKind::Long) => 0x35,
            (PlayerSide::Player2, NoteKind::Long) => 0x36,
            (PlayerSide::Player1, NoteKind::Landmine) => 0x44,
            (PlayerSide::Player2, NoteKind::Landmine) => 0x45,
        };
        let second: u8 = match self.key {
            Key::Key(n) => if 1 <= n && n <= 5 {
                n + 0x30
            } else if n == 6 {
                0x38
            } else if n == 7 {
                0x39
            } else {
                0x30
            },
            Key::Scratch(n) => if n == 1 {
                0x36
            } else {
                0x30
            },
            Key::FreeZone => 0x37,
            Key::FootPedal => 0x30,
        };
        NoteChannelId { first, second }
    }

    fn side(&self) -> (r: PlayerSide) {
        self.side
    }

    fn key(&self) -> (r: Key) {
        self.key
    }

    fn kind(&self) -> (r: NoteKind) {
        self.kind
    }
}

/// Reading back the channel of a lane gives the lane again, for every key that the beat
/// layout has a channel for.
pub proof fn lemma_beat_lane_round_trip(lane: KeyLayoutBeat)
    requires
        beat_key_supported(lane.key),
    ensures
        KeyLayoutBeat::spec_from_channel_id(lane.spec_to_channel_id()) == Some(lane),
{
}

/// Writing the lane that a channel stands for gives the channel again.
pub proof fn lemma_beat_channel_round_trip(channel_id: NoteChannelId)
    requires
        KeyLayoutBeat::spec_from_channel_id(channel_id) is Some,
    ensures
        KeyLayoutBeat::spec_from_channel_id(channel_id)->0.spec_to_channel_id() == channel_id,
        beat_key_supported(KeyLayoutBeat::spec_from_channel_id(channel_id)->0.key),
{
}

} // verus!
