//! Chart-level types for describing notes and player interactions.
//!
//! These types describe fundamental concepts used in charts,
//! independent of any specific file format (BMS, BMSON, etc.).
use vstd::prelude::*;

verus! {

/// A kind of the note.
#[derive(Debug, Clone, Copy, PartialEq, Eq, Hash, Structural)]
pub enum NoteKind {
    /// A normal note can be seen by the user.
    Visible,
    /// A invisible note cannot be played by the user.
    Invisible,
    /// A long-press note (LN), requires the user to hold pressing the key.
    Long,
    /// A landmine note that treated as POOR judgement when pressed.
    Landmine,
}

impl NoteKind {
    /// Whether the note is shown to the player.
    pub open spec fn spec_is_displayable(self) -> bool {
        !(self is Invisible)
    }

    /// Whether the note is hit by the player.
    pub open spec fn spec_is_playable(self) -> bool {
        self is Visible || self is Long
    }

    /// Returns whether the note is a displayable.
    pub fn is_displayable(self) -> (r: bool)
        ensures
            r == self.spec_is_displayable(),
    {
        !matches!(self, NoteKind::Invisible)
    }

    /// Returns whether the note is a playable.
    pub fn is_playable(self) -> (r: bool)
        ensures
            r == self.spec_is_playable(),
    {
        matches!(self, NoteKind::Visible | NoteKind::Long)
    }

    /// Returns whether the note is a long-press note.
    pub fn is_long(self) -> (r: bool)
        ensures
            r == (self is Long),
    {
        matches!(self, NoteKind::Long)
    }
}

/// A side of the player.
#[derive(Debug, Clone, Copy, PartialEq, Eq, Hash, Structural)]
pub enum PlayerSide {
    /// The player 1 side.
    Player1,
    /// The player 2 side.
    Player2,
}

impl Default for PlayerSide {
    fn default() -> (r: Self)
        ensures
            r == PlayerSide::Player1,
    {
        PlayerSide::Player1
    }
}

/// A key of the controller or keyboard.
///
/// - Beat 5K/7K/10K/14K:
/// ```text
/// |---------|----------------------|
/// |         |   [K2]  [K4]  [K6]   |
/// |(Scratch)|[K1]  [K3]  [K5]  [K7]|
/// |---------|----------------------|
/// ```
///
/// - PMS:
/// ```text
/// |----------------------------|
/// |   [K2]  [K4]  [K6]  [K8]   |
/// |[K1]  [K3]  [K5]  [K7]  [K9]|
/// |----------------------------|
/// ```
#[derive(Debug, Clone, Copy, PartialEq, Eq, Hash, Structural)]
#[non_exhaustive]
pub enum Key {
    /// The keys for the controller.
    Key(u8),
    /// The scratch disk.
    Scratch(u8),
    /// The foot pedal.
    FootPedal,
    /// The zone that the user can scratch disk freely.
    /// `17` in BMS-type Player1.
    FreeZone,
}

impl Key {
    /// Returns whether the key expected a piano keyboard.
    pub fn is_keyxx(&self) -> (r: bool)
        ensures
            r == (*self is Key),
    {
        matches!(self, Key::Key(_))
    }

    /// Returns the key number if it's a Key variant.
    pub fn key_number(&self) -> (r: Option<u8>)
        ensures
            r == (match *self {
                Key::Key(n) => Some(n),
                _ => None,
            }),
    {
        if let Key::Key(n) = self {
            Some(*n)
        } else {
            None
        }
    }

    /// Returns the scratch number if it's a Scratch variant.
    pub fn scratch_number(&self) -> (r: Option<u8>)
        ensures
            r == (match *self {
                Key::Scratch(n) => Some(n),
                _ => None,
            }),
    {
        if let Key::Scratch(n) = self {
            Some(*n)
        } else {
            None
        }
    }

    /// Creates a Key variant with the given number.
    pub fn new_key(n: u8) -> (r: Self)
        ensures
            r == Key::Key(n),
    {
        Key::Key(n)
    }

    /// Creates a Scratch variant with the given number.
    pub fn new_scratch(n: u8) -> (r: Self)
        ensures
            r == Key::Scratch(n),
    {
        Key::Scratch(n)
    }
}

/// BGA layer type (shared between BMS and BMSON).
/// Order matches existing `BmsLayer` definition: Base, Poor, Overlay, Overlay2.
#[derive(Debug, Clone, Copy, PartialEq, Eq, Hash, Structural)]
pub enum BgaLayer {
    /// The lowest layer.
    Base,
    /// Layer which is displayed only if a player missed to play notes.
    Poor,
    /// An overlaying layer.
    Overlay,
    /// An overlaying layer layered over `Overlay`.
    Overlay2,
}

/// ARGB color type (shared between BMS and BMSON).
#[derive(Debug, Clone, Copy, PartialEq, Eq, Hash, Structural)]
pub struct Argb {
    /// Alpha component.
    pub alpha: u8,
    /// Red component.
    pub red: u8,
    /// Green component.
    pub green: u8,
    /// Blue component.
    pub blue: u8,
}

impl Default for Argb {
    fn default() -> (r: Self)
        ensures
            r == (Argb { alpha: 255, red: 0, green: 0, blue: 0 }),
    {
        Argb { alpha: 255, red: 0, green: 0, blue: 0 }
    }
}

} // verus!
