//! Values that commands of a BMS file carry: object ids, positions, channels and modes.
use crate::bms::error::ParseWarning;
use crate::chart::types::BgaLayer;
use crate::text::{chars_of, owned, parse_i64};
use vstd::prelude::*;

verus! {

/// Whether a byte is an ASCII letter or digit.
pub open spec fn is_alnum(b: u8) -> bool {
    (48 <= b && b <= 57) || (65 <= b && b <= 90) || (97 <= b && b <= 122)
}

/// The base-62 digit value of an ASCII letter or digit: `0-9`, then `A-Z`, then `a-z`.
pub open spec fn base62(b: u8) -> int {
    if 48 <= b && b <= 57 {
        b - 48
    } else if 65 <= b && b <= 90 {
        b - 55
    } else {
        b - 61
    }
}

/// The ASCII upper-case form of a byte.
pub open spec fn upper_byte(b: u8) -> u8 {
    if 97 <= b && b <= 122 {
        (b - 32) as u8
    } else {
        b
    }
}

/// An object id: two base-62 characters naming a definition such as `#WAVxx`.
#[derive(Debug, Clone, Copy, PartialEq, Eq, Hash, Structural)]
pub struct ObjId {
    first: u8,
    second: u8,
}

impl ObjId {
    #[verifier::type_invariant]
    spec fn wf(self) -> bool {
        is_alnum(self.first) && is_alnum(self.second)
    }

    /// The first character of the id.
    pub closed spec fn high(self) -> u8 {
        self.first
    }

    /// The second character of the id.
    pub closed spec fn low(self) -> u8 {
        self.second
    }

    /// The number that the id denotes in base 62.
    pub open spec fn value(self) -> int {
        base62(self.high()) * 62 + base62(self.low())
    }

    /// The null id `00`, which stands for "no object".
    pub fn null() -> (r: Self)
        ensures
            r.high() == 48 && r.low() == 48,
            r.value() == 0,
            r == ObjId::spec_from_value(0),
    {
        ObjId { first: 48, second: 48 }
    }

    /// Whether this is the null id `00`.
    pub fn is_null(&self) -> (r: bool)
        ensures
            r == (self.high() == 48 && self.low() == 48),
    {
        self.first == 48 && self.second == 48
    }

    /// Makes an id of two ASCII letters or digits.
    pub fn from_bytes(first: u8, second: u8) -> (r: Option<Self>)
        ensures
            (is_alnum(first) && is_alnum(second)) <==> r is Some,
            r matches Some(id) ==> id.high() == first && id.low() == second,
    {
        if is_alnum_byte(first) && is_alnum_byte(second) {
            Some(ObjId { first, second })
        } else {
            None
        }
    }

    /// Parses an object id of two ASCII letters or digits. Unless `case_sensitive`, letters
    /// are made upper-case, so that ids are read in base 36.
    pub fn try_from(s: &str, case_sensitive: bool) -> (r: Result<Self, ParseWarning>)
        ensures
            r is Ok <==> spec_obj_id_text(s@),
            r matches Ok(id) ==> id == spec_obj_id_of(s@, case_sensitive),
            r matches Err(w) ==> w is SyntaxError,
    {
        let cs = chars_of(s);
        if cs.len() != 2 {
            return Err(ParseWarning::SyntaxError(owned("expected 2 digits as object id")));
        }
        let c0 = cs[0];
        let c1 = cs[1];
        if !(is_alnum_char(c0) && is_alnum_char(c1)) {
            return Err(ParseWarning::SyntaxError(owned("expected alphanumeric object id")));
        }
        let b0 = c0 as u8;
        let b1 = c1 as u8;
        let id = if case_sensitive {
            ObjId { first: b0, second: b1 }
        } else {
            ObjId { first: to_upper_byte(b0), second: to_upper_byte(b1) }
        };
        proof {
            lemma_obj_id_of_chars(id);
        }
        Ok(id)
    }

    /// Reads the two characters `c0 c1` as an id, as `try_from` reads a text of them.
    pub fn from_chars(c0: char, c1: char, case_sensitive: bool) -> (r: Option<Self>)
        ensures
            r is Some <==> spec_obj_id_text(seq![c0, c1]),
            r matches Some(id) ==> id == spec_obj_id_of(seq![c0, c1], case_sensitive),
    {
        if !(is_alnum_char(c0) && is_alnum_char(c1)) {
            return None;
        }
        let b0 = c0 as u8;
        let b1 = c1 as u8;
        let id = if case_sensitive {
            ObjId { first: b0, second: b1 }
        } else {
            ObjId { first: to_upper_byte(b0), second: to_upper_byte(b1) }
        };
        proof {
            lemma_obj_id_of_chars(id);
        }
        Some(id)
    }

    /// The id as a number in base 62: `00` is 0 and `zz` is 3843.
    pub fn as_u16(&self) -> (r: u16)
        ensures
            r == self.value(),
            r < 3844,
    {
        proof {
            use_type_invariant(self);
        }
        (base62_digit(self.first) * 62 + base62_digit(self.second)) as u16
    }

    /// The id whose base-62 number is `v`.
    pub closed spec fn spec_from_value(v: int) -> ObjId {
        ObjId { first: spec_base62_char(v / 62), second: spec_base62_char(v % 62) }
    }

    /// The id made of a number below `62 * 62` has that number, and ids of different such
    /// numbers differ.
    pub proof fn lemma_from_value(v: int, w: int)
        requires
            0 <= v < 3844,
            0 <= w < 3844,
        ensures
            ObjId::spec_from_value(v).value() == v,
            v != w ==> ObjId::spec_from_value(v) != ObjId::spec_from_value(w),
    {
        let a = ObjId::spec_from_value(v);
        let b = ObjId::spec_from_value(w);
        assert(base62(a.first) == v / 62);
        assert(base62(a.second) == v % 62);
        assert(base62(b.first) == w / 62);
        assert(base62(b.second) == w % 62);
    }

    /// The id whose base-62 number is `v`.
    pub fn from_u16(v: u16) -> (r: Option<Self>)
        ensures
            r is Some <==> v < 3844,
            r matches Some(id) ==> id.value() == v,
            r matches Some(id) ==> id == ObjId::spec_from_value(v as int),
    {
        if v >= 3844 {
            return None;
        }
        let first = base62_char(v / 62);
        let second = base62_char(v % 62);
        Some(ObjId { first, second })
    }

    /// The two characters of the id.
    pub fn to_chars(&self) -> (r: [char; 2])
        ensures
            r@[0] == (self.high() as char),
            r@[1] == (self.low() as char),
    {
        [self.first as char, self.second as char]
    }
}

/// Whether a character is an ASCII letter or digit.
pub open spec fn is_alnum_ch(c: char) -> bool {
    ('0' <= c && c <= '9') || ('A' <= c && c <= 'Z') || ('a' <= c && c <= 'z')
}

/// The text is two ASCII letters or digits.
pub open spec fn spec_obj_id_text(s: Seq<char>) -> bool {
    s.len() == 2 && is_alnum_ch(s[0]) && is_alnum_ch(s[1])
}

/// The id that `ObjId::try_from` makes of two valid characters.
pub open spec fn spec_obj_id_of(s: Seq<char>, case_sensitive: bool) -> ObjId {
    let b0 = s[0] as u8;
    let b1 = s[1] as u8;
    if case_sensitive {
        spec_obj_id(b0, b1)
    } else {
        spec_obj_id(upper_byte(b0), upper_byte(b1))
    }
}

/// The id with the given two characters.
pub open spec fn spec_obj_id(first: u8, second: u8) -> ObjId {
    choose|id: ObjId| id.high() == first && id.low() == second
}

/// An id is the one that its two characters name.
pub proof fn lemma_obj_id_of_chars(id: ObjId)
    ensures
        spec_obj_id(id.high(), id.low()) == id,
{
    let c = spec_obj_id(id.high(), id.low());
    assert(c.high() == id.high() && c.low() == id.low());
    assert(c.first == id.first && c.second == id.second);
}

fn is_alnum_byte(b: u8) -> (r: bool)
    ensures
        r == is_alnum(b),
{
    (48 <= b && b <= 57) || (65 <= b && b <= 90) || (97 <= b && b <= 122)
}

fn is_alnum_char(c: char) -> (r: bool)
    ensures
        r == is_alnum_ch(c),
{
    ('0' <= c && c <= '9') || ('A' <= c && c <= 'Z') || ('a' <= c && c <= 'z')
}

fn to_upper_byte(b: u8) -> (r: u8)
    ensures
        r == upper_byte(b),
{
    if 97 <= b && b <= 122 {
        b - 32
    } else {
        b
    }
}

fn base62_digit(b: u8) -> (r: u16)
    requires
        is_alnum(b),
    ensures
        r == base62(b),
        r < 62,
{
    if 48 <= b && b <= 57 {
        (b - 48) as u16
    } else if 65 <= b && b <= 90 {
        (b - 55) as u16
    } else {
        (b - 61) as u16
    }
}

/// The character of a base-62 digit.
pub open spec fn spec_base62_char(v: int) -> u8 {
    if v < 10 {
        (v + 48) as u8
    } else if v < 36 {
        (v + 55) as u8
    } else {
        (v + 61) as u8
    }
}

fn base62_char(v: u16) -> (r: u8)
    requires
        v < 62,
    ensures
        is_alnum(r),
        base62(r) == v,
        r == spec_base62_char(v as int),
{
    if v < 10 {
        (v + 48) as u8
    } else if v < 36 {
        (v + 55) as u8
    } else {
        (v + 61) as u8
    }
}

/// A measure (track) number of the score.
#[derive(Debug, Clone, Copy, PartialEq, Eq, Hash, Structural)]
pub struct Track(pub u64);

/// A position on the score: a fraction `numerator / denominator` of the way through `track`.
#[derive(Debug, Clone, Copy, PartialEq, Eq, Hash, Structural)]
pub struct ObjTime {
    track: Track,
    numerator: u64,
    denominator_less_one: u64,
}

/// Where a position lies, as a number of measures from the start: exact comparison of
/// positions goes by the track, then by the fraction.
pub open spec fn time_lt(a: ObjTime, b: ObjTime) -> bool {
    a.track_of() < b.track_of() || (a.track_of() == b.track_of() && a.num_of() * b.den_of()
        < b.num_of() * a.den_of())
}

/// The two positions denote the same point of the score.
pub open spec fn time_same(a: ObjTime, b: ObjTime) -> bool {
    a.track_of() == b.track_of() && a.num_of() * b.den_of() == b.num_of() * a.den_of()
}

/// `a` is at or before `b`.
pub open spec fn time_le(a: ObjTime, b: ObjTime) -> bool {
    time_lt(a, b) || time_same(a, b)
}

impl ObjTime {
    #[verifier::type_invariant]
    spec fn wf(self) -> bool {
        self.denominator_less_one < u64::MAX
    }

    /// The track of the position.
    pub closed spec fn track_of(self) -> u64 {
        self.track.0
    }

    /// The numerator of the fraction within the track.
    pub closed spec fn num_of(self) -> u64 {
        self.numerator
    }

    /// The denominator of the fraction within the track; never zero.
    pub closed spec fn den_of(self) -> int {
        self.denominator_less_one + 1
    }

    /// The position `numerator / denominator` of the way through `track`.
    pub closed spec fn spec_new(track: u64, numerator: u64, denominator: u64) -> ObjTime {
        ObjTime {
            track: Track(track),
            numerator,
            denominator_less_one: (denominator - 1) as u64,
        }
    }

    /// The parts of a position made by `spec_new`.
    pub proof fn lemma_spec_new(track: u64, numerator: u64, denominator: u64)
        requires
            denominator > 0,
        ensures
            ObjTime::spec_new(track, numerator, denominator).track_of() == track,
            ObjTime::spec_new(track, numerator, denominator).num_of() == numerator,
            ObjTime::spec_new(track, numerator, denominator).den_of() == denominator,
    {
    }

    /// Creates a position; `None` when the denominator is zero.
    pub fn new(track: u64, numerator: u64, denominator: u64) -> (r: Option<Self>)
        ensures
            r is Some <==> denominator > 0,
            r matches Some(t) ==> t.track_of() == track && t.num_of() == numerator && t.den_of()
                == denominator,
            r matches Some(t) ==> t == ObjTime::spec_new(track, numerator, denominator),
    {
        if denominator == 0 {
            None
        } else {
            Some(ObjTime { track: Track(track), numerator, denominator_less_one: denominator - 1 })
        }
    }

    /// The position at the start of `track`.
    pub fn start_of(track: Track) -> (r: Self)
        ensures
            r.track_of() == track.0 && r.num_of() == 0 && r.den_of() == 1,
            r == ObjTime::spec_new(track.0, 0, 1),
    {
        ObjTime { track, numerator: 0, denominator_less_one: 0 }
    }

    /// The track of the position.
    pub fn track(&self) -> (r: Track)
        ensures
            r.0 == self.track_of(),
    {
        self.track
    }

    /// The numerator of the fraction within the track.
    pub fn numerator(&self) -> (r: u64)
        ensures
            r == self.num_of(),
    {
        self.numerator
    }

    /// The denominator of the fraction within the track.
    pub fn denominator(&self) -> (r: u64)
        ensures
            r == self.den_of(),
            r > 0,
    {
        proof {
            use_type_invariant(self);
        }
        self.denominator_less_one + 1
    }

    /// Whether `self` lies strictly before `other`.
    pub fn lt(&self, other: &Self) -> (r: bool)
        ensures
            r == time_lt(*self, *other),
    {
        if self.track.0 != other.track.0 {
            return self.track.0 < other.track.0;
        }
        let sn = self.numerator as u128;
        let sd = self.denominator() as u128;
        let on = other.numerator as u128;
        let od = other.denominator() as u128;
        proof {
            assert(sn * od <= u64::MAX * u64::MAX) by (nonlinear_arith)
                requires
                    sn <= u64::MAX,
                    od <= u64::MAX,
            ;
            assert(on * sd <= u64::MAX * u64::MAX) by (nonlinear_arith)
                requires
                    on <= u64::MAX,
                    sd <= u64::MAX,
            ;
        }
        let a = sn * od;
        let b = on * sd;
        a < b
    }

    /// Whether `self` and `other` denote the same point of the score.
    pub fn same(&self, other: &Self) -> (r: bool)
        ensures
            r == time_same(*self, *other),
    {
        if self.track.0 != other.track.0 {
            return false;
        }
        let sn = self.numerator as u128;
        let sd = self.denominator() as u128;
        let on = other.numerator as u128;
        let od = other.denominator() as u128;
        proof {
            assert(sn * od <= u64::MAX * u64::MAX) by (nonlinear_arith)
                requires
                    sn <= u64::MAX,
                    od <= u64::MAX,
            ;
            assert(on * sd <= u64::MAX * u64::MAX) by (nonlinear_arith)
                requires
                    on <= u64::MAX,
                    sd <= u64::MAX,
            ;
        }
        let a = sn * od;
        let b = on * sd;
        a == b
    }

    /// Whether `self` lies at or before `other`.
    pub fn le(&self, other: &Self) -> (r: bool)
        ensures
            r == time_le(*self, *other),
    {
        self.lt(other) || self.same(other)
    }
}

/// The two characters of a note channel, such as `11` or `D1`.
#[derive(Debug, Clone, Copy, PartialEq, Eq, Hash, Structural)]
pub struct NoteChannelId {
    /// The first character of the channel.
    pub first: u8,
    /// The second character of the channel.
    pub second: u8,
}

impl NoteChannelId {
    /// The channel `01` of background music.
    pub fn bgm() -> (r: Self)
        ensures
            r.first == 48 && r.second == 49,
    {
        NoteChannelId { first: 48, second: 49 }
    }

    /// A note channel of the two given characters.
    pub fn from_bytes(first: u8, second: u8) -> (r: Self)
        ensures
            r.first == first && r.second == second,
    {
        NoteChannelId { first, second }
    }
}

/// A channel of a message command, the `YY` of `#XXXYY:...`.
#[derive(Debug, Clone, Copy, PartialEq, Eq, Hash, Structural)]
pub enum Channel {
    /// `01`: background music.
    Bgm,
    /// `02`: length of the section.
    SectionLen,
    /// `03`: BPM change by a hexadecimal value.
    BpmChangeU8,
    /// `04`: base layer of BGA.
    BgaBase,
    /// `06`: poor layer of BGA.
    BgaPoor,
    /// `07`: overlay layer of BGA.
    BgaLayer,
    /// `08`: BPM change by a `#BPMxx` definition.
    BpmChange,
    /// `09`: scroll stop by a `#STOPxx` definition.
    Stop,
    /// `0A`: second overlay layer of BGA.
    BgaLayer2,
    /// `0B`: opacity of the base layer.
    BgaBaseOpacity,
    /// `0C`: opacity of the overlay layer.
    BgaLayerOpacity,
    /// `0D`: opacity of the second overlay layer.
    BgaLayer2Opacity,
    /// `0E`: opacity of the poor layer.
    BgaPoorOpacity,
    /// `97`: volume of background music.
    BgmVolume,
    /// `98`: volume of key sounds.
    KeyVolume,
    /// `99`: text display.
    Text,
    /// `A0`: judge level change.
    Judge,
    /// `A1`: transparent color of the base layer.
    BgaBaseArgb,
    /// `A2`: transparent color of the overlay layer.
    BgaLayerArgb,
    /// `A3`: transparent color of the second overlay layer.
    BgaLayer2Argb,
    /// `A4`: transparent color of the poor layer.
    BgaPoorArgb,
    /// `A5`: key bound BGA animation.
    BgaKeybound,
    /// `A6`: player option change.
    OptionChange,
    /// `05`: video seek.
    Seek,
    /// `SC`: scroll speed factor.
    Scroll,
    /// `SP`: spacing factor.
    Speed,
    /// A note channel such as `11`.
    Note {
        /// The two characters of the channel.
        channel_id: NoteChannelId,
    },
}

/// The BGA layer that a BGA channel draws on.
pub open spec fn spec_layer_of(channel: Channel) -> Option<BgaLayer> {
    match channel {
        Channel::BgaBase | Channel::BgaBaseOpacity | Channel::BgaBaseArgb => Some(BgaLayer::Base),
        Channel::BgaPoor | Channel::BgaPoorOpacity | Channel::BgaPoorArgb => Some(BgaLayer::Poor),
        Channel::BgaLayer | Channel::BgaLayerOpacity | Channel::BgaLayerArgb => Some(
            BgaLayer::Overlay,
        ),
        Channel::BgaLayer2 | Channel::BgaLayer2Opacity | Channel::BgaLayer2Argb => Some(
            BgaLayer::Overlay2,
        ),
        _ => None,
    }
}

/// The BGA layer of a BGA channel (`BgaLayer::from_channel`).
pub fn layer_of(channel: Channel) -> (r: Option<BgaLayer>)
    ensures
        r == spec_layer_of(channel),
{
    match channel {
        Channel::BgaBase | Channel::BgaBaseOpacity | Channel::BgaBaseArgb => Some(BgaLayer::Base),
        Channel::BgaPoor | Channel::BgaPoorOpacity | Channel::BgaPoorArgb => Some(BgaLayer::Poor),
        Channel::BgaLayer | Channel::BgaLayerOpacity | Channel::BgaLayerArgb => Some(
            BgaLayer::Overlay,
        ),
        Channel::BgaLayer2 | Channel::BgaLayer2Opacity | Channel::BgaLayer2Argb => Some(
            BgaLayer::Overlay2,
        ),
        _ => None,
    }
}

/// The lane of a BGA layer in a timeline: its place from the bottom.
pub open spec fn spec_layer_lane(layer: BgaLayer) -> u8 {
    match layer {
        BgaLayer::Base => 0,
        BgaLayer::Poor => 1,
        BgaLayer::Overlay => 2,
        BgaLayer::Overlay2 => 3,
    }
}

/// The lane that the objects of a channel take in a timeline: the layer for the BGA channels
/// of one layer, otherwise `0`.
pub open spec fn spec_channel_lane(channel: Channel) -> u8 {
    match spec_layer_of(channel) {
        Some(layer) => spec_layer_lane(layer),
        None => 0,
    }
}

/// Computes `spec_channel_lane`.
pub fn channel_lane(channel: Channel) -> (r: u8)
    ensures
        r == spec_channel_lane(channel),
{
    match layer_of(channel) {
        Some(BgaLayer::Base) => 0,
        Some(BgaLayer::Poor) => 1,
        Some(BgaLayer::Overlay) => 2,
        Some(BgaLayer::Overlay2) => 3,
        None => 0,
    }
}

/// A numeric definition kept as the text it was written with; whether the text denotes a
/// valid number is decided when the chart is processed.
#[derive(Debug, PartialEq, Eq)]
pub struct StringValue {
    raw: String,
}

impl Clone for StringValue {
    fn clone(&self) -> (r: Self)
        ensures
            r == *self,
    {
        StringValue { raw: self.raw.clone() }
    }
}

impl StringValue {
    /// The text of the value.
    pub closed spec fn text(&self) -> Seq<char> {
        self.raw@
    }

    /// Keeps `raw` as the text of a value.
    pub fn new(raw: &str) -> (r: Self)
        ensures
            r.text() == raw@,
    {
        StringValue { raw: owned(raw) }
    }

    /// The text of the value.
    pub fn raw(&self) -> (r: &str)
        ensures
            r@ == self.text(),
    {
        self.raw.as_str()
    }
}

/// Display option for the POOR image.
#[derive(Debug, Clone, Copy, PartialEq, Eq, Hash, Structural)]
pub enum PoorMode {
    /// `0`: the POOR image interrupts the BGA.
    Interrupt,
    /// `1`: the POOR image overlays the BGA.
    Overlay,
    /// `2`: the POOR image is not shown.
    Hidden,
}

impl Default for PoorMode {
    fn default() -> (r: Self)
        ensures
            r == PoorMode::Interrupt,
    {
        PoorMode::Interrupt
    }
}

impl PoorMode {
    /// Parses `0`, `1` or `2`.
    pub fn from_str(s: &str) -> (r: Result<Self, ParseWarning>)
        ensures
            s@ == seq!['0'] ==> r == Ok::<Self, ParseWarning>(PoorMode::Interrupt),
            s@ == seq!['1'] ==> r == Ok::<Self, ParseWarning>(PoorMode::Overlay),
            s@ == seq!['2'] ==> r == Ok::<Self, ParseWarning>(PoorMode::Hidden),
            !(s@ == seq!['0'] || s@ == seq!['1'] || s@ == seq!['2']) ==> r matches Err(
                ParseWarning::SyntaxError(_),
            ),
    {
        match single_digit(s) {
            Some(0) => Ok(PoorMode::Interrupt),
            Some(1) => Ok(PoorMode::Overlay),
            Some(2) => Ok(PoorMode::Hidden),
            _ => Err(ParseWarning::SyntaxError(owned("expected 0, 1 or 2"))),
        }
    }
}

/// The value of a text that is one decimal digit.
pub fn single_digit(s: &str) -> (r: Option<u8>)
    ensures
        (s@.len() == 1 && '0' <= s@[0] && s@[0] <= '9') <==> r is Some,
        r matches Some(d) ==> d == (s@[0] as int) - ('0' as int) && s@ =~= seq![s@[0]],
{
    let cs = chars_of(s);
    if cs.len() == 1 && '0' <= cs[0] && cs[0] <= '9' {
        Some(((cs[0] as u32) - ('0' as u32)) as u8)
    } else {
        None
    }
}

/// The play style of the score.
#[derive(Debug, Clone, Copy, PartialEq, Eq, Hash, Structural)]
pub enum PlayerMode {
    /// `1`: one player.
    Single,
    /// `2`: two players.
    Two,
    /// `3`: one player with both sides.
    Double,
}

impl PlayerMode {
    /// Parses `1`, `2` or `3`.
    pub fn from_str(s: &str) -> (r: Result<Self, ParseWarning>)
        ensures
            s@ == seq!['1'] ==> r == Ok::<Self, ParseWarning>(PlayerMode::Single),
            s@ == seq!['2'] ==> r == Ok::<Self, ParseWarning>(PlayerMode::Two),
            s@ == seq!['3'] ==> r == Ok::<Self, ParseWarning>(PlayerMode::Double),
            !(s@ == seq!['1'] || s@ == seq!['2'] || s@ == seq!['3']) ==> r matches Err(
                ParseWarning::SyntaxError(_),
            ),
    {
        match single_digit(s) {
            Some(1) => Ok(PlayerMode::Single),
            Some(2) => Ok(PlayerMode::Two),
            Some(3) => Ok(PlayerMode::Double),
            _ => Err(ParseWarning::SyntaxError(owned("expected one of 1, 2 or 3"))),
        }
    }
}

/// The judge width of the score.
#[derive(Debug, Clone, Copy, PartialEq, Eq, Hash, Structural)]
pub enum JudgeLevel {
    /// `0`.
    VeryHard,
    /// `1`.
    Hard,
    /// `2`.
    Normal,
    /// `3`.
    Easy,
    /// Any other integer.
    OtherInt(i64),
}

/// The judge level that an integer stands for.
pub open spec fn spec_judge_level(v: int) -> JudgeLevel {
    if v == 0 {
        JudgeLevel::VeryHard
    } else if v == 1 {
        JudgeLevel::Hard
    } else if v == 2 {
        JudgeLevel::Normal
    } else if v == 3 {
        JudgeLevel::Easy
    } else {
        JudgeLevel::OtherInt(v as i64)
    }
}

impl JudgeLevel {
    /// The judge level of an integer: `0` to `3` name the usual levels.
    pub fn from_i64(v: i64) -> (r: Self)
        ensures
            r == spec_judge_level(v as int),
    {
        match v {
            0 => JudgeLevel::VeryHard,
            1 => JudgeLevel::Hard,
            2 => JudgeLevel::Normal,
            3 => JudgeLevel::Easy,
            _ => JudgeLevel::OtherInt(v),
        }
    }

    /// Parses an integer judge level.
    pub fn try_from(s: &str) -> (r: Option<Self>)
        ensures
            match crate::text::spec_parse_signed(s@, i64::MAX as int) {
                Some(v) => r == Some(spec_judge_level(v)),
                None => r is None,
            },
    {
        match parse_i64(s) {
            Some(v) => Some(JudgeLevel::from_i64(v)),
            None => None,
        }
    }
}

/// How long notes are judged.
#[derive(Debug, Clone, Copy, PartialEq, Eq, Hash, Structural)]
pub enum LnMode {
    /// `1`: the end of the note needs no release timing.
    Ln,
    /// `2`: charge note, the release is judged.
    Cn,
    /// `3`: hell charge note, holding is judged continuously.
    Hcn,
}

impl Default for LnMode {
    fn default() -> (r: Self)
        ensures
            r == LnMode::Ln,
    {
        LnMode::Ln
    }
}

/// How the ends of long notes are written.
#[derive(Debug, Clone, Copy, PartialEq, Eq, Hash, Structural)]
pub enum LnType {
    /// The ends are consecutive objects of a long note channel.
    Rdm,
    /// The notes are on while the channel holds objects.
    Mgq,
}

impl Default for LnType {
    fn default() -> (r: Self)
        ensures
            r == LnType::Rdm,
    {
        LnType::Rdm
    }
}

/// Relative volume in percent.
#[derive(Debug, Clone, Copy, PartialEq, Eq, Hash, Structural)]
pub struct Volume {
    /// The volume relative to the original, in percent.
    pub relative_percent: u8,
}

impl Default for Volume {
    fn default() -> (r: Self)
        ensures
            r.relative_percent == 100,
    {
        Volume { relative_percent: 100 }
    }
}

} // verus!
