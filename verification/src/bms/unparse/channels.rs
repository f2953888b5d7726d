//! The objects of each channel as the units that messages lay out: objects in the order of
//! their positions, definition values replaced by ids.
use crate::bms::command::{spec_layer_of, Channel, ObjId, ObjTime};
use crate::bms::model::Timeline;
use crate::bms::objects::{
    BgaArgbObj, BgaKeyboundObj, BgaObj, BgaOpacityObj, BgmVolumeObj, BpmChangeObj, JudgeObj,
    KeyVolumeObj, OptionObj, ScrollingFactorObj, SeekObj, SpeedObj, StopObj, TextObj,
};
use crate::bms::unparse::headers::{judge_level_text, judge_level_to_text};
use crate::bms::unparse::ids::{id_step, ObjIdManager};
use crate::bms::unparse::messages::{sort_order, sorted_order, EventUnit};
use crate::chart::types::BgaLayer;
use crate::text::{hex2_text, owned, u8_to_hex2};
use vstd::prelude::*;

verus! {

/// An object whose message value is a definition, written by its text.
pub trait KeyedObj {
    /// The text of the value.
    spec fn spec_key(&self) -> Seq<char>;

    /// Writes the text of the value.
    fn key(&self) -> (r: String)
        ensures
            r@ == self.spec_key(),
    ;
}

impl KeyedObj for BpmChangeObj {
    open spec fn spec_key(&self) -> Seq<char> {
        self.bpm.text()
    }

    fn key(&self) -> (r: String) {
        owned(self.bpm.raw())
    }
}

impl KeyedObj for ScrollingFactorObj {
    open spec fn spec_key(&self) -> Seq<char> {
        self.factor.text()
    }

    fn key(&self) -> (r: String) {
        owned(self.factor.raw())
    }
}

impl KeyedObj for SpeedObj {
    open spec fn spec_key(&self) -> Seq<char> {
        self.factor.text()
    }

    fn key(&self) -> (r: String) {
        owned(self.factor.raw())
    }
}

impl KeyedObj for TextObj {
    open spec fn spec_key(&self) -> Seq<char> {
        self.text@
    }

    fn key(&self) -> (r: String) {
        self.text.clone()
    }
}

impl KeyedObj for JudgeObj {
    open spec fn spec_key(&self) -> Seq<char> {
        judge_level_text(self.judge_level)
    }

    fn key(&self) -> (r: String) {
        judge_level_to_text(self.judge_level)
    }
}

impl KeyedObj for SeekObj {
    open spec fn spec_key(&self) -> Seq<char> {
        self.position.text()
    }

    fn key(&self) -> (r: String) {
        owned(self.position.raw())
    }
}

/// The positions of the objects of a timeline.
pub open spec fn times_of<T>(s: Seq<(ObjTime, u8, T)>) -> Seq<ObjTime> {
    s.map_values(|e: (ObjTime, u8, T)| e.0)
}

fn timeline_times<T>(tl: &Timeline<T>) -> (r: Vec<ObjTime>)
    ensures
        r@ == times_of(tl@),
{
    let entries = tl.entries();
    let mut r: Vec<ObjTime> = Vec::new();
    let mut i: usize = 0;
    while i < entries.len()
        invariant
            i <= entries@.len(),
            entries@ == tl@,
            r@ == times_of(entries@.take(i as int)),
        decreases entries@.len() - i,
    {
        r.push(entries[i].0);
        i += 1;
        assert(r@ =~= times_of(entries@.take(i as int)));
    }
    assert(entries@.take(entries@.len() as int) =~= entries@);
    r
}

/// The objects of a timeline in the order of their positions, with the texts of their
/// values.
pub open spec fn sorted_keyed<T: KeyedObj>(s: Seq<(ObjTime, u8, T)>) -> Seq<(ObjTime, Seq<char>)> {
    sorted_order(times_of(s), s.len() as int).map_values(|i: usize| (s[i as int].0, s[i as int].2.spec_key()))
}

/// The objects of a timeline in the order of their positions, with the texts of their
/// values.
pub fn keyed_objects<T: KeyedObj>(tl: &Timeline<T>) -> (r: Vec<(ObjTime, String)>)
    ensures
        r@.map_values(|p: (ObjTime, String)| (p.0, p.1@)) == sorted_keyed(tl@),
{
    let times = timeline_times(tl);
    let order = sort_order(&times);
    let entries = tl.entries();
    let ghost want = sorted_keyed(tl@);
    let mut r: Vec<(ObjTime, String)> = Vec::new();
    let mut i: usize = 0;
    while i < order.len()
        invariant
            i <= order@.len(),
            entries@ == tl@,
            times@ == times_of(tl@),
            order@ == sorted_order(times@, times@.len() as int),
            times@.len() == tl@.len(),
            forall|j: int| 0 <= j < order@.len() ==> #[trigger] order@[j] < times@.len(),
            want == sorted_keyed(tl@),
            r@.map_values(|p: (ObjTime, String)| (p.0, p.1@)) == want.take(i as int),
        decreases order@.len() - i,
    {
        let k = order[i];
        let e = &entries[k];
        let ghost prev = r@.map_values(|p: (ObjTime, String)| (p.0, p.1@));
        let key = e.2.key();
        r.push((e.0, key));
        assert(r@.map_values(|p: (ObjTime, String)| (p.0, p.1@)) =~= prev.push((e.0, key@)));
        assert(want[i as int] == (e.0, key@));
        assert(want.take(i + 1) =~= want.take(i as int).push(want[i as int]));
        i += 1;
    }
    assert(want.take(order@.len() as int) =~= want);
    r
}

/// The positions of the stops.
pub open spec fn stop_times(s: Seq<StopObj>) -> Seq<ObjTime> {
    s.map_values(|o: StopObj| o.time)
}

/// The stops in the order of their positions, with the texts of their lengths.
pub open spec fn sorted_stops(s: Seq<StopObj>) -> Seq<(ObjTime, Seq<char>)> {
    sorted_order(stop_times(s), s.len() as int).map_values(|i: usize| (s[i as int].time, s[i as int].duration.text()))
}

/// The stops in the order of their positions, with the texts of their lengths.
pub fn stop_objects(stops: &Vec<StopObj>) -> (r: Vec<(ObjTime, String)>)
    ensures
        r@.map_values(|p: (ObjTime, String)| (p.0, p.1@)) == sorted_stops(stops@),
{
    let ghost tv = stop_times(stops@);
    let mut times: Vec<ObjTime> = Vec::new();
    let mut i: usize = 0;
    while i < stops.len()
        invariant
            i <= stops@.len(),
            tv == stop_times(stops@),
            times@ == tv.take(i as int),
        decreases stops@.len() - i,
    {
        times.push(stops[i].time);
        i += 1;
        assert(times@ =~= tv.take(i as int));
    }
    assert(tv.take(stops@.len() as int) =~= tv);
    let order = sort_order(&times);
    let ghost want = sorted_stops(stops@);
    let mut r: Vec<(ObjTime, String)> = Vec::new();
    let mut j: usize = 0;
    while j < order.len()
        invariant
            j <= order@.len(),
            times@ == tv,
            tv == stop_times(stops@),
            tv.len() == stops@.len(),
            order@ == sorted_order(times@, times@.len() as int),
            forall|m: int| 0 <= m < order@.len() ==> #[trigger] order@[m] < times@.len(),
            want == sorted_stops(stops@),
            r@.map_values(|p: (ObjTime, String)| (p.0, p.1@)) == want.take(j as int),
        decreases order@.len() - j,
    {
        let k = order[j];
        assert(order@ == sorted_order(stop_times(stops@), stops@.len() as int));
        assert(want.len() == order@.len());
        assert(want[j as int] == (stops@[order@[j as int] as int].time, stops@[order@[j as int] as int].duration.text()));
        let ghost prev = r@.map_values(|p: (ObjTime, String)| (p.0, p.1@));
        let key = owned(stops[k].duration.raw());
        r.push((stops[k].time, key));
        assert(r@.map_values(|p: (ObjTime, String)| (p.0, p.1@)) =~= prev.push((stops@[k as int].time, key@)));
        assert(want[j as int] == (stops@[k as int].time, key@));
        assert(want.take(j + 1) =~= want.take(j as int).push(want[j as int]));
        j += 1;
    }
    assert(want.take(order@.len() as int) =~= want);
    r
}

/// The unit of an object at `time` on `channel` whose value is the id, or `00` without one.
pub open spec fn id_unit(time: ObjTime, channel: Channel, id: Option<ObjId>) -> EventUnit {
    match id {
        Some(i) => EventUnit { time, channel, first: i.high() as char, second: i.low() as char },
        None => EventUnit { time, channel, first: '0', second: '0' },
    }
}

/// The ids after asking for the value of each of the first `n` objects in turn, the units
/// of those objects, and the values that got fresh ids with their ids.
pub open spec fn keyed_fold(
    state: (Seq<(Seq<char>, ObjId)>, Seq<bool>),
    objs: Seq<(ObjTime, Seq<char>)>,
    channel: Channel,
    n: int,
) -> ((Seq<(Seq<char>, ObjId)>, Seq<bool>), Seq<EventUnit>, Seq<(Seq<char>, ObjId)>)
    decreases n,
{
    if n <= 0 {
        (state, Seq::empty(), Seq::empty())
    } else {
        let (st, units, fresh) = keyed_fold(state, objs, channel, n - 1);
        let (st2, id, is_new) = id_step(st, objs[n - 1].1);
        (
            st2,
            units.push(id_unit(objs[n - 1].0, channel, id)),
            if is_new {
                fresh.push((objs[n - 1].1, id->0))
            } else {
                fresh
            },
        )
    }
}

/// Gives each object the id of its value, in order: the units of the objects on `channel`
/// and the values that got fresh ids.
pub fn keyed_units(manager: &mut ObjIdManager, objs: &Vec<(ObjTime, String)>, channel: Channel) -> (r: (
    Vec<EventUnit>,
    Vec<(String, ObjId)>,
))
    requires
        old(manager).wf(),
    ensures
        final(manager).wf(),
        (final(manager).state(), r.0@, r.1@.map_values(|p: (String, ObjId)| (p.0@, p.1))) == keyed_fold(
            old(manager).state(),
            objs@.map_values(|p: (ObjTime, String)| (p.0, p.1@)),
            channel,
            objs@.len() as int,
        ),
{
    let ghost ov = objs@.map_values(|p: (ObjTime, String)| (p.0, p.1@));
    let mut units: Vec<EventUnit> = Vec::new();
    let mut fresh: Vec<(String, ObjId)> = Vec::new();
    let mut i: usize = 0;
    while i < objs.len()
        invariant
            i <= objs@.len(),
            manager.wf(),
            ov == objs@.map_values(|p: (ObjTime, String)| (p.0, p.1@)),
            (manager.state(), units@, fresh@.map_values(|p: (String, ObjId)| (p.0@, p.1))) == keyed_fold(
                old(manager).state(),
                ov,
                channel,
                i as int,
            ),
        decreases objs@.len() - i,
    {
        let (time, key) = (objs[i].0, &objs[i].1);
        assert(ov[i as int] == (time, key@));
        let ghost fv = fresh@.map_values(|p: (String, ObjId)| (p.0@, p.1));
        let (id, is_new) = manager.get_or_new_id(key.as_str());
        let unit = match id {
            Some(x) => {
                let cs = x.to_chars();
                EventUnit { time, channel, first: cs[0], second: cs[1] }
            },
            None => EventUnit { time, channel, first: '0', second: '0' },
        };
        units.push(unit);
        if is_new {
            fresh.push((key.clone(), id.unwrap()));
            assert(fresh@.map_values(|p: (String, ObjId)| (p.0@, p.1)) =~= fv.push((key@, id->0)));
        }
        i += 1;
    }
    (units, fresh)
}

/// An object whose message value is written directly.
pub trait UnitObj {
    /// The unit of the object at `time`.
    spec fn spec_unit(&self, time: ObjTime) -> EventUnit;

    /// Makes the unit of the object at `time`.
    fn unit(&self, time: ObjTime) -> (r: EventUnit)
        ensures
            r == self.spec_unit(time),
    ;
}

/// The BGA channel of a layer.
pub open spec fn layer_channel(layer: BgaLayer) -> Channel {
    match layer {
        BgaLayer::Base => Channel::BgaBase,
        BgaLayer::Poor => Channel::BgaPoor,
        BgaLayer::Overlay => Channel::BgaLayer,
        BgaLayer::Overlay2 => Channel::BgaLayer2,
    }
}

/// Writing a score keeps the layer of every BGA object: the channel that a picture change,
/// an opacity change or a transparent color change of a layer is written on is the one
/// that reading takes back as that same layer.
pub proof fn lemma_bga_channels_keep_layer(layer: BgaLayer)
    ensures
        spec_layer_of(layer_channel(layer)) == Some(layer),
        spec_layer_of(opacity_channel(layer)) == Some(layer),
        spec_layer_of(argb_channel(layer)) == Some(layer),
{
}

/// The opacity channel of a layer.
pub open spec fn opacity_channel(layer: BgaLayer) -> Channel {
    match layer {
        BgaLayer::Base => Channel::BgaBaseOpacity,
        BgaLayer::Poor => Channel::BgaPoorOpacity,
        BgaLayer::Overlay => Channel::BgaLayerOpacity,
        BgaLayer::Overlay2 => Channel::BgaLayer2Opacity,
    }
}

/// The transparent color channel of a layer.
pub open spec fn argb_channel(layer: BgaLayer) -> Channel {
    match layer {
        BgaLayer::Base => Channel::BgaBaseArgb,
        BgaLayer::Poor => Channel::BgaPoorArgb,
        BgaLayer::Overlay => Channel::BgaLayerArgb,
        BgaLayer::Overlay2 => Channel::BgaLayer2Argb,
    }
}

/// A unit whose value is a byte in hexadecimal.
pub open spec fn hex_unit(time: ObjTime, channel: Channel, v: u8) -> EventUnit {
    EventUnit { time, channel, first: hex2_text(v)[0], second: hex2_text(v)[1] }
}

fn make_hex_unit(time: ObjTime, channel: Channel, v: u8) -> (r: EventUnit)
    ensures
        r == hex_unit(time, channel, v),
{
    let t = u8_to_hex2(v);
    let cs = crate::text::chars_of(t.as_str());
    EventUnit { time, channel, first: cs[0], second: cs[1] }
}

impl UnitObj for BgaObj {
    open spec fn spec_unit(&self, time: ObjTime) -> EventUnit {
        EventUnit { time, channel: layer_channel(self.layer), first: self.id.high() as char, second: self.id.low() as char }
    }

    fn unit(&self, time: ObjTime) -> (r: EventUnit)
        ensures
            spec_layer_of(r.channel) == Some(self.layer),
    {
        proof {
            lemma_bga_channels_keep_layer(self.layer);
        }
        let cs = self.id.to_chars();
        let channel = match self.layer {
            BgaLayer::Base => Channel::BgaBase,
            BgaLayer::Poor => Channel::BgaPoor,
            BgaLayer::Overlay => Channel::BgaLayer,
            BgaLayer::Overlay2 => Channel::BgaLayer2,
        };
        EventUnit { time, channel, first: cs[0], second: cs[1] }
    }
}

impl UnitObj for BgaOpacityObj {
    open spec fn spec_unit(&self, time: ObjTime) -> EventUnit {
        hex_unit(time, opacity_channel(self.layer), self.opacity)
    }

    fn unit(&self, time: ObjTime) -> (r: EventUnit)
        ensures
            spec_layer_of(r.channel) == Some(self.layer),
    {
        proof {
            lemma_bga_channels_keep_layer(self.layer);
        }
        let channel = match self.layer {
            BgaLayer::Base => Channel::BgaBaseOpacity,
            BgaLayer::Poor => Channel::BgaPoorOpacity,
            BgaLayer::Overlay => Channel::BgaLayerOpacity,
            BgaLayer::Overlay2 => Channel::BgaLayer2Opacity,
        };
        make_hex_unit(time, channel, self.opacity)
    }
}

impl UnitObj for BgaArgbObj {
    open spec fn spec_unit(&self, time: ObjTime) -> EventUnit {
        hex_unit(time, argb_channel(self.layer), self.argb.alpha)
    }

    fn unit(&self, time: ObjTime) -> (r: EventUnit)
        ensures
            spec_layer_of(r.channel) == Some(self.layer),
    {
        proof {
            lemma_bga_channels_keep_layer(self.layer);
        }
        let channel = match self.layer {
            BgaLayer::Base => Channel::BgaBaseArgb,
            BgaLayer::Poor => Channel::BgaPoorArgb,
            BgaLayer::Overlay => Channel::BgaLayerArgb,
            BgaLayer::Overlay2 => Channel::BgaLayer2Argb,
        };
        make_hex_unit(time, channel, self.argb.alpha)
    }
}

impl UnitObj for BgmVolumeObj {
    open spec fn spec_unit(&self, time: ObjTime) -> EventUnit {
        hex_unit(time, Channel::BgmVolume, self.volume)
    }

    fn unit(&self, time: ObjTime) -> (r: EventUnit) {
        make_hex_unit(time, Channel::BgmVolume, self.volume)
    }
}

impl UnitObj for KeyVolumeObj {
    open spec fn spec_unit(&self, time: ObjTime) -> EventUnit {
        hex_unit(time, Channel::KeyVolume, self.volume)
    }

    fn unit(&self, time: ObjTime) -> (r: EventUnit) {
        make_hex_unit(time, Channel::KeyVolume, self.volume)
    }
}

impl UnitObj for BgaKeyboundObj {
    open spec fn spec_unit(&self, time: ObjTime) -> EventUnit {
        hex_unit(time, Channel::BgaKeybound, self.event.line)
    }

    fn unit(&self, time: ObjTime) -> (r: EventUnit) {
        make_hex_unit(time, Channel::BgaKeybound, self.event.line)
    }
}

impl UnitObj for OptionObj {
    open spec fn spec_unit(&self, time: ObjTime) -> EventUnit {
        EventUnit { time, channel: Channel::OptionChange, first: '0', second: '0' }
    }

    fn unit(&self, time: ObjTime) -> (r: EventUnit) {
        EventUnit { time, channel: Channel::OptionChange, first: '0', second: '0' }
    }
}

/// The units of the objects of a timeline in the order of their positions.
pub open spec fn sorted_units<T: UnitObj>(s: Seq<(ObjTime, u8, T)>) -> Seq<EventUnit> {
    sorted_order(times_of(s), s.len() as int).map_values(|i: usize| s[i as int].2.spec_unit(s[i as int].0))
}

/// The units of the objects of a timeline in the order of their positions.
pub fn unit_objects<T: UnitObj>(tl: &Timeline<T>) -> (r: Vec<EventUnit>)
    ensures
        r@ == sorted_units(tl@),
{
    let times = timeline_times(tl);
    let order = sort_order(&times);
    let entries = tl.entries();
    let ghost want = sorted_units(tl@);
    let mut r: Vec<EventUnit> = Vec::new();
    let mut i: usize = 0;
    while i < order.len()
        invariant
            i <= order@.len(),
            entries@ == tl@,
            times@ == times_of(tl@),
            order@ == sorted_order(times@, times@.len() as int),
            times@.len() == tl@.len(),
            forall|j: int| 0 <= j < order@.len() ==> #[trigger] order@[j] < times@.len(),
            want == sorted_units(tl@),
            r@ == want.take(i as int),
        decreases order@.len() - i,
    {
        let k = order[i];
        let e = &entries[k];
        r.push(e.2.unit(e.0));
        i += 1;
        assert(r@ =~= want.take(i as int));
    }
    assert(want.take(order@.len() as int) =~= want);
    r
}

/// The units on one channel, in their order.
pub open spec fn only_channel(s: Seq<EventUnit>, channel: Channel) -> Seq<EventUnit> {
    s.filter(|u: EventUnit| u.channel == channel)
}

/// The units on one channel, in their order.
pub fn units_on(s: &Vec<EventUnit>, channel: Channel) -> (r: Vec<EventUnit>)
    ensures
        r@ == only_channel(s@, channel),
{
    let mut r: Vec<EventUnit> = Vec::new();
    let mut i: usize = 0;
    while i < s.len()
        invariant
            i <= s@.len(),
            r@ == s@.take(i as int).filter(|u: EventUnit| u.channel == channel),
        decreases s@.len() - i,
    {
        proof {
            assert(s@.take(i + 1).drop_last() =~= s@.take(i as int));
            s@.take(i as int).lemma_filter_push(s@[i as int], |u: EventUnit| u.channel == channel);
            assert(s@.take(i + 1) =~= s@.take(i as int).push(s@[i as int]));
        }
        if s[i].channel == channel {
            r.push(s[i]);
        }
        i += 1;
    }
    assert(s@.take(s@.len() as int) =~= s@);
    r
}

} // verus!
