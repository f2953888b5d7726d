//! Containers of the parsed score: definitions by object id, objects by position, and notes.
use crate::bms::command::{time_lt, time_same, Channel, NoteChannelId, ObjId, ObjTime};
use crate::bms::error::ParseWarning;
use crate::bms::objects::{
    BmpObjects, BmsSourceRepresentation, BpmObjects, JudgeObjects, Metadata, MusicInfo,
    OptionObjects, Resources, ScrollObjects, SectionLenObjects, SpeedObjects, Sprites, StopObjects,
    TextObjects, Video, VolumeObjects, WavObjects,
};
use crate::bms::prompt::{ChannelDuplication, DefDuplication, Prompter};
use std::collections::BTreeMap;
use std::rc::Rc;
use vstd::prelude::*;

verus! {

/// The number of distinct object ids, `62 * 62`.
pub const OBJ_ID_COUNT: usize = 3844;

/// Definitions by object id, such as the file of each `#WAVxx`.
#[derive(Debug, Clone)]
pub struct ObjIdMap<V> {
    slots: Vec<Option<V>>,
}

/// The map `new_m` and the outcome `r` are those of adding the definition `v` of `id` to
/// `old_m`: a new id takes it; for a defined id the prompter decides whether the newer
/// replaces the older and whether to warn. Other ids keep their definitions.
pub open spec fn spec_defined<V, P: Prompter>(
    old_m: ObjIdMap<V>,
    new_m: ObjIdMap<V>,
    id: ObjId,
    v: V,
    dup: DefDuplication,
    prompter: P,
    r: Result<(), ParseWarning>,
) -> bool {
    &&& (old_m.spec_get(id) is None ==> new_m.spec_get(id) == Some(v) && r == Ok::<(), ParseWarning>(()))
    &&& (old_m.spec_get(id) is Some ==> {
        let w = prompter.def_choice(dup);
        &&& new_m.spec_get(id) == (if w.takes_newer() {
            Some(v)
        } else {
            old_m.spec_get(id)
        })
        &&& r == (if w.warns() {
            Err::<(), ParseWarning>(ParseWarning::DuplicatingDef(id))
        } else {
            Ok(())
        })
    })
    &&& forall|k: int| k != id.value() ==> #[trigger] new_m.at(k) == old_m.at(k)
}

impl<V> ObjIdMap<V> {
    /// The definition of the id whose base-62 number is `k`.
    pub closed spec fn at(self, k: int) -> Option<V> {
        if 0 <= k < self.slots@.len() {
            self.slots@[k]
        } else {
            None
        }
    }

    /// The definition of `id`, if any.
    pub open spec fn spec_get(self, id: ObjId) -> Option<V> {
        self.at(id.value())
    }

    /// An empty map.
    pub fn new() -> (r: Self)
        ensures
            forall|k: int| #[trigger] r.at(k) is None,
    {
        let mut slots: Vec<Option<V>> = Vec::new();
        let mut i: usize = 0;
        while i < OBJ_ID_COUNT
            invariant
                i <= OBJ_ID_COUNT,
                slots@.len() == i,
                forall|j: int| 0 <= j < i ==> slots@[j] is None,
            decreases OBJ_ID_COUNT - i,
        {
            slots.push(None);
            i += 1;
        }
        ObjIdMap { slots }
    }

    /// The definition of `id`, if any.
    pub fn get(&self, id: &ObjId) -> (r: Option<&V>)
        ensures
            r is Some <==> self.spec_get(*id) is Some,
            r matches Some(v) ==> self.spec_get(*id) == Some(*v),
    {
        let k = id.as_u16() as usize;
        if k >= self.slots.len() {
            return None;
        }
        match &self.slots[k] {
            Some(v) => Some(v),
            None => None,
        }
    }

    /// The definition of the id whose base-62 number is `k`, if any.
    pub fn get_at(&self, k: u16) -> (r: Option<&V>)
        ensures
            r is Some <==> self.at(k as int) is Some,
            r matches Some(v) ==> self.at(k as int) == Some(*v),
    {
        let i = k as usize;
        if i >= self.slots.len() {
            return None;
        }
        match &self.slots[i] {
            Some(v) => Some(v),
            None => None,
        }
    }

    /// Whether `id` is defined.
    pub fn contains_key(&self, id: &ObjId) -> (r: bool)
        ensures
            r == self.spec_get(*id) is Some,
    {
        self.get(id).is_some()
    }

    /// Defines `id` as `v`, replacing any earlier definition.
    pub fn insert(&mut self, id: ObjId, v: V)
        ensures
            final(self).spec_get(id) == Some(v),
            forall|k: int| k != id.value() ==> #[trigger] final(self).at(k) == old(self).at(k),
    {
        let k = id.as_u16() as usize;
        while self.slots.len() <= k
            invariant
                k == id.value(),
                k < OBJ_ID_COUNT,
                forall|q: int| #[trigger] self.at(q) == old(self).at(q),
            decreases k + 1 - self.slots@.len(),
        {
            let ghost before = *self;
            self.slots.push(None);
            assert forall|q: int| #[trigger] self.at(q) == before.at(q) by {
                if q == before.slots@.len() {
                    assert(self.slots@[q] is None);
                } else if 0 <= q < before.slots@.len() {
                    assert(self.slots@[q] == before.slots@[q]);
                }
            }
        }
        let ghost before = *self;
        self.slots.set(k, Some(v));
        assert forall|q: int| q != id.value() implies #[trigger] self.at(q) == old(self).at(q) by {
            assert(self.at(q) == before.at(q));
        }
    }

    /// Adds the definition `v` of `id` from a command. If `id` is already defined the
    /// prompter decides whether the newer replaces the older and whether to warn.
    pub fn define<P: Prompter>(
        &mut self,
        id: ObjId,
        v: V,
        dup: DefDuplication,
        prompter: &P,
    ) -> (r: Result<(), ParseWarning>)
        ensures
            spec_defined(*old(self), *final(self), id, v, dup, *prompter, r),
    {
        if self.contains_key(&id) {
            let w = prompter.handle_def_duplication(dup);
            if w.uses_newer() {
                self.insert(id, v);
            }
            w.def_warning(id)
        } else {
            self.insert(id, v);
            Ok(())
        }
    }

    /// The defined ids in increasing order of their base-62 number.
    pub fn keys(&self) -> (r: Vec<ObjId>)
        ensures
            forall|i: int| 0 <= i < r@.len() ==> self.spec_get(#[trigger] r@[i]) is Some,
            forall|k: int|
                #![trigger self.at(k)]
                0 <= k < OBJ_ID_COUNT && self.at(k) is Some ==> exists|i: int|
                    0 <= i < r@.len() && #[trigger] r@[i].value() == k,
            forall|i: int, j: int| 0 <= i < j < r@.len() ==> r@[i].value() < r@[j].value(),
    {
        let mut r: Vec<ObjId> = Vec::new();
        let mut k: u16 = 0;
        while k < 3844
            invariant
                k <= 3844,
                forall|i: int| 0 <= i < r@.len() ==> self.spec_get(#[trigger] r@[i]) is Some,
                forall|i: int| 0 <= i < r@.len() ==> #[trigger] r@[i].value() < k,
                forall|q: int|
                    #![trigger self.at(q)]
                    0 <= q < k && self.at(q) is Some ==> exists|i: int|
                        0 <= i < r@.len() && #[trigger] r@[i].value() == q,
                forall|i: int, j: int| 0 <= i < j < r@.len() ==> r@[i].value() < r@[j].value(),
            decreases 3844 - k,
        {
            let present = (k as usize) < self.slots.len() && self.slots[k as usize].is_some();
            assert(present == self.at(k as int) is Some);
            let ghost r0 = r@;
            if present {
                let id = ObjId::from_u16(k).unwrap();
                r.push(id);
                assert(r@[r@.len() - 1].value() == k);
            }
            assert forall|q: int|
                #![trigger self.at(q)]
                0 <= q < k + 1 && self.at(q) is Some implies exists|i: int|
                    0 <= i < r@.len() && #[trigger] r@[i].value() == q by {
                if q < k {
                    let i = choose|i: int| 0 <= i < r0.len() && #[trigger] r0[i].value() == q;
                    assert(r@[i] == r0[i]);
                } else {
                    assert(r@[r@.len() - 1].value() == k);
                }
            }
            k += 1;
        }
        r
    }
}

/// A note or background sound object.
#[derive(Debug, Clone, Copy, PartialEq, Eq, Hash, Structural)]
pub struct WavObj {
    /// Where the object lies.
    pub offset: ObjTime,
    /// The channel it lies on.
    pub channel_id: NoteChannelId,
    /// The sound it plays.
    pub wav_id: ObjId,
}

/// The index of the last of the first `n` notes that plays `wav_id`.
pub open spec fn last_with_id(s: Seq<WavObj>, wav_id: ObjId, n: int) -> Option<int>
    decreases n,
{
    if n <= 0 {
        None
    } else if s[n - 1].wav_id == wav_id {
        Some(n - 1)
    } else {
        last_with_id(s, wav_id, n - 1)
    }
}

/// Among the first `n` notes, the index of the latest on `channel_id` strictly before
/// `time`; of several at the same position, the one added last.
pub open spec fn latest_before(s: Seq<WavObj>, time: ObjTime, channel_id: NoteChannelId, n: int) -> Option<int>
    decreases n,
{
    if n <= 0 {
        None
    } else {
        let b = latest_before(s, time, channel_id, n - 1);
        let j = n - 1;
        if time_lt(s[j].offset, time) && s[j].channel_id == channel_id && (b is None || !time_lt(
            s[j].offset,
            s[b->0].offset,
        )) {
            Some(j)
        } else {
            b
        }
    }
}

/// What `latest_before` picks lies among the first `n` notes.
pub proof fn lemma_latest_before_bounds(s: Seq<WavObj>, time: ObjTime, channel_id: NoteChannelId, n: int)
    ensures
        latest_before(s, time, channel_id, n) matches Some(b) ==> 0 <= b < n,
    decreases n,
{
    if n > 0 {
        lemma_latest_before_bounds(s, time, channel_id, n - 1);
    }
}

/// The note and background sound objects in the order they were given.
#[derive(Debug, Clone)]
pub struct Notes {
    objs: Vec<WavObj>,
}

impl View for Notes {
    type V = Seq<WavObj>;

    closed spec fn view(&self) -> Seq<WavObj> {
        self.objs@
    }
}

impl Notes {
    /// No notes.
    pub fn new() -> (r: Self)
        ensures
            r@ == Seq::<WavObj>::empty(),
    {
        Notes { objs: Vec::new() }
    }

    /// Adds a note.
    pub fn push_note(&mut self, obj: WavObj)
        ensures
            final(self)@ == old(self)@.push(obj),
    {
        self.objs.push(obj);
    }

    /// Adds a background sound of `wav_id` at `time`, on the channel `01`.
    pub fn push_bgm(&mut self, time: ObjTime, wav_id: ObjId)
        ensures
            final(self)@ == old(self)@.push(
                WavObj { offset: time, channel_id: NoteChannelId { first: 48, second: 49 }, wav_id },
            ),
    {
        self.objs.push(WavObj { offset: time, channel_id: NoteChannelId::bgm(), wav_id });
    }

    /// Removes and returns the note at index `idx`, if there is one.
    pub fn pop_by_idx(&mut self, idx: usize) -> (r: Option<WavObj>)
        ensures
            idx < old(self)@.len() ==> r == Some(old(self)@[idx as int]) && final(self)@ == old(self)@.remove(
                idx as int,
            ),
            idx >= old(self)@.len() ==> r is None && final(self)@ == old(self)@,
    {
        if idx < self.objs.len() {
            Some(self.objs.remove(idx))
        } else {
            None
        }
    }

    /// Removes and returns the note of `wav_id` added last, if there is one.
    pub fn pop_latest_of(&mut self, wav_id: ObjId) -> (r: Option<WavObj>)
        ensures
            match last_with_id(old(self)@, wav_id, old(self)@.len() as int) {
                None => r is None && final(self)@ == old(self)@,
                Some(e) => r == Some(old(self)@[e]) && final(self)@ == old(self)@.remove(e),
            },
    {
        let mut i: usize = self.objs.len();
        while i > 0 && self.objs[i - 1].wav_id != wav_id
            invariant
                i <= self.objs@.len(),
                last_with_id(self@, wav_id, self@.len() as int) == last_with_id(self@, wav_id, i as int),
            decreases i,
        {
            i -= 1;
        }
        if i == 0 {
            None
        } else {
            Some(self.objs.remove(i - 1))
        }
    }

    /// The index of the latest note on `channel_id` strictly before `time`; of notes at the
    /// same position, the one added last.
    pub fn latest_before(&self, time: &ObjTime, channel_id: NoteChannelId) -> (r: Option<usize>)
        ensures
            r is None <==> latest_before(self@, *time, channel_id, self@.len() as int) is None,
            r matches Some(i) ==> latest_before(self@, *time, channel_id, self@.len() as int) == Some(
                i as int,
            ),
    {
        let mut best: Option<usize> = None;
        let mut i: usize = 0;
        while i < self.objs.len()
            invariant
                i <= self.objs@.len(),
                best is None <==> latest_before(self@, *time, channel_id, i as int) is None,
                best matches Some(j) ==> latest_before(self@, *time, channel_id, i as int) == Some(
                    j as int,
                ),
                best matches Some(j) ==> j < i,
            decreases self.objs@.len() - i,
        {
            proof {
                lemma_latest_before_bounds(self@, *time, channel_id, i as int);
            }
            let o = self.objs[i];
            if o.offset.lt(time) && o.channel_id == channel_id {
                let later = match best {
                    None => true,
                    Some(b) => !o.offset.lt(&self.objs[b].offset),
                };
                if later {
                    best = Some(i);
                }
            }
            i += 1;
        }
        best
    }

    /// All the notes in the order they were added.
    pub fn all_notes(&self) -> (r: &[WavObj])
        ensures
            r@ == self@,
    {
        self.objs.as_slice()
    }

    /// Whether there is no note.
    pub fn is_empty(&self) -> (r: bool)
        ensures
            r == (self@.len() == 0),
    {
        self.objs.len() == 0
    }
}

impl Default for Notes {
    fn default() -> (r: Self)
        ensures
            r@ == Seq::<WavObj>::empty(),
    {
        Notes::new()
    }
}

/// Objects by position: at most one per position and lane (a lane tells apart, for
/// example, the layers of a picture), duplicates decided by the prompter.
#[derive(Debug, Clone)]
pub struct Timeline<T> {
    entries: Vec<(ObjTime, u8, T)>,
}

impl<T> View for Timeline<T> {
    type V = Seq<(ObjTime, u8, T)>;

    closed spec fn view(&self) -> Seq<(ObjTime, u8, T)> {
        self.entries@
    }
}

/// The entry of `s` at the same position as `time` on `lane`, if any; there is at most one.
pub open spec fn first_at<T>(s: Seq<(ObjTime, u8, T)>, time: ObjTime, lane: u8) -> Option<int> {
    if exists|i: int| 0 <= i < s.len() && time_same(#[trigger] s[i].0, time) && s[i].1 == lane {
        Some(
            choose|i: int|
                0 <= i < s.len() && time_same(#[trigger] s[i].0, time) && s[i].1 == lane
                    && forall|j: int|
                    0 <= j < i ==> !(time_same(#[trigger] s[j].0, time) && s[j].1 == lane),
        )
    } else {
        None
    }
}

/// The objects and the outcome after adding `value` at `time` on `lane` of `channel`:
/// appended when nothing lies there; otherwise the prompter decides whether the newer
/// replaces the older and whether to warn.
pub open spec fn spec_push<T, P: Prompter>(
    s: Seq<(ObjTime, u8, T)>,
    time: ObjTime,
    lane: u8,
    value: T,
    channel: Channel,
    prompter: P,
) -> (Seq<(ObjTime, u8, T)>, Result<(), ParseWarning>) {
    match first_at(s, time, lane) {
        None => (s.push((time, lane, value)), Ok(())),
        Some(i) => {
            let w = prompter.channel_choice(ChannelDuplication { time, channel });
            (
                if w.takes_newer() {
                    s.update(i, (time, lane, value))
                } else {
                    s
                },
                if w.warns() {
                    Err(ParseWarning::DuplicatingChannelObj(time, channel))
                } else {
                    Ok(())
                },
            )
        },
    }
}

impl<T> Timeline<T> {
    /// No objects.
    pub fn new() -> (r: Self)
        ensures
            r@ == Seq::<(ObjTime, u8, T)>::empty(),
    {
        Timeline { entries: Vec::new() }
    }

    /// The objects with their positions and lanes, in the order they were added.
    pub fn entries(&self) -> (r: &[(ObjTime, u8, T)])
        ensures
            r@ == self@,
    {
        self.entries.as_slice()
    }

    /// The number of objects.
    pub fn len(&self) -> (r: usize)
        ensures
            r == self@.len(),
    {
        self.entries.len()
    }

    /// Whether there is no object.
    pub fn is_empty(&self) -> (r: bool)
        ensures
            r == (self@.len() == 0),
    {
        self.entries.len() == 0
    }

    /// The index of the object at the same position as `time` on `lane`, if any.
    fn find(&self, time: &ObjTime, lane: u8) -> (r: Option<usize>)
        ensures
            match r {
                Some(i) => 0 <= i < self@.len() && time_same(self@[i as int].0, *time)
                    && self@[i as int].1 == lane && forall|j: int|
                    0 <= j < i ==> !(time_same(#[trigger] self@[j].0, *time) && self@[j].1
                        == lane),
                None => forall|j: int|
                    0 <= j < self@.len() ==> !(time_same(#[trigger] self@[j].0, *time)
                        && self@[j].1 == lane),
            },
    {
        let mut i: usize = 0;
        while i < self.entries.len()
            invariant
                i <= self.entries@.len(),
                forall|j: int|
                    0 <= j < i ==> !(time_same(#[trigger] self@[j].0, *time) && self@[j].1
                        == lane),
            decreases self.entries@.len() - i,
        {
            if self.entries[i].0.same(time) && self.entries[i].1 == lane {
                return Some(i);
            }
            i += 1;
        }
        None
    }

    /// Adds the object `value` at `time` on `lane` of `channel`. When an object is already
    /// at that position the prompter decides whether the newer replaces it and whether to
    /// warn.
    pub fn push<P: Prompter>(
        &mut self,
        time: ObjTime,
        lane: u8,
        value: T,
        channel: Channel,
        prompter: &P,
    ) -> (r: Result<(), ParseWarning>)
        ensures
            (final(self)@, r) == spec_push(old(self)@, time, lane, value, channel, *prompter),
    {
        match self.find(&time, lane) {
            Some(i) => {
                proof {
                    let s = old(self)@;
                    assert(exists|k: int|
                        0 <= k < s.len() && time_same(#[trigger] s[k].0, time) && s[k].1 == lane)
                        by {
                        assert(time_same(s[i as int].0, time));
                    }
                    let c = first_at(s, time, lane)->0;
                    if c < i {
                        assert(!(time_same(s[c].0, time) && s[c].1 == lane));
                    }
                    if i < c {
                        assert(!(time_same(s[i as int].0, time) && s[i as int].1 == lane));
                    }
                }
                let w = prompter.handle_channel_duplication(ChannelDuplication { time, channel });
                if w.uses_newer() {
                    self.entries.set(i, (time, lane, value));
                }
                let r = w.channel_warning(time, channel);
                assert(first_at(old(self)@, time, lane) == Some(i as int));
                assert(w == prompter.channel_choice(ChannelDuplication { time, channel }));
                assert(self@ == spec_push(old(self)@, time, lane, value, channel, *prompter).0);
                assert(r == spec_push(old(self)@, time, lane, value, channel, *prompter).1);
                r
            },
            None => {
                self.entries.push((time, lane, value));
                assert(first_at(old(self)@, time, lane) is None);
                assert(self@ == spec_push(old(self)@, time, lane, value, channel, *prompter).0);
                Ok(())
            },
        }
    }
}

/// How a random or switch scope picks its number.
#[derive(Debug, Clone, Copy, PartialEq, Eq, Hash, Structural)]
pub enum ControlFlowValue {
    /// A number drawn from `1` to the given maximum (`#RANDOM`, `#SWITCH`).
    GenMax(u64),
    /// The given number (`#SETRANDOM`, `#SETSWITCH`).
    SetTo(u64),
}

/// One branch of a random or switch scope: the score it holds when its number is drawn.
#[derive(Debug, Clone)]
pub struct RandomizedBranch {
    /// The number that selects the branch.
    pub condition: u64,
    /// The score inside the branch, shared by the numbers that select the same branch.
    pub sub: Rc<Bms>,
}

impl RandomizedBranch {
    /// The branch selected by `condition`, holding `sub`.
    pub fn new(condition: u64, sub: Rc<Bms>) -> (r: Self)
        ensures
            r.condition == condition,
            r.sub == sub,
    {
        RandomizedBranch { condition, sub }
    }
}

/// A random or switch scope with every branch it holds.
#[derive(Debug, Clone)]
pub struct RandomizedObjects {
    /// Where the scope starts in the source.
    pub line_number: usize,
    /// How the number is picked.
    pub generating: Option<ControlFlowValue>,
    /// The branches by their number.
    pub branches: BTreeMap<u64, RandomizedBranch>,
}

/// A parsed score.
#[derive(Debug, Clone)]
pub struct Bms {
    /// How the source was written.
    pub repr: BmsSourceRepresentation,
    /// Information about the file.
    pub metadata: Metadata,
    /// Information about the music.
    pub music_info: MusicInfo,
    /// Other resources.
    pub resources: Resources,
    /// Player options.
    pub option: OptionObjects,
    /// Tempo.
    pub bpm: BpmObjects,
    /// Stops.
    pub stop: StopObjects,
    /// Scrolling factors.
    pub scroll: ScrollObjects,
    /// Spacing factors.
    pub speed: SpeedObjects,
    /// Judge rank and gauge.
    pub judge: JudgeObjects,
    /// Texts.
    pub text: TextObjects,
    /// Background video.
    pub video: Video,
    /// Volumes.
    pub volume: VolumeObjects,
    /// Pictures.
    pub bmp: BmpObjects,
    /// Images around the play field.
    pub sprite: Sprites,
    /// Sounds and notes.
    pub wav: WavObjects,
    /// Section lengths.
    pub section_len: SectionLenObjects,
    /// Random and switch scopes with all their branches.
    pub randomized: Vec<RandomizedObjects>,
}

impl Bms {
    /// An empty score.
    pub fn new() -> (r: Self)
        ensures
            r.wav.notes@.len() == 0,
            forall|k: int| #[trigger] r.wav.wav_files.at(k) is None,
            forall|k: int| #[trigger] r.bmp.bmp_files.at(k) is None,
            r.bmp.bga_changes@.len() == 0,
            r.bpm.bpm is None,
            r.bpm.bpm_changes@.len() == 0,
            forall|k: int| #[trigger] r.bpm.bpm_defs.at(k) is None,
            forall|k: int| #[trigger] r.bpm.bpm_change_ids_used.at(k) is None,
            forall|k: int| #[trigger] r.stop.stop_defs.at(k) is None,
            forall|k: int| #[trigger] r.stop.stop_ids_used.at(k) is None,
            forall|k: int| #[trigger] r.speed.speed_defs.at(k) is None,
            forall|k: int| #[trigger] r.scroll.scroll_defs.at(k) is None,
            forall|k: int| #[trigger] r.video.seek_defs.at(k) is None,
            r.judge.total is None,
            r.randomized@.len() == 0,
            r.stop.stops@.len() == 0,
            r.scroll.scrolling_factor_changes@.len() == 0,
            r.section_len.section_len_changes@.len() == 0,
    {
        Bms {
            repr: BmsSourceRepresentation::new(),
            metadata: Metadata::new(),
            music_info: MusicInfo::new(),
            resources: Resources::new(),
            option: OptionObjects::new(),
            bpm: BpmObjects::new(),
            stop: StopObjects::new(),
            scroll: ScrollObjects::new(),
            speed: SpeedObjects::new(),
            judge: JudgeObjects::new(),
            text: TextObjects::new(),
            video: Video::new(),
            volume: VolumeObjects::new(),
            bmp: BmpObjects::new(),
            sprite: Sprites::new(),
            wav: WavObjects::new(),
            section_len: SectionLenObjects::new(),
            randomized: Vec::new(),
        }
    }
}

impl Default for Bms {
    fn default() -> (r: Self)
        ensures
            r.wav.notes@.len() == 0,
            forall|k: int| #[trigger] r.wav.wav_files.at(k) is None,
            forall|k: int| #[trigger] r.bmp.bmp_files.at(k) is None,
            r.bmp.bga_changes@.len() == 0,
            r.bpm.bpm is None,
            r.bpm.bpm_changes@.len() == 0,
            forall|k: int| #[trigger] r.bpm.bpm_defs.at(k) is None,
            forall|k: int| #[trigger] r.bpm.bpm_change_ids_used.at(k) is None,
            forall|k: int| #[trigger] r.stop.stop_defs.at(k) is None,
            forall|k: int| #[trigger] r.stop.stop_ids_used.at(k) is None,
            forall|k: int| #[trigger] r.speed.speed_defs.at(k) is None,
            forall|k: int| #[trigger] r.scroll.scroll_defs.at(k) is None,
            forall|k: int| #[trigger] r.video.seek_defs.at(k) is None,
            r.judge.total is None,
            r.randomized@.len() == 0,
    {
        Bms::new()
    }
}

} // verus!
