//! Pulses: positions on a bmson chart as a count of equal parts of a quarter note.
use crate::bms::command::{ObjTime, Track};
use vstd::prelude::*;

verus! {

/// A position on a bmson chart.
#[derive(Debug, Clone, Copy, PartialEq, Eq, PartialOrd, Ord, Hash, Structural)]
pub struct PulseNumber(pub u64);

impl PulseNumber {
    /// The distance between two pulses.
    pub fn abs_diff(self, other: Self) -> (r: u64)
        ensures
            r == if self.0 >= other.0 {
                self.0 - other.0
            } else {
                other.0 - self.0
            },
    {
        if self.0 >= other.0 {
            self.0 - other.0
        } else {
            other.0 - self.0
        }
    }

    /// The pulse count.
    pub fn value(self) -> (r: u64)
        ensures
            r == self.0,
    {
        self.0
    }
}

/// The pulses at the start of each track after `n` tracks, from quarter note counts of the
/// tracks: each track adds its quarters times the resolution, saturating at `u64::MAX`.
pub open spec fn track_start(quarters: Seq<u64>, resolution: u64, n: int) -> u64
    decreases n,
{
    if n <= 0 {
        0
    } else {
        let before = track_start(quarters, resolution, n - 1);
        let add = quarters[n - 1] * resolution;
        if before + add > u64::MAX {
            u64::MAX
        } else {
            (before + add) as u64
        }
    }
}

/// The start of a later track is never before the start of an earlier one.
pub proof fn lemma_track_start_monotone(quarters: Seq<u64>, resolution: u64, a: int, b: int)
    requires
        0 <= a <= b <= quarters.len(),
    ensures
        track_start(quarters, resolution, a) <= track_start(quarters, resolution, b),
    decreases b - a,
{
    if a < b {
        lemma_track_start_monotone(quarters, resolution, a, b - 1);
        assert(quarters[b - 1] * resolution >= 0) by (nonlinear_arith);
    }
}

/// A converter made from quarter note counts starts at pulse 0, its track starts never
/// decrease from one track to the next (tracks past the last give the last start), and the
/// start of a track in pulses is the pulse of the track's first position.
pub proof fn lemma_pulses_never_decrease(c: PulseConverter, quarters: Seq<u64>, t1: u64, t2: u64, time: ObjTime)
    requires
        c.starts().len() == quarters.len() + 1,
        forall|t: int| 0 <= t <= quarters.len() ==> #[trigger] c.starts()[t] == track_start(quarters, c.spec_resolution(), t),
        t1 <= t2,
        time.num_of() == 0,
        time.den_of() > 0,
    ensures
        c.spec_pulses_on(0) == 0,
        c.spec_pulses_on(t1) <= c.spec_pulses_on(t2),
        c.spec_pulses_at(time) == c.spec_pulses_on(time.track_of()),
{
    let n = quarters.len() as int;
    assert(c.starts()[0] == track_start(quarters, c.spec_resolution(), 0));
    let i1: int = if t1 < c.starts().len() { t1 as int } else { n };
    let i2: int = if t2 < c.starts().len() { t2 as int } else { n };
    assert(c.starts()[i1] == track_start(quarters, c.spec_resolution(), i1));
    assert(c.starts()[i2] == track_start(quarters, c.spec_resolution(), i2));
    lemma_track_start_monotone(quarters, c.spec_resolution(), i1, i2);
    let r = c.spec_resolution();
    assert(4 * r * time.num_of() / time.den_of() == 0) by (nonlinear_arith)
        requires
            time.num_of() == 0,
            time.den_of() > 0,
    ;
}

/// Reading a pulse as a position in 4/4 measures of `4 * resolution` pulses and converting
/// the position back gives the pulse, for a converter whose tracks are all 4/4 measures.
pub proof fn lemma_pulse_round_trip(c: PulseConverter, p: u64)
    requires
        0 < c.spec_resolution(),
        4 * c.spec_resolution() <= u64::MAX,
        (p as int) / (4 * c.spec_resolution()) < c.starts().len(),
        forall|t: int| 0 <= t < c.starts().len() ==> #[trigger] c.starts()[t] == t * 4 * c.spec_resolution(),
    ensures
        c.spec_pulses_at(crate::bmson::convert::spec_pulse_time(p, c.spec_resolution())) == p,
{
    let r = c.spec_resolution();
    let per: u64 = (r * 4) as u64;
    assert(per == 4 * r);
    let q: u64 = p / per;
    let rem: u64 = p % per;
    let t = crate::bmson::convert::spec_pulse_time(p, r);
    assert(t == ObjTime::spec_new(q, rem, per));
    ObjTime::lemma_spec_new(q, rem, per);
    assert(c.spec_pulses_on(q) == q * 4 * r);
    assert(4 * r * rem == per * rem);
    assert((per * rem) / (per as int) == rem) by (nonlinear_arith)
        requires
            per > 0,
    ;
    assert(q * 4 * r + rem == p) by (nonlinear_arith)
        requires
            per > 0,
            per == 4 * r,
            q == p / per,
            rem == p % per,
    ;
}

/// Converts positions on a score to pulses, from the pulses at the start of each track.
#[derive(Debug, Clone)]
pub struct PulseConverter {
    /// The pulses at the start of tracks `0`, `1`, ... (one more than the tracks given).
    pulses_at_track_start: Vec<u64>,
    /// Pulses a quarter note.
    resolution: u64,
}

impl PulseConverter {
    /// The pulses at the start of each track.
    pub closed spec fn starts(&self) -> Seq<u64> {
        self.pulses_at_track_start@
    }

    /// Pulses a quarter note.
    pub closed spec fn spec_resolution(&self) -> u64 {
        self.resolution
    }

    /// A converter for tracks of `quarters[t]` quarter notes each (the last track given is
    /// the last that holds objects); the tracks after it start where it ends.
    pub fn new(quarters: &Vec<u64>, resolution: u64) -> (r: Self)
        requires
            forall|t: int| 0 <= t < quarters@.len() ==> #[trigger] quarters@[t] * resolution <= u64::MAX,
        ensures
            r.spec_resolution() == resolution,
            r.starts().len() == quarters@.len() + 1,
            forall|t: int| 0 <= t <= quarters@.len() ==> #[trigger] r.starts()[t] == track_start(quarters@, resolution, t),
    {
        let mut starts: Vec<u64> = Vec::new();
        starts.push(0);
        let mut current: u64 = 0;
        let mut t: usize = 0;
        while t < quarters.len()
            invariant
                t <= quarters@.len(),
                starts@.len() == t + 1,
                current == track_start(quarters@, resolution, t as int),
                forall|j: int| 0 <= j <= t ==> #[trigger] starts@[j] == track_start(quarters@, resolution, j),
                forall|j: int| 0 <= j < quarters@.len() ==> #[trigger] quarters@[j] * resolution <= u64::MAX,
            decreases quarters@.len() - t,
        {
            assert(quarters@[t as int] * resolution <= u64::MAX);
            let add = quarters[t] * resolution;
            current = current.saturating_add(add);
            starts.push(current);
            t += 1;
        }
        PulseConverter { pulses_at_track_start: starts, resolution }
    }

    /// The pulses at the start of `track`: past the last track known, those at its start.
    pub fn get_pulses_on(&self, track: Track) -> (r: PulseNumber)
        ensures
            track.0 < self.starts().len() ==> r.0 == self.starts()[track.0 as int],
            track.0 >= self.starts().len() && self.starts().len() > 0 ==> r.0 == self.starts().last(),
            self.starts().len() == 0 ==> r.0 == 0,
    {
        let n = self.pulses_at_track_start.len();
        if (track.0 as u128) < (n as u128) {
            PulseNumber(self.pulses_at_track_start[track.0 as usize])
        } else if n > 0 {
            PulseNumber(self.pulses_at_track_start[n - 1])
        } else {
            PulseNumber(0)
        }
    }

    /// The pulses at the start of `track`, as `get_pulses_on` gives them.
    pub open spec fn spec_pulses_on(&self, track: u64) -> u64 {
        if track < self.starts().len() {
            self.starts()[track as int]
        } else if self.starts().len() > 0 {
            self.starts().last()
        } else {
            0
        }
    }

    /// The pulses at a position, as `get_pulses_at` gives them.
    pub open spec fn spec_pulses_at(&self, time: ObjTime) -> int {
        self.spec_pulses_on(time.track_of()) + 4 * self.spec_resolution() * time.num_of() / time.den_of()
    }

    /// Whether the pulses at a position can be computed without overflow.
    pub open spec fn fits(&self, time: ObjTime) -> bool {
        &&& 4 * self.spec_resolution() <= u64::MAX
        &&& 4 * self.spec_resolution() * time.num_of() <= u64::MAX
        &&& self.spec_pulses_at(time) <= u64::MAX
    }

    /// Pulses a quarter note.
    pub fn resolution(&self) -> (r: u64)
        ensures
            r == self.spec_resolution(),
    {
        self.resolution
    }

    /// The pulses at a position: those at the start of its track, and four quarters of the
    /// resolution for each whole track of the fraction.
    pub fn get_pulses_at(&self, time: ObjTime) -> (r: PulseNumber)
        requires
            self.fits(time),
        ensures
            r.0 == self.spec_pulses_at(time),
    {
        let base = self.get_pulses_on(time.track());
        let den = time.denominator();
        let quarter4 = 4 * self.resolution;
        let num = time.numerator();
        assert(quarter4 * num == 4 * self.spec_resolution() * time.num_of()) by (nonlinear_arith)
            requires
                quarter4 == 4 * self.spec_resolution(),
                num == time.num_of(),
        ;
        let scaled = quarter4 * num;
        PulseNumber(base.0 + scaled / den)
    }
}

} // verus!
