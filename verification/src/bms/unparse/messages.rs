//! The objects of each channel laid out as messages, one message for each run of objects
//! that one message string can hold.
use crate::bms::command::{time_le, time_lt, Channel, ObjTime, Track};
use crate::bms::lex::Token;
use crate::text::string_of;
use vstd::prelude::*;

verus! {

/// The greatest common divisor, by Euclid's algorithm.
pub open spec fn spec_gcd(a: nat, b: nat) -> nat
    decreases b,
{
    if b == 0 {
        a
    } else {
        spec_gcd(b, a % b)
    }
}

/// The least common multiple as `num_integer` computes it: `a * (b / gcd(a, b))`, and `0`
/// when both are `0`.
pub open spec fn spec_lcm(a: nat, b: nat) -> nat {
    if a == 0 && b == 0 {
        0
    } else {
        a * (b / spec_gcd(a, b))
    }
}

/// `Integer::lcm` of `num_integer` (reached through `fraction`) on `u64`: the result is
/// `a * (b / gcd(a, b))`, `0` when both are `0`; the multiplication is the only step that
/// could overflow, and it does not when the result fits.
#[verifier::external_body]
fn lcm_u64(a: u64, b: u64) -> (r: u64)
    requires
        spec_lcm(a as nat, b as nat) <= u64::MAX,
    ensures
        r == spec_lcm(a as nat, b as nat),
{
    fraction::Integer::lcm(&a, &b)
}

/// The least common multiple of the first `n` numbers, starting from `1`.
pub open spec fn lcm_fold(s: Seq<u64>, n: int) -> nat
    decreases n,
{
    if n <= 0 {
        1
    } else {
        spec_lcm(lcm_fold(s, n - 1), s[n - 1] as nat)
    }
}

/// The least common multiple of all the numbers, `1` for none.
pub fn lcm_slice(denominators: &[u64]) -> (r: u64)
    requires
        forall|k: int| 0 <= k <= denominators@.len() ==> #[trigger] lcm_fold(denominators@, k) <= u64::MAX,
    ensures
        r == lcm_fold(denominators@, denominators@.len() as int),
{
    let mut acc: u64 = 1;
    let mut i: usize = 0;
    while i < denominators.len()
        invariant
            i <= denominators@.len(),
            acc == lcm_fold(denominators@, i as int),
            forall|k: int| 0 <= k <= denominators@.len() ==> #[trigger] lcm_fold(denominators@, k) <= u64::MAX,
        decreases denominators@.len() - i,
    {
        assert(lcm_fold(denominators@, i + 1) <= u64::MAX);
        acc = lcm_u64(acc, denominators[i]);
        i += 1;
    }
    acc
}

/// When `a` divides `b`, their greatest common divisor is `a`, either way round.
proof fn lemma_gcd_of_divisor(a: nat, b: nat)
    requires
        a > 0,
        b % a == 0,
    ensures
        spec_gcd(a, b) == a,
        spec_gcd(b, a) == a,
{
    assert(spec_gcd(a, 0) == a);
    if b > 0 {
        if a < b {
            assert(a % b == a) by {
                vstd::arithmetic::div_mod::lemma_small_mod(a, b);
            }
            assert(spec_gcd(b, a) == spec_gcd(a, b % a));
        } else if a == b {
            assert(a % b == 0);
        } else {
            assert(b % a == b) by {
                vstd::arithmetic::div_mod::lemma_small_mod(b, a);
            }
        }
    }
    assert(spec_gcd(b, a) == spec_gcd(a, b % a));
}

/// When `a` divides `b`, their least common multiple is `b`, either way round.
proof fn lemma_lcm_of_divisor(a: nat, b: nat)
    requires
        a > 0,
        b % a == 0,
    ensures
        spec_lcm(a, b) == b,
        spec_lcm(b, a) == b,
{
    lemma_gcd_of_divisor(a, b);
    vstd::arithmetic::div_mod::lemma_fundamental_div_mod(b as int, a as int);
    assert(a * (b / a) == b);
    vstd::arithmetic::div_mod::lemma_div_basics(a as int);
    assert(a / a == 1);
    assert(b * (a / a) == b) by (nonlinear_arith)
        requires
            a / a == 1,
    ;
}

/// One object laid out in a message: where it lies, its channel and its two characters.
#[derive(Debug, Clone, Copy, PartialEq, Eq, Hash, Structural)]
pub struct EventUnit {
    /// Where it lies.
    pub time: ObjTime,
    /// Its channel.
    pub channel: Channel,
    /// The first character of its value.
    pub first: char,
    /// The second character of its value.
    pub second: char,
}

/// An object continues the run of objects before it when it lies in the same track, on the
/// same channel, and not before the last of them.
pub open spec fn joins_group(last: EventUnit, e: EventUnit) -> bool {
    last.time.track_of() == e.time.track_of() && last.channel == e.channel && time_le(last.time, e.time)
}

/// The objects cut into maximal runs under `joins_group`, in their order.
pub open spec fn group_runs(s: Seq<EventUnit>) -> Seq<Seq<EventUnit>>
    decreases s.len(),
{
    if s.len() == 0 {
        Seq::empty()
    } else {
        let g = group_runs(s.drop_last());
        let e = s.last();
        if g.len() > 0 && joins_group(g.last().last(), e) {
            g.update(g.len() - 1, g.last().push(e))
        } else {
            g.push(seq![e])
        }
    }
}

/// The largest denominator of the objects, `1` for none.
pub open spec fn max_den(seg: Seq<EventUnit>) -> int
    decreases seg.len(),
{
    if seg.len() == 0 {
        1
    } else {
        let m = max_den(seg.drop_last());
        if seg.last().time.den_of() > m {
            seg.last().time.den_of()
        } else {
            m
        }
    }
}

/// The denominator of an object divides the largest of a segment or the other way round.
pub open spec fn compatible(seg: Seq<EventUnit>, e: EventUnit) -> bool {
    max_den(seg) % e.time.den_of() == 0 || e.time.den_of() % max_den(seg) == 0
}

/// An object continues a message segment when it lies strictly after its last object and
/// its denominator is compatible with the segment.
pub open spec fn joins_segment(seg: Seq<EventUnit>, e: EventUnit) -> bool {
    time_lt(seg.last().time, e.time) && compatible(seg, e)
}

/// The objects cut into maximal message segments under `joins_segment`, in their order.
pub open spec fn segment_runs(s: Seq<EventUnit>) -> Seq<Seq<EventUnit>>
    decreases s.len(),
{
    if s.len() == 0 {
        Seq::empty()
    } else {
        let g = segment_runs(s.drop_last());
        let e = s.last();
        if g.len() > 0 && joins_segment(g.last(), e) {
            g.update(g.len() - 1, g.last().push(e))
        } else {
            g.push(seq![e])
        }
    }
}

/// The runs held in vectors.
pub open spec fn runs_view(v: Seq<Vec<EventUnit>>) -> Seq<Seq<EventUnit>> {
    v.map_values(|g: Vec<EventUnit>| g@)
}

/// Cuts the objects into maximal runs of one track and channel in which no object lies
/// before the one before it.
pub fn group_events_by_track_channel_time(events: Vec<EventUnit>) -> (r: Vec<Vec<EventUnit>>)
    ensures
        runs_view(r@) == group_runs(events@),
{
    let mut groups: Vec<Vec<EventUnit>> = Vec::new();
    let mut current: Vec<EventUnit> = Vec::new();
    let mut i: usize = 0;
    while i < events.len()
        invariant
            i <= events@.len(),
            i == 0 ==> groups@.len() == 0 && current@.len() == 0,
            i > 0 ==> current@.len() > 0 && runs_view(groups@).push(current@) == group_runs(
                events@.take(i as int),
            ),
        decreases events@.len() - i,
    {
        let e = events[i];
        let ghost before = events@.take(i as int);
        assert(events@.take(i + 1).drop_last() =~= before);
        assert(events@.take(i + 1).last() == e);
        let join = if current.len() > 0 {
            let last = current[current.len() - 1];
            last.time.track().0 == e.time.track().0 && last.channel == e.channel && last.time.le(&e.time)
        } else {
            false
        };
        if join {
            current.push(e);
            proof {
                let g = group_runs(before);
                assert(g.last() == current@.drop_last());
                assert(runs_view(groups@).push(current@) =~= g.update(g.len() - 1, g.last().push(e)));
            }
        } else {
            let ghost g = group_runs(before);
            if current.len() > 0 {
                let ghost gv = runs_view(groups@);
                groups.push(current);
                assert(runs_view(groups@) =~= gv.push(current@));
                assert(runs_view(groups@) == g);
            } else {
                assert(runs_view(groups@) =~= g);
            }
            let mut fresh: Vec<EventUnit> = Vec::new();
            fresh.push(e);
            current = fresh;
            proof {
                assert(current@ =~= seq![e]);
                assert(runs_view(groups@).push(current@) =~= g.push(seq![e]));
            }
        }
        i += 1;
    }
    assert(events@.take(events@.len() as int) =~= events@);
    if current.len() > 0 {
        let ghost gv = runs_view(groups@);
        groups.push(current);
        assert(runs_view(groups@) =~= gv.push(current@));
    }
    groups
}


/// Whether the denominator of `e` divides the largest denominator of `segment` or the
/// other way round (the largest is `1` for an empty segment).
pub fn is_denominator_compatible(e: &EventUnit, segment: &[EventUnit]) -> (r: bool)
    ensures
        r == compatible(segment@, *e),
{
    let mut reference: u64 = 1;
    let mut i: usize = 0;
    while i < segment.len()
        invariant
            i <= segment@.len(),
            reference == max_den(segment@.take(i as int)),
        decreases segment@.len() - i,
    {
        assert(segment@.take(i + 1).drop_last() =~= segment@.take(i as int));
        let d = segment[i].time.denominator();
        if d > reference {
            reference = d;
        }
        i += 1;
    }
    assert(segment@.take(segment@.len() as int) =~= segment@);
    proof {
        lemma_max_den_positive(segment@);
    }
    let d = e.time.denominator();
    reference % d == 0 || d % reference == 0
}

/// The largest denominator is at least `1`.
pub proof fn lemma_max_den_positive(seg: Seq<EventUnit>)
    ensures
        max_den(seg) >= 1,
    decreases seg.len(),
{
    if seg.len() > 0 {
        lemma_max_den_positive(seg.drop_last());
    }
}

/// Cuts a run into maximal message segments: each object lies strictly after the one
/// before it, with a denominator compatible with the segment.
pub fn split_group_into_message_segments(group: Vec<EventUnit>) -> (r: Vec<Vec<EventUnit>>)
    ensures
        runs_view(r@) == segment_runs(group@),
{
    let mut segments: Vec<Vec<EventUnit>> = Vec::new();
    let mut current: Vec<EventUnit> = Vec::new();
    let mut i: usize = 0;
    while i < group.len()
        invariant
            i <= group@.len(),
            i == 0 ==> segments@.len() == 0 && current@.len() == 0,
            i > 0 ==> current@.len() > 0 && runs_view(segments@).push(current@) == segment_runs(
                group@.take(i as int),
            ),
        decreases group@.len() - i,
    {
        let e = group[i];
        let ghost before = group@.take(i as int);
        assert(group@.take(i + 1).drop_last() =~= before);
        assert(group@.take(i + 1).last() == e);
        let join = if current.len() > 0 {
            current[current.len() - 1].time.lt(&e.time) && is_denominator_compatible(&e, current.as_slice())
        } else {
            false
        };
        if join {
            current.push(e);
            proof {
                let g = segment_runs(before);
                assert(g.last() == current@.drop_last());
                assert(runs_view(segments@).push(current@) =~= g.update(g.len() - 1, g.last().push(e)));
            }
        } else {
            let ghost g = segment_runs(before);
            if current.len() > 0 {
                let ghost gv = runs_view(segments@);
                segments.push(current);
                assert(runs_view(segments@) =~= gv.push(current@));
                assert(runs_view(segments@) == g);
            } else {
                assert(runs_view(segments@) =~= g);
            }
            let mut fresh: Vec<EventUnit> = Vec::new();
            fresh.push(e);
            current = fresh;
            proof {
                assert(current@ =~= seq![e]);
                assert(runs_view(segments@).push(current@) =~= g.push(seq![e]));
            }
        }
        i += 1;
    }
    assert(group@.take(group@.len() as int) =~= group@);
    if current.len() > 0 {
        let ghost gv = runs_view(segments@);
        segments.push(current);
        assert(runs_view(segments@) =~= gv.push(current@));
    }
    segments
}


/// `a` divides `c` when `a` divides `b` and `b` divides `c`.
proof fn lemma_divides_trans(c: int, b: int, a: int)
    requires
        a > 0,
        b > 0,
        c >= 0,
        c % b == 0,
        b % a == 0,
    ensures
        c % a == 0,
{
    vstd::arithmetic::div_mod::lemma_fundamental_div_mod(c, b);
    vstd::arithmetic::div_mod::lemma_fundamental_div_mod(b, a);
    let x = c / b;
    let y = b / a;
    assert(c == (x * y) * a) by (nonlinear_arith)
        requires
            c == b * x + 0,
            b == a * y + 0,
    ;
    vstd::arithmetic::div_mod::lemma_mod_multiples_basic(x * y, a);
}

/// The denominators of the objects.
pub open spec fn dens(seg: Seq<EventUnit>) -> Seq<u64> {
    seg.map_values(|e: EventUnit| e.time.den_of() as u64)
}

/// The segment is one that `segment_runs` makes: the denominator of each object is
/// compatible with the objects before it.
pub open spec fn segment_wf(seg: Seq<EventUnit>) -> bool {
    forall|k: int| 0 < k < seg.len() ==> #[trigger] compatible(seg.take(k), seg[k])
}

/// Every denominator fits in `u64` (as the denominators of positions held in memory do).
pub open spec fn dens_fit(seg: Seq<EventUnit>) -> bool {
    forall|j: int| 0 <= j < seg.len() ==> 1 <= #[trigger] seg[j].time.den_of() <= u64::MAX
}

/// The largest denominator is at most `u64::MAX`.
proof fn lemma_max_den_bounds(seg: Seq<EventUnit>)
    requires
        dens_fit(seg),
    ensures
        1 <= max_den(seg) <= u64::MAX,
    decreases seg.len(),
{
    if seg.len() > 0 {
        assert(dens_fit(seg.drop_last()));
        lemma_max_den_bounds(seg.drop_last());
        assert(seg.last() == seg[seg.len() - 1]);
    }
}

/// In a well-formed segment, the least common multiple of the denominators of each prefix
/// is the largest of them, and every denominator of the prefix divides it.
proof fn lemma_lcm_is_max(seg: Seq<EventUnit>, k: int)
    requires
        segment_wf(seg),
        dens_fit(seg),
        0 <= k <= seg.len(),
    ensures
        lcm_fold(dens(seg), k) == max_den(seg.take(k)),
        forall|j: int| 0 <= j < k ==> #[trigger] (max_den(seg.take(k)) % seg[j].time.den_of()) == 0,
    decreases k,
{
    if k > 0 {
        lemma_lcm_is_max(seg, k - 1);
        let prev = seg.take(k - 1);
        assert(seg.take(k).drop_last() =~= prev);
        assert(seg.take(k).last() == seg[k - 1]);
        let l = max_den(prev);
        let d = seg[k - 1].time.den_of();
        assert(dens_fit(prev));
        lemma_max_den_bounds(prev);
        assert(dens(seg)[k - 1] == d);
        if k == 1 {
            assert(l == 1);
            assert(d % 1 == 0);
            lemma_lcm_of_divisor(1, d as nat);
        } else {
            assert(compatible(seg.take(k - 1), seg[k - 1]));
            if d % l == 0 {
                lemma_lcm_of_divisor(l as nat, d as nat);
                vstd::arithmetic::div_mod::lemma_mod_self_0(d);
                assert(d >= l) by {
                    if d < l {
                        vstd::arithmetic::div_mod::lemma_small_mod(d as nat, l as nat);
                    }
                }
                assert forall|j: int| 0 <= j < k implies #[trigger] (max_den(seg.take(k)) % seg[j].time.den_of()) == 0 by {
                    if j < k - 1 {
                        assert(l % seg[j].time.den_of() == 0);
                        lemma_divides_trans(d, l, seg[j].time.den_of());
                    }
                }
            } else {
                assert(l % d == 0);
                lemma_lcm_of_divisor(d as nat, l as nat);
                assert(d <= l) by {
                    if d > l {
                        vstd::arithmetic::div_mod::lemma_small_mod(l as nat, d as nat);
                    }
                }
            }
        }
    }
}

/// The pairs of characters of a message of `len` places after placing the first `k`
/// objects: each at place `numerator * (len / denominator)`, a later object over an earlier
/// one, and one whose place is past the end left out. Empty places hold `00`.
pub open spec fn placed(seg: Seq<EventUnit>, len: int, k: int) -> Seq<(char, char)>
    decreases k,
{
    if k <= 0 {
        Seq::new(len as nat, |i: int| ('0', '0'))
    } else {
        let p = placed(seg, len, k - 1);
        let e = seg[k - 1];
        let idx = e.time.num_of() * (len / e.time.den_of());
        if idx < len {
            p.update(idx, (e.first, e.second))
        } else {
            p
        }
    }
}

/// Pairs of characters written one after the other.
pub open spec fn flat_pairs(parts: Seq<(char, char)>) -> Seq<char> {
    Seq::new(
        (2 * parts.len()) as nat,
        |j: int|
            if j % 2 == 0 {
                parts[j / 2].0
            } else {
                parts[j / 2].1
            },
    )
}

/// The message string of a segment: as many places as the least common multiple of the
/// denominators, each object at its place.
pub open spec fn segment_message(seg: Seq<EventUnit>) -> Seq<char> {
    let len = lcm_fold(dens(seg), seg.len() as int) as int;
    flat_pairs(placed(seg, len, seg.len() as int))
}

/// The message token of a segment: the track and channel of its first object and its
/// message string.
pub open spec fn segment_token_fits(seg: Seq<EventUnit>, t: Token) -> bool {
    if seg.len() == 0 {
        t matches Token::Message { track, channel, message } && track == Track(0) && channel
            is Bgm && message@.len() == 0
    } else {
        t matches Token::Message { track, channel, message } && track.0 == seg[0].time.track_of()
            && channel == seg[0].channel && message@ == segment_message(seg)
    }
}

/// Writes a segment as one message.
pub fn convert_message_segment_to_token(segment: &Vec<EventUnit>) -> (r: Token)
    requires
        segment_wf(segment@),
        2 * max_den(segment@) <= usize::MAX,
    ensures
        segment_token_fits(segment@, r),
{
    if segment.len() == 0 {
        return Token::Message { track: Track(0), channel: Channel::Bgm, message: String::new() };
    }
    let ghost seg = segment@;
    let mut denominators: Vec<u64> = Vec::new();
    let mut i: usize = 0;
    while i < segment.len()
        invariant
            i <= seg.len(),
            seg == segment@,
            denominators@ == dens(seg).take(i as int),
            forall|j: int| 0 <= j < i ==> 1 <= #[trigger] seg[j].time.den_of() <= u64::MAX,
        decreases seg.len() - i,
    {
        let d = segment[i].time.denominator();
        denominators.push(d);
        assert(denominators@ =~= dens(seg).take(i + 1));
        i += 1;
    }
    assert(denominators@ =~= dens(seg));
    assert(dens_fit(seg));
    proof {
        assert forall|k: int| 0 <= k <= denominators@.len() implies #[trigger] lcm_fold(denominators@, k) <= u64::MAX by {
            lemma_lcm_is_max(seg, k);
            assert(dens_fit(seg.take(k)));
            lemma_max_den_bounds(seg.take(k));
        }
        lemma_lcm_is_max(seg, seg.len() as int);
        assert(seg.take(seg.len() as int) =~= seg);
    }
    let lcm = lcm_slice(denominators.as_slice());
    assert(lcm == max_den(seg));
    let len = lcm as usize;
    let mut chars: Vec<char> = Vec::new();
    let mut j: usize = 0;
    while j < 2 * len
        invariant
            j <= 2 * len,
            2 * len <= usize::MAX,
            chars@.len() == j,
            forall|m: int| 0 <= m < j ==> chars@[m] == '0',
        decreases 2 * len - j,
    {
        chars.push('0');
        j += 1;
    }
    assert(chars@ =~= flat_pairs(placed(seg, len as int, 0)));
    let mut k: usize = 0;
    while k < segment.len()
        invariant
            k <= seg.len(),
            seg == segment@,
            2 * len <= usize::MAX,
            len == lcm_fold(dens(seg), seg.len() as int),
            len >= 1,
            chars@ == flat_pairs(placed(seg, len as int, k as int)),
            placed(seg, len as int, k as int).len() == len,
        decreases seg.len() - k,
    {
        let e = segment[k];
        let den = e.time.denominator();
        let step = (len as u64) / den;
        let num = e.time.numerator();
        proof {
            assert((num as u128) * (step as u128) <= u64::MAX * u64::MAX) by (nonlinear_arith)
                requires
                    num <= u64::MAX,
                    step <= u64::MAX,
            ;
        }
        let idx = (num as u128) * (step as u128);
        let ghost p = placed(seg, len as int, k as int);
        if idx < len as u128 {
            let at = idx as usize;
            chars.set(2 * at, e.first);
            chars.set(2 * at + 1, e.second);
            proof {
                let q = p.update(at as int, (e.first, e.second));
                assert(chars@ =~= flat_pairs(q));
            }
        }
        k += 1;
    }
    assert(seg.take(seg.len() as int) =~= seg);
    Token::Message { track: segment[0].time.track(), channel: segment[0].channel, message: string_of(chars.as_slice()) }
}


/// An object that a message can hold: its denominator fits in `u64`, and a message of that
/// many places fits in memory.
pub open spec fn unit_fits(e: EventUnit) -> bool {
    1 <= e.time.den_of() && 2 * e.time.den_of() <= usize::MAX
}

/// The runs of objects that fit are made of objects that fit.
proof fn lemma_group_runs_fit(s: Seq<EventUnit>)
    requires
        forall|j: int| 0 <= j < s.len() ==> unit_fits(#[trigger] s[j]),
    ensures
        forall|i: int, k: int|
            0 <= i < group_runs(s).len() && 0 <= k < group_runs(s)[i].len() ==> unit_fits(
                #[trigger] group_runs(s)[i][k],
            ),
        forall|i: int| 0 <= i < group_runs(s).len() ==> #[trigger] group_runs(s)[i].len() > 0,
    decreases s.len(),
{
    if s.len() > 0 {
        lemma_group_runs_fit(s.drop_last());
        let g = group_runs(s.drop_last());
        assert(unit_fits(s[s.len() - 1]));
        assert forall|i: int, k: int|
            0 <= i < group_runs(s).len() && 0 <= k < group_runs(s)[i].len() implies unit_fits(
                #[trigger] group_runs(s)[i][k],
            ) by {
            if i < g.len() && !(i == g.len() - 1 && k == g[i].len()) {
                assert(unit_fits(g[i][k]));
            }
        }
    }
}

/// The message segments of a run of objects that fit are made of objects that fit, and
/// each is well formed.
proof fn lemma_segment_runs_fit(s: Seq<EventUnit>)
    requires
        forall|j: int| 0 <= j < s.len() ==> unit_fits(#[trigger] s[j]),
    ensures
        forall|i: int, k: int|
            0 <= i < segment_runs(s).len() && 0 <= k < segment_runs(s)[i].len() ==> unit_fits(
                #[trigger] segment_runs(s)[i][k],
            ),
        forall|i: int| 0 <= i < segment_runs(s).len() ==> #[trigger] segment_runs(s)[i].len() > 0,
        forall|i: int| 0 <= i < segment_runs(s).len() ==> segment_wf(#[trigger] segment_runs(s)[i]),
    decreases s.len(),
{
    if s.len() > 0 {
        lemma_segment_runs_fit(s.drop_last());
        let g = segment_runs(s.drop_last());
        let e = s.last();
        assert(unit_fits(s[s.len() - 1]));
        assert forall|i: int, k: int|
            0 <= i < segment_runs(s).len() && 0 <= k < segment_runs(s)[i].len() implies unit_fits(
                #[trigger] segment_runs(s)[i][k],
            ) by {
            if i < g.len() && !(i == g.len() - 1 && k == g[i].len()) {
                assert(unit_fits(g[i][k]));
            }
        }
        if g.len() > 0 && joins_segment(g.last(), e) {
            let last = g.last().push(e);
            assert(segment_wf(g[g.len() - 1]));
            assert forall|k: int| 0 < k < last.len() implies #[trigger] compatible(last.take(k), last[k]) by {
                if k < last.len() - 1 {
                    assert(last.take(k) =~= g.last().take(k));
                    assert(compatible(g.last().take(k), g.last()[k]));
                } else {
                    assert(last.take(k) =~= g.last());
                }
            }
            assert(segment_runs(s) == g.update(g.len() - 1, last));
        } else {
            assert(segment_wf(seq![e]));
        }
    }
}

/// The largest denominator of objects that fit fits too.
proof fn lemma_max_den_fits(seg: Seq<EventUnit>)
    requires
        forall|j: int| 0 <= j < seg.len() ==> unit_fits(#[trigger] seg[j]),
    ensures
        2 * max_den(seg) <= usize::MAX,
        dens_fit(seg),
    decreases seg.len(),
{
    if seg.len() > 0 {
        lemma_max_den_fits(seg.drop_last());
        assert(unit_fits(seg[seg.len() - 1]));
    }
}

/// The message segments of the objects: their runs, each cut into segments, in order.
pub open spec fn message_segments(events: Seq<EventUnit>) -> Seq<Seq<EventUnit>> {
    group_runs(events).map_values(|g: Seq<EventUnit>| segment_runs(g)).flatten()
}

/// Each token is the message of its segment.
pub open spec fn tokens_fit(segs: Seq<Seq<EventUnit>>, tokens: Seq<Token>) -> bool {
    segs.len() == tokens.len() && forall|i: int| 0 <= i < segs.len() ==> #[trigger] segment_token_fits(segs[i], tokens[i])
}

/// Lays out objects, in the order given, as messages: runs of one track and channel whose
/// positions do not go back, cut where a position does not move forward or a denominator
/// does not fit the segment, each segment one message.
pub fn build_event_messages(events: Vec<EventUnit>) -> (r: Vec<Token>)
    requires
        forall|j: int| 0 <= j < events@.len() ==> unit_fits(#[trigger] events@[j]),
    ensures
        tokens_fit(message_segments(events@), r@),
{
    let ghost ev = events@;
    let ghost all = group_runs(ev).map_values(|g: Seq<EventUnit>| segment_runs(g));
    proof {
        lemma_group_runs_fit(ev);
    }
    let groups = group_events_by_track_channel_time(events);
    let mut tokens: Vec<Token> = Vec::new();
    let mut gi: usize = 0;
    while gi < groups.len()
        invariant
            gi <= groups@.len(),
            runs_view(groups@) == group_runs(ev),
            all == group_runs(ev).map_values(|g: Seq<EventUnit>| segment_runs(g)),
            tokens_fit(all.take(gi as int).flatten(), tokens@),
            forall|i: int, k: int|
                0 <= i < group_runs(ev).len() && 0 <= k < group_runs(ev)[i].len() ==> unit_fits(
                    #[trigger] group_runs(ev)[i][k],
                ),
        decreases groups@.len() - gi,
    {
        let group = groups[gi].clone();
        let ghost gv = group_runs(ev)[gi as int];
        assert(runs_view(groups@)[gi as int] == groups@[gi as int]@);
        assert(group@ == gv);
        proof {
            lemma_segment_runs_fit(gv);
        }
        let segments = split_group_into_message_segments(group);
        let ghost before = tokens@;
        assert(tokens_fit(all.take(gi as int).flatten(), before));
        let mut si: usize = 0;
        while si < segments.len()
            invariant
                si <= segments@.len(),
                runs_view(segments@) == segment_runs(gv),
                tokens@.len() == before.len() + si,
                forall|i: int| 0 <= i < before.len() ==> tokens@[i] == before[i],
                forall|i: int| 0 <= i < si ==> #[trigger] segment_token_fits(segment_runs(gv)[i], tokens@[before.len() + i]),
                forall|i: int, k: int|
                    0 <= i < segment_runs(gv).len() && 0 <= k < segment_runs(gv)[i].len() ==> unit_fits(
                        #[trigger] segment_runs(gv)[i][k],
                    ),
                forall|i: int| 0 <= i < segment_runs(gv).len() ==> segment_wf(#[trigger] segment_runs(gv)[i]),
            decreases segments@.len() - si,
        {
            assert(runs_view(segments@)[si as int] == segments@[si as int]@);
            let ghost sv = segment_runs(gv)[si as int];
            proof {
                lemma_max_den_fits(sv);
            }
            let t = convert_message_segment_to_token(&segments[si]);
            tokens.push(t);
            si += 1;
        }
        proof {
            assert(all.take(gi + 1) =~= all.take(gi as int).push(all[gi as int]));
            all.take(gi as int).lemma_flatten_push(all[gi as int]);
            assert(all[gi as int] == segment_runs(gv));
            let f = all.take(gi + 1).flatten();
            assert(f =~= all.take(gi as int).flatten() + segment_runs(gv));
            assert forall|i: int| 0 <= i < f.len() implies #[trigger] segment_token_fits(f[i], tokens@[i]) by {
                if i < before.len() {
                    assert(f[i] == all.take(gi as int).flatten()[i]);
                    assert(segment_token_fits(all.take(gi as int).flatten()[i], before[i]));
                } else {
                    let j = i - before.len();
                    assert(f[i] == segment_runs(gv)[j]);
                    assert(segment_token_fits(segment_runs(gv)[j], tokens@[before.len() + j]));
                }
            }
        }
        gi += 1;
    }
    proof {
        assert(all.take(groups@.len() as int) =~= all);
    }
    tokens
}


/// Where the index of a position `t` goes among indices sorted by the positions they point
/// to: before the first later one.
pub open spec fn order_insert_pos(times: Seq<ObjTime>, order: Seq<usize>, t: ObjTime, i: int) -> int
    decreases order.len() - i,
{
    if i >= order.len() {
        order.len() as int
    } else if time_lt(t, times[order[i] as int]) {
        i
    } else {
        order_insert_pos(times, order, t, i + 1)
    }
}

/// The indices of the first `n` positions sorted by position, equal positions in their
/// order.
pub open spec fn sorted_order(times: Seq<ObjTime>, n: int) -> Seq<usize>
    decreases n,
{
    if n <= 0 {
        Seq::empty()
    } else {
        let p = sorted_order(times, n - 1);
        p.insert(order_insert_pos(times, p, times[n - 1], 0), (n - 1) as usize)
    }
}

proof fn lemma_order_insert_pos_bound(times: Seq<ObjTime>, order: Seq<usize>, t: ObjTime, i: int)
    requires
        0 <= i <= order.len(),
    ensures
        i <= order_insert_pos(times, order, t, i) <= order.len(),
    decreases order.len() - i,
{
    if i < order.len() {
        lemma_order_insert_pos_bound(times, order, t, i + 1);
    }
}

/// The sorted indices of the first `n` positions are `n` indices below `n`.
pub proof fn lemma_sorted_order_bounds(times: Seq<ObjTime>, n: int)
    requires
        0 <= n <= times.len(),
        times.len() <= usize::MAX,
    ensures
        sorted_order(times, n).len() == n,
        forall|j: int| 0 <= j < n ==> #[trigger] sorted_order(times, n)[j] < n,
    decreases n,
{
    if n > 0 {
        lemma_sorted_order_bounds(times, n - 1);
        let p = sorted_order(times, n - 1);
        lemma_order_insert_pos_bound(times, p, times[n - 1], 0);
    }
}

/// Sorts the indices of positions by position, equal positions keeping their order.
pub fn sort_order(times: &Vec<ObjTime>) -> (r: Vec<usize>)
    ensures
        r@ == sorted_order(times@, times@.len() as int),
        forall|j: int| 0 <= j < r@.len() ==> #[trigger] r@[j] < times@.len(),
        r@.len() == times@.len(),
{
    let mut r: Vec<usize> = Vec::new();
    let mut n: usize = 0;
    while n < times.len()
        invariant
            n <= times@.len(),
            r@ == sorted_order(times@, n as int),
        decreases times@.len() - n,
    {
        let t = times[n];
        let mut i: usize = 0;
        proof {
            lemma_sorted_order_bounds(times@, n as int);
        }
        while i < r.len() && !t.lt(&times[r[i]])
            invariant
                i <= r@.len(),
                r@ == sorted_order(times@, n as int),
                n < times@.len(),
                t == times@[n as int],
                forall|j: int| 0 <= j < r@.len() ==> #[trigger] r@[j] < n,
                order_insert_pos(times@, r@, t, 0) == order_insert_pos(times@, r@, t, i as int),
            decreases r@.len() - i,
        {
            i += 1;
        }
        proof {
            lemma_order_insert_pos_bound(times@, r@, t, 0);
        }
        r.insert(i, n);
        n += 1;
    }
    proof {
        lemma_sorted_order_bounds(times@, times@.len() as int);
    }
    r
}

} // verus!
