//! The processors of tokens, one per kind of command, and what they share.

pub mod all;
pub mod bmp;
pub mod bpm;
pub mod identity;
pub mod judge;
pub mod metadata;
pub mod music_info;
pub mod option;
pub mod repr;
pub mod resources;
pub mod scroll;
pub mod section_len;
pub mod speed;
pub mod sprite;
pub mod stop;
pub mod text;
pub mod video;
pub mod volume;
pub mod wav;

use crate::bms::command::{channel_lane, spec_channel_lane, Channel, ObjId, ObjTime, StringValue};
use crate::bms::error::{ParseWarning, ParseWarningWithRange, SourceRange};
use crate::bms::lex::TokenWithRange;
use crate::bms::model::{spec_push, ObjIdMap, Timeline};
use crate::bms::objects::ExRankDef;
use crate::bms::prompt::Prompter;
use vstd::prelude::*;

verus! {

/// Whether a text is a fraction or a decimal number as the `fraction` crate reads it.
pub uninterp spec fn fraction_text(s: Seq<char>) -> bool;

/// `GenericFraction::<BigUint>::from_str` of the `fraction` crate: an optional sign, then
/// digits with one dot, or two runs of digits around one slash. Only whether the text is
/// accepted is kept; the number stays as the text.
#[verifier::external_body]
pub(crate) fn fraction_ok(s: &str) -> (r: bool)
    ensures
        r == fraction_text(s@),
{
    s.parse::<fraction::GenericFraction<fraction::BigUint>>().is_ok()
}

/// The warnings of the first `n` tokens: the error of each token that gave one, with the
/// place of the token, in order.
pub open spec fn errors_at(tokens: Seq<TokenWithRange>, rs: Seq<Result<(), ParseWarning>>, n: int) -> Seq<
    ParseWarningWithRange,
>
    decreases n,
{
    if n <= 0 {
        Seq::empty()
    } else {
        errors_at(tokens, rs, n - 1) + match rs[n - 1] {
            Ok(_) => Seq::empty(),
            Err(w) => seq![ParseWarningWithRange { warning: w, range: tokens[n - 1].range }],
        }
    }
}

/// The warnings of the first `n` tokens depend on the first `n` outcomes only.
pub proof fn lemma_errors_at_prefix(
    tokens: Seq<TokenWithRange>,
    rs: Seq<Result<(), ParseWarning>>,
    rs2: Seq<Result<(), ParseWarning>>,
    n: int,
)
    requires
        0 <= n <= rs.len(),
        n <= rs2.len(),
        forall|j: int| 0 <= j < n ==> rs[j] == rs2[j],
    ensures
        errors_at(tokens, rs, n) == errors_at(tokens, rs2, n),
    decreases n,
{
    if n > 0 {
        lemma_errors_at_prefix(tokens, rs, rs2, n - 1);
    }
}

/// The warnings of a header's outcome.
pub open spec fn header_warnings(r: Result<(), ParseWarning>) -> Seq<ParseWarning> {
    match r {
        Ok(_) => Seq::empty(),
        Err(w) => seq![w],
    }
}

/// The warnings of a message's outcome: those it returns, or its error.
pub open spec fn message_warnings(r: Result<Vec<ParseWarning>, ParseWarning>) -> Seq<ParseWarning> {
    match r {
        Ok(ws) => ws@,
        Err(w) => seq![w],
    }
}

/// The warnings of the first `n` tokens, each with the place of its token, in order.
pub open spec fn placed_warnings(tokens: Seq<TokenWithRange>, wss: Seq<Seq<ParseWarning>>, n: int) -> Seq<
    ParseWarningWithRange,
>
    decreases n,
{
    if n <= 0 {
        Seq::empty()
    } else {
        placed_warnings(tokens, wss, n - 1) + wss[n - 1].map_values(
            |w: ParseWarning| ParseWarningWithRange { warning: w, range: tokens[n - 1].range },
        )
    }
}

/// The placed warnings of the first `n` tokens depend on the first `n` lists only.
pub proof fn lemma_placed_prefix(
    tokens: Seq<TokenWithRange>,
    wss: Seq<Seq<ParseWarning>>,
    wss2: Seq<Seq<ParseWarning>>,
    n: int,
)
    requires
        0 <= n <= wss.len(),
        n <= wss2.len(),
        forall|j: int| 0 <= j < n ==> wss[j] == wss2[j],
    ensures
        placed_warnings(tokens, wss, n) == placed_warnings(tokens, wss2, n),
    decreases n,
{
    if n > 0 {
        lemma_placed_prefix(tokens, wss, wss2, n - 1);
    }
}

/// Appends the warnings of one token, placed at `range`; the list of warnings so far grows
/// by them.
pub fn add_placed(
    out: &mut Vec<ParseWarningWithRange>,
    ws: Vec<ParseWarning>,
    range: SourceRange,
    Ghost(tokens): Ghost<Seq<TokenWithRange>>,
    Ghost(wss): Ghost<Seq<Seq<ParseWarning>>>,
    Ghost(i): Ghost<int>,
) -> (r: Ghost<Seq<Seq<ParseWarning>>>)
    requires
        0 <= i < tokens.len(),
        tokens[i].range == range,
        wss.len() == i,
        old(out)@ == placed_warnings(tokens, wss, i),
    ensures
        r@ == wss.push(ws@),
        final(out)@ == placed_warnings(tokens, r@, i + 1),
{
    let ghost wss2 = wss.push(ws@);
    proof {
        lemma_placed_prefix(tokens, wss, wss2, i);
    }
    let ghost before = out@;
    let ghost wv = ws@;
    warn_all_at(out, ws, range);
    assert forall|k: int| before.len() <= k < out@.len() implies out@[k] == (ParseWarningWithRange {
        warning: wv[k - before.len()],
        range,
    }) by {
        let j = k - before.len();
        assert(out@[before.len() + j] == (ParseWarningWithRange { warning: wv[j], range }));
    }
    assert(out@ =~= before + wv.map_values(|w: ParseWarning| ParseWarningWithRange { warning: w, range: tokens[i].range }));
    Ghost(wss2)
}

/// Attaches the place of a token to a warning.
pub fn warn_at(warning: ParseWarning, range: SourceRange) -> (r: ParseWarningWithRange)
    ensures
        r.warning == warning,
        r.range == range,
{
    ParseWarningWithRange { warning, range }
}

/// Attaches the place of a token to each warning, after those already in `out`.
pub fn warn_all_at(out: &mut Vec<ParseWarningWithRange>, warnings: Vec<ParseWarning>, range: SourceRange)
    ensures
        final(out)@.len() == old(out)@.len() + warnings@.len(),
        forall|i: int| 0 <= i < old(out)@.len() ==> final(out)@[i] == old(out)@[i],
        forall|i: int|
            0 <= i < warnings@.len() ==> #[trigger] final(out)@[old(out)@.len() + i] == (
            ParseWarningWithRange { warning: warnings@[i], range }),
{
    let ghost before = out@;
    let mut i: usize = 0;
    while i < warnings.len()
        invariant
            i <= warnings@.len(),
            out@.len() == before.len() + i,
            forall|j: int| 0 <= j < before.len() ==> out@[j] == before[j],
            forall|j: int|
                0 <= j < i ==> #[trigger] out@[before.len() + j] == (ParseWarningWithRange {
                    warning: warnings@[j],
                    range,
                }),
        decreases warnings@.len() - i,
    {
        out.push(ParseWarningWithRange { warning: warnings[i].clone(), range });
        i += 1;
    }
}

/// A definition that is copied into each object that refers to it.
pub trait DefValue: Sized {
    /// An equal copy.
    fn copy_value(&self) -> (r: Self)
        ensures
            r == *self,
    ;
}

impl DefValue for StringValue {
    fn copy_value(&self) -> (r: Self) {
        self.clone()
    }
}

impl DefValue for String {
    fn copy_value(&self) -> (r: Self) {
        self.clone()
    }
}

impl DefValue for u8 {
    fn copy_value(&self) -> (r: Self) {
        *self
    }
}

impl DefValue for ExRankDef {
    fn copy_value(&self) -> (r: Self) {
        *self
    }
}

/// An object made at a position from a definition.
pub trait TimedObj<V>: Sized {
    /// The object of `channel` at `time` made from `v`.
    spec fn spec_make(time: ObjTime, channel: Channel, v: V) -> Self;

    /// Makes the object of `channel` at `time` from `v`.
    fn make(time: ObjTime, channel: Channel, v: V) -> (r: Self)
        ensures
            r == Self::spec_make(time, channel, v),
    ;
}

/// The objects after adding, in turn, the object made from the definition of the id of each
/// pair, stopping at the first id without definition (`UndefinedObject`) or the first
/// warning of a duplicated position.
pub open spec fn push_all<V, T: TimedObj<V>, P: Prompter>(
    s: Seq<(ObjTime, u8, T)>,
    pairs: Seq<(ObjTime, ObjId)>,
    defs: ObjIdMap<V>,
    channel: Channel,
    prompter: P,
) -> (Seq<(ObjTime, u8, T)>, Result<(), ParseWarning>)
    decreases pairs.len(),
{
    if pairs.len() == 0 {
        (s, Ok(()))
    } else {
        let (s1, r1) = push_all(s, pairs.drop_last(), defs, channel, prompter);
        if r1 is Err {
            (s1, r1)
        } else {
            let (t, id) = pairs.last();
            match defs.spec_get(id) {
                None => (s1, Err(ParseWarning::UndefinedObject(id))),
                Some(v) => spec_push(s1, t, spec_channel_lane(channel), T::spec_make(t, channel, v), channel, prompter),
            }
        }
    }
}

/// Adds the objects of the pairs made from their definitions; stops at the first id without
/// definition or the first warning of a duplicated position.
pub fn push_defined<V: DefValue, T: TimedObj<V>, P: Prompter>(
    timeline: &mut Timeline<T>,
    pairs: &Vec<(ObjTime, ObjId)>,
    defs: &ObjIdMap<V>,
    channel: Channel,
    prompter: &P,
) -> (r: Result<(), ParseWarning>)
    ensures
        (final(timeline)@, r) == push_all(old(timeline)@, pairs@, *defs, channel, *prompter),
{
    let mut i: usize = 0;
    while i < pairs.len()
        invariant
            i <= pairs@.len(),
            push_all(old(timeline)@, pairs@.take(i as int), *defs, channel, *prompter) == (
                timeline@,
                Ok::<(), ParseWarning>(()),
            ),
        decreases pairs@.len() - i,
    {
        assert(pairs@.take(i + 1).drop_last() =~= pairs@.take(i as int));
        let (time, id) = pairs[i];
        let v = match defs.get(&id) {
            Some(v) => v.copy_value(),
            None => {
                proof {
                    lemma_push_all_stops(old(timeline)@, pairs@, *defs, channel, *prompter, i as int + 1);
                }
                return Err(ParseWarning::UndefinedObject(id));
            },
        };
        let obj = T::make(time, channel, v);
        let r = timeline.push(time, channel_lane(channel), obj, channel, prompter);
        if r.is_err() {
            proof {
                lemma_push_all_stops(old(timeline)@, pairs@, *defs, channel, *prompter, i as int + 1);
            }
            return r;
        }
        i += 1;
    }
    assert(pairs@.take(pairs@.len() as int) =~= pairs@);
    Ok(())
}

/// Once adding stops with a warning, further pairs change nothing.
pub proof fn lemma_push_all_stops<V, T: TimedObj<V>, P: Prompter>(
    s: Seq<(ObjTime, u8, T)>,
    pairs: Seq<(ObjTime, ObjId)>,
    defs: ObjIdMap<V>,
    channel: Channel,
    prompter: P,
    k: int,
)
    requires
        0 <= k <= pairs.len(),
        push_all(s, pairs.take(k), defs, channel, prompter).1 is Err,
    ensures
        push_all(s, pairs, defs, channel, prompter) == push_all(s, pairs.take(k), defs, channel, prompter),
    decreases pairs.len() - k,
{
    if k < pairs.len() {
        assert(pairs.take(k + 1).drop_last() =~= pairs.take(k));
        lemma_push_all_stops(s, pairs, defs, channel, prompter, k + 1);
    } else {
        assert(pairs.take(k) =~= pairs);
    }
}

/// The objects after adding, in turn, the object made from the value of each pair,
/// stopping at the first warning of a duplicated position.
pub open spec fn push_values<V, T: TimedObj<V>, P: Prompter>(
    s: Seq<(ObjTime, u8, T)>,
    pairs: Seq<(ObjTime, V)>,
    channel: Channel,
    prompter: P,
) -> (Seq<(ObjTime, u8, T)>, Result<(), ParseWarning>)
    decreases pairs.len(),
{
    if pairs.len() == 0 {
        (s, Ok(()))
    } else {
        let (s1, r1) = push_values(s, pairs.drop_last(), channel, prompter);
        if r1 is Err {
            (s1, r1)
        } else {
            let (t, v) = pairs.last();
            spec_push(s1, t, spec_channel_lane(channel), T::spec_make(t, channel, v), channel, prompter)
        }
    }
}

/// Once adding stops with a warning, further pairs change nothing.
proof fn lemma_push_values_stops<V, T: TimedObj<V>, P: Prompter>(
    s: Seq<(ObjTime, u8, T)>,
    pairs: Seq<(ObjTime, V)>,
    channel: Channel,
    prompter: P,
    k: int,
)
    requires
        0 <= k <= pairs.len(),
        push_values(s, pairs.take(k), channel, prompter).1 is Err,
    ensures
        push_values(s, pairs, channel, prompter) == push_values(s, pairs.take(k), channel, prompter),
    decreases pairs.len() - k,
{
    if k < pairs.len() {
        assert(pairs.take(k + 1).drop_last() =~= pairs.take(k));
        lemma_push_values_stops(s, pairs, channel, prompter, k + 1);
    } else {
        assert(pairs.take(k) =~= pairs);
    }
}

/// Adds the objects made from the values of the pairs; stops at the first warning of a
/// duplicated position.
pub fn push_made<V: DefValue, T: TimedObj<V>, P: Prompter>(
    timeline: &mut Timeline<T>,
    pairs: &Vec<(ObjTime, V)>,
    channel: Channel,
    prompter: &P,
) -> (r: Result<(), ParseWarning>)
    ensures
        (final(timeline)@, r) == push_values(old(timeline)@, pairs@, channel, *prompter),
{
    let mut i: usize = 0;
    while i < pairs.len()
        invariant
            i <= pairs@.len(),
            push_values(old(timeline)@, pairs@.take(i as int), channel, *prompter) == (
                timeline@,
                Ok::<(), ParseWarning>(()),
            ),
        decreases pairs@.len() - i,
    {
        let ghost pre = pairs@.take(i as int);
        let ghost next = pairs@.take(i + 1);
        assert(next.drop_last() =~= pre);
        let time = pairs[i].0;
        let v = pairs[i].1.copy_value();
        assert(next.last() == (time, v));
        let ghost before = timeline@;
        let obj = T::make(time, channel, v);
        let r = timeline.push(time, channel_lane(channel), obj, channel, prompter);
        assert(push_values(old(timeline)@, next, channel, *prompter) == spec_push(
            before,
            time,
            spec_channel_lane(channel),
            T::spec_make(time, channel, v),
            channel,
            *prompter,
        ));
        if r.is_err() {
            proof {
                lemma_push_values_stops(old(timeline)@, pairs@, channel, *prompter, i as int + 1);
            }
            return r;
        }
        i += 1;
    }
    assert(pairs@.take(pairs@.len() as int) =~= pairs@);
    Ok(())
}

} // verus!
