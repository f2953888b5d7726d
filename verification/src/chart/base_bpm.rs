//! Choosing the tempo that the default visible window length derives from.
use crate::bms::command::StringValue;
use crate::bms::model::Bms;
use crate::bms::objects::BpmChangeObj;
use crate::bms::command::ObjTime;
use crate::number::{positive_f64_check, positive_f64_error, positive_f64_less, positive_f64_lt};
use vstd::prelude::*;

verus! {

/// Uses the tempo at the start of the score.
#[derive(Debug, Clone, Copy, Default)]
pub struct StartBpmGenerator;

/// Uses the lowest tempo: of the start and of all tempo changes.
#[derive(Debug, Clone, Copy, Default)]
pub struct MinBpmGenerator;

/// Uses the highest tempo: of the start and of all tempo changes.
#[derive(Debug, Clone, Copy, Default)]
pub struct MaxBpmGenerator;

/// The tempos of a score that are positive numbers: the start, then each change in order.
pub open spec fn tempo_texts(bms: Bms) -> Seq<Seq<char>> {
    let start: Seq<Seq<char>> = match bms.bpm.bpm {
        Some(v) => if positive_f64_error(v.text()) is None {
            seq![v.text()]
        } else {
            Seq::empty()
        },
        None => Seq::empty(),
    };
    start + bms.bpm.bpm_changes@.map_values(|e: (ObjTime, u8, BpmChangeObj)| e.2.bpm.text()).filter(
        |t: Seq<char>| positive_f64_error(t) is None,
    )
}

/// The first lowest of the first `n` texts (by `positive_f64_lt`).
pub open spec fn lowest(ts: Seq<Seq<char>>, n: int) -> Option<Seq<char>>
    decreases n,
{
    if n <= 0 {
        None
    } else {
        match lowest(ts, n - 1) {
            None => Some(ts[n - 1]),
            Some(b) => if positive_f64_lt(ts[n - 1], b) {
                Some(ts[n - 1])
            } else {
                Some(b)
            },
        }
    }
}

/// The last highest of the first `n` texts (by `positive_f64_lt`).
pub open spec fn highest(ts: Seq<Seq<char>>, n: int) -> Option<Seq<char>>
    decreases n,
{
    if n <= 0 {
        None
    } else {
        match highest(ts, n - 1) {
            None => Some(ts[n - 1]),
            Some(b) => if positive_f64_lt(ts[n - 1], b) {
                Some(b)
            } else {
                Some(ts[n - 1])
            },
        }
    }
}

/// The text of an optional tempo.
pub open spec fn text_of(o: Option<StringValue>) -> Option<Seq<char>> {
    match o {
        Some(v) => Some(v.text()),
        None => None,
    }
}

/// The tempos of a score that are positive numbers.
fn tempos(bms: &Bms) -> (r: Vec<StringValue>)
    ensures
        r@.map_values(|v: StringValue| v.text()) == tempo_texts(*bms),
{
    let mut r: Vec<StringValue> = Vec::new();
    match &bms.bpm.bpm {
        Some(v) => {
            if positive_f64_check(v.raw()).is_none() {
                r.push(v.clone());
            }
        },
        None => {},
    }
    let ghost start = r@.map_values(|v: StringValue| v.text());
    let es = bms.bpm.bpm_changes.entries();
    let ghost texts = es@.map_values(|e: (ObjTime, u8, BpmChangeObj)| e.2.bpm.text());
    let ghost pred = |t: Seq<char>| positive_f64_error(t) is None;
    let mut i: usize = 0;
    while i < es.len()
        invariant
            i <= es@.len(),
            texts == es@.map_values(|e: (ObjTime, u8, BpmChangeObj)| e.2.bpm.text()),
            pred == (|t: Seq<char>| positive_f64_error(t) is None),
            r@.map_values(|v: StringValue| v.text()) == start + texts.take(i as int).filter(pred),
        decreases es@.len() - i,
    {
        proof {
            assert(texts.take(i + 1).drop_last() =~= texts.take(i as int));
            texts.take(i as int).lemma_filter_push(texts[i as int], pred);
            assert(texts.take(i + 1) =~= texts.take(i as int).push(texts[i as int]));
        }
        let v = &es[i].2.bpm;
        let ghost before = r@.map_values(|v: StringValue| v.text());
        if positive_f64_check(v.raw()).is_none() {
            r.push(v.clone());
            assert(r@.map_values(|v: StringValue| v.text()) =~= before.push(v.text()));
        }
        i += 1;
    }
    assert(texts.take(es@.len() as int) =~= texts);
    proof {
        assert(start =~= (match bms.bpm.bpm {
            Some(v) => if positive_f64_error(v.text()) is None {
                seq![v.text()]
            } else {
                Seq::<Seq<char>>::empty()
            },
            None => Seq::<Seq<char>>::empty(),
        }));
    }
    r
}

impl StartBpmGenerator {
    /// The tempo at the start, when it is a positive number.
    pub fn generate(&self, bms: &Bms) -> (r: Option<StringValue>)
        ensures
            text_of(r) == (match bms.bpm.bpm {
                Some(v) => if positive_f64_error(v.text()) is None {
                    Some(v.text())
                } else {
                    None
                },
                None => None,
            }),
    {
        match &bms.bpm.bpm {
            Some(v) => if positive_f64_check(v.raw()).is_none() {
                Some(v.clone())
            } else {
                None
            },
            None => None,
        }
    }
}

impl MinBpmGenerator {
    /// The lowest tempo; the first of equal ones.
    pub fn generate(&self, bms: &Bms) -> (r: Option<StringValue>)
        ensures
            text_of(r) == lowest(tempo_texts(*bms), tempo_texts(*bms).len() as int),
    {
        let ts = tempos(bms);
        let ghost tv = ts@.map_values(|v: StringValue| v.text());
        let mut best: Option<StringValue> = None;
        let mut i: usize = 0;
        while i < ts.len()
            invariant
                i <= ts@.len(),
                tv == ts@.map_values(|v: StringValue| v.text()),
                text_of(best) == lowest(tv, i as int),
            decreases ts@.len() - i,
        {
            let take = match &best {
                None => true,
                Some(b) => positive_f64_less(ts[i].raw(), b.raw()),
            };
            if take {
                best = Some(ts[i].clone());
            }
            i += 1;
        }
        best
    }
}

impl MaxBpmGenerator {
    /// The highest tempo; the last of equal ones.
    pub fn generate(&self, bms: &Bms) -> (r: Option<StringValue>)
        ensures
            text_of(r) == highest(tempo_texts(*bms), tempo_texts(*bms).len() as int),
    {
        let ts = tempos(bms);
        let ghost tv = ts@.map_values(|v: StringValue| v.text());
        let mut best: Option<StringValue> = None;
        let mut i: usize = 0;
        while i < ts.len()
            invariant
                i <= ts@.len(),
                tv == ts@.map_values(|v: StringValue| v.text()),
                text_of(best) == highest(tv, i as int),
            decreases ts@.len() - i,
        {
            let take = match &best {
                None => true,
                Some(b) => !positive_f64_less(ts[i].raw(), b.raw()),
            };
            if take {
                best = Some(ts[i].clone());
            }
            i += 1;
        }
        best
    }
}

} // verus!
