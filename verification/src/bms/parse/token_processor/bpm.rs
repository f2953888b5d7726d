//! `#BPM`, `#BPMxx` / `#EXBPMxx`, `#BASEBPM`, and the tempo channels `#xxx03:` (hexadecimal
//! tempo) and `#xxx08:` (tempo by id).
use crate::bms::command::{spec_obj_id_of, spec_obj_id_text, Channel, ObjId, ObjTime, StringValue, Track};
use crate::bms::error::{ParseErrorWithRange, ParseWarning, ParseWarningWithRange};
use crate::bms::lex::{Token, TokenWithRange};
use crate::bms::model::spec_defined;
use crate::bms::objects::{BpmChangeObj, BpmObjects};
use crate::bms::parse::token_processor::{
    add_placed, fraction_ok, fraction_text, header_warnings, message_warnings, placed_warnings, push_all,
    push_made, push_values, TimedObj,
};
use crate::bms::parse::{hex_pairs, obj_pairs, parse_hex_values, parse_obj_ids, TokenProcessor};
use crate::bms::prompt::{DefDuplication, Prompter};
use crate::text::{
    decimal_text, eq_ignore_ascii_case, eq_ignore_case, owned, spec_strip_prefix_ignore_case,
    strip_prefix_ignore_case, u64_to_text,
};
use vstd::prelude::*;

verus! {

impl TimedObj<StringValue> for BpmChangeObj {
    open spec fn spec_make(time: ObjTime, channel: Channel, v: StringValue) -> Self {
        BpmChangeObj { time, bpm: v }
    }

    fn make(time: ObjTime, channel: Channel, v: StringValue) -> (r: Self) {
        BpmChangeObj { time, bpm: v }
    }
}

/// The processor of tempo.
#[derive(Debug, Clone, Copy, PartialEq, Eq, Hash, Structural)]
pub struct BpmProcessor {
    /// Whether object ids are read in base 62.
    pub case_sensitive_obj_id: bool,
}

/// The id text of a `#BPMxx` or `#EXBPMxx` header name; `#BPM` itself has none.
pub open spec fn bpm_id_text(name: Seq<char>) -> Option<Seq<char>> {
    if eq_ignore_case(name, "BPM"@) {
        None
    } else {
        match spec_strip_prefix_ignore_case(name, "BPM"@) {
            Some(rest) => Some(rest),
            None => spec_strip_prefix_ignore_case(name, "EXBPM"@),
        }
    }
}

/// What one header does to the tempo objects, with its outcome: `#BPM t` sets the starting
/// tempo, `#BPMxx t` and `#EXBPMxx t` define the tempo of `xx`, `#BASEBPM t` sets the base
/// tempo; `t` must be a decimal.
pub open spec fn header_applied<P: Prompter>(
    cs: bool,
    name: Seq<char>,
    args: Seq<char>,
    prompter: P,
    before: BpmObjects,
    after: BpmObjects,
    r: Result<(), ParseWarning>,
) -> bool {
    &&& after.bpm_changes@ == before.bpm_changes@
    &&& after.bpm_change_ids_used == before.bpm_change_ids_used
    &&& eq_ignore_case(name, "BPM"@) ==> (r is Ok <==> fraction_text(args)) && (r is Ok ==> (after.bpm matches Some(t) && t.text() == args)) && (r is Err ==> after.bpm == before.bpm)
    &&& !eq_ignore_case(name, "BPM"@) ==> after.bpm == before.bpm
    &&& eq_ignore_case(name, "BASEBPM"@) ==> (r is Ok <==> fraction_text(args)) && (r is Ok ==> (after.base_bpm matches Some(t) && t.text() == args))
    &&& bpm_id_text(name) is None ==> after.bpm_defs == before.bpm_defs
    &&& bpm_id_text(name) matches Some(t) ==> {
        &&& (!fraction_text(args) ==> r is Err && after.bpm_defs == before.bpm_defs)
        &&& (fraction_text(args) && !spec_obj_id_text(t) ==> r is Err && after.bpm_defs
            == before.bpm_defs)
        &&& (fraction_text(args) && spec_obj_id_text(t) ==> {
            let id = spec_obj_id_of(t, cs);
            exists|v: StringValue|
                v.text() == args && spec_defined(
                    before.bpm_defs,
                    after.bpm_defs,
                    id,
                    v,
                    DefDuplication::BpmChange { id },
                    prompter,
                    r,
                )
        })
    }
}

/// Whether the tempo values are the hexadecimal pairs, each at its position and written as
/// the decimal text of its byte.
pub open spec fn decimal_tempos(vals: Seq<(ObjTime, StringValue)>, pairs: Seq<(ObjTime, u8)>) -> bool {
    &&& vals.len() == pairs.len()
    &&& forall|i: int|
        #![trigger vals[i]]
        0 <= i < vals.len() ==> vals[i].0 == pairs[i].0 && vals[i].1.text() == decimal_text(
            pairs[i].1 as nat,
        )
}

/// What one message does to the tempo objects, with its outcome.
pub open spec fn message_applied<P: Prompter>(
    cs: bool,
    track: Track,
    channel: Channel,
    message: Seq<char>,
    prompter: P,
    before: BpmObjects,
    after: BpmObjects,
    r: Result<Vec<ParseWarning>, ParseWarning>,
) -> bool {
    &&& after.bpm_defs == before.bpm_defs
    &&& after.bpm == before.bpm
    &&& channel is BpmChange && message.len() % 2 == 0 ==> {
        let pairs = obj_pairs(track.0, message, cs, (message.len() / 2) as int);
        let (s, res) = push_all(before.bpm_changes@, pairs, before.bpm_defs, channel, prompter);
        &&& after.bpm_changes@ == s
        &&& (r is Ok <==> res is Ok)
        &&& (r matches Err(w) ==> res == Err::<(), ParseWarning>(w))
        &&& (r is Ok ==> forall|i: int| 0 <= i < pairs.len() ==> #[trigger] after.bpm_change_ids_used.spec_get(pairs[i].1) is Some)
    }
    &&& channel is BpmChangeU8 && message.len() % 2 == 0 ==> {
        let pairs = hex_pairs(track.0, message, (message.len() / 2) as int);
        exists|vals: Seq<(ObjTime, StringValue)>|
            #[trigger] decimal_tempos(vals, pairs) && {
                let (s, res) = push_values(before.bpm_changes@, vals, channel, prompter);
                &&& after.bpm_changes@ == s
                &&& (r is Ok <==> res is Ok)
                &&& (r matches Err(w) ==> res == Err::<(), ParseWarning>(w))
            }
    }
    &&& channel is BpmChangeU8 && message.len() % 2 == 1 ==> after.bpm_changes@ == before.bpm_changes@
        && r is Ok
    &&& channel is BpmChangeU8 ==> after.bpm_change_ids_used == before.bpm_change_ids_used
    &&& forall|k: int| #[trigger] before.bpm_change_ids_used.at(k) is Some ==> after.bpm_change_ids_used.at(k) is Some
    &&& !(channel is BpmChange) && !(channel is BpmChangeU8) ==> after.bpm_changes@ == before.bpm_changes@
        && (r matches Ok(ws) && ws@.len() == 0)
}

/// Tempo objects with nothing in them.
pub open spec fn fresh(o: BpmObjects) -> bool {
    &&& o.bpm is None
    &&& o.base_bpm is None
    &&& forall|k: int| #[trigger] o.bpm_defs.at(k) is None
    &&& forall|k: int| #[trigger] o.bpm_change_ids_used.at(k) is None
    &&& o.bpm_changes@.len() == 0
}

/// What one token does, with the warnings it gives.
pub open spec fn token_step<P: Prompter>(
    cs: bool,
    t: Token,
    prompter: P,
    before: BpmObjects,
    after: BpmObjects,
    ws: Seq<ParseWarning>,
) -> bool {
    match t {
        Token::Header { name, args } => exists|r: Result<(), ParseWarning>|
            header_applied(cs, name@, args@, prompter, before, after, r) && ws == header_warnings(r),
        Token::Message { track, channel, message } => exists|r: Result<Vec<ParseWarning>, ParseWarning>|
            message_applied(cs, track, channel, message@, prompter, before, after, r) && ws == message_warnings(r),
        Token::NotACommand(_) => after == before && ws.len() == 0,
    }
}

/// The tempo objects and warnings of a token stream: from fresh objects, each token in turn
/// as `token_step`, the warnings placed at their tokens.
pub open spec fn processed<P: Prompter>(
    cs: bool,
    tokens: Seq<TokenWithRange>,
    prompter: P,
    o: BpmObjects,
    ws: Seq<ParseWarningWithRange>,
) -> bool {
    exists|states: Seq<BpmObjects>, wss: Seq<Seq<ParseWarning>>|
        {
            &&& states.len() == tokens.len() + 1
            &&& wss.len() == tokens.len()
            &&& fresh(states[0])
            &&& states.last() == o
            &&& forall|i: int|
                0 <= i < tokens.len() ==> token_step(cs, #[trigger] tokens[i].content, prompter, states[i], states[i + 1], wss[i])
            &&& ws == placed_warnings(tokens, wss, tokens.len() as int)
        }
}

impl BpmProcessor {
    /// A processor reading object ids in base 62 when `case_sensitive_obj_id`.
    pub fn new(case_sensitive_obj_id: bool) -> (r: Self)
        ensures
            r.case_sensitive_obj_id == case_sensitive_obj_id,
    {
        BpmProcessor { case_sensitive_obj_id }
    }

    /// Applies one header: `#BPM t` sets the starting tempo, `#BPMxx t` and `#EXBPMxx t`
    /// define the tempo of `xx`, `#BASEBPM t` sets the base tempo; `t` must be a decimal.
    pub fn on_header<P: Prompter>(
        &self,
        name: &str,
        args: &str,
        prompter: &P,
        objects: &mut BpmObjects,
    ) -> (r: Result<(), ParseWarning>)
        ensures
            header_applied(self.case_sensitive_obj_id, name@, args@, *prompter, *old(objects), *final(objects), r),
    {
        proof {
            reveal_strlit("BPM");
            reveal_strlit("EXBPM");
            reveal_strlit("BASEBPM");
            reveal_strlit("");
        }
        if eq_ignore_ascii_case(name, "BPM") {
            if !fraction_ok(args) {
                return Err(ParseWarning::SyntaxError(owned("expected decimal BPM")));
            }
            objects.bpm = Some(StringValue::new(args));
            return Ok(());
        }
        let rest = match strip_prefix_ignore_case(name, "BPM") {
            Some(r) => Some(r),
            None => strip_prefix_ignore_case(name, "EXBPM"),
        };
        if let Some(id_text) = rest {
            proof {
                if eq_ignore_case(name@, "BASEBPM"@) {
                    assert(crate::text::upper(name@[0]) == crate::text::upper("BASEBPM"@[0]));
                    assert(crate::text::upper(name@[1]) == crate::text::upper("BASEBPM"@[1]));
                    if crate::text::starts_with_ignore_case(name@, "BPM"@) {
                        assert(crate::text::upper(name@.take(3)[1]) == crate::text::upper("BPM"@[1]));
                        assert(name@.take(3)[1] == name@[1]);
                    } else {
                        assert(crate::text::upper(name@.take(5)[0]) == crate::text::upper("EXBPM"@[0]));
                        assert(name@.take(5)[0] == name@[0]);
                    }
                }
            }
            if !fraction_ok(args) {
                return Err(ParseWarning::SyntaxError(owned("expected decimal BPM")));
            }
            let id = ObjId::try_from(id_text.as_str(), self.case_sensitive_obj_id)?;
            return objects.bpm_defs.define(id, StringValue::new(args), DefDuplication::BpmChange { id }, prompter);
        }
        if eq_ignore_ascii_case(name, "BASEBPM") {
            if !fraction_ok(args) {
                return Err(ParseWarning::SyntaxError(owned("expected decimal BPM")));
            }
            objects.base_bpm = Some(StringValue::new(args));
        }
        Ok(())
    }

    /// Applies one message: on the tempo-by-id channel each id is a tempo change at its
    /// position and is recorded as used; on the hexadecimal tempo channel each pair other
    /// than `00` is a tempo change to its value. Returns the warnings of unreadable pairs;
    /// fails at the first id without definition or the first duplicated position whose
    /// warning the prompter asks for.
    pub fn on_message<P: Prompter>(
        &self,
        track: Track,
        channel: Channel,
        message: &str,
        prompter: &P,
        objects: &mut BpmObjects,
    ) -> (r: Result<Vec<ParseWarning>, ParseWarning>)
        ensures
            message_applied(self.case_sensitive_obj_id, track, channel, message@, *prompter, *old(objects), *final(objects), r),
    {
        if let Channel::BpmChange = channel {
            let (pairs, warnings) = parse_obj_ids(track.0, message, self.case_sensitive_obj_id);
            let mut i: usize = 0;
            while i < pairs.len()
                invariant
                    i <= pairs@.len(),
                    channel is BpmChange,
                    message@.len() % 2 == 0 ==> pairs@ == obj_pairs(track.0, message@, self.case_sensitive_obj_id, (message@.len() / 2) as int),
                    objects.bpm_defs == old(objects).bpm_defs,
                    objects.bpm == old(objects).bpm,
                    push_all(old(objects).bpm_changes@, pairs@.take(i as int), old(objects).bpm_defs, channel, *prompter) == (
                        objects.bpm_changes@,
                        Ok::<(), ParseWarning>(()),
                    ),
                    forall|j: int| 0 <= j < i ==> #[trigger] objects.bpm_change_ids_used.spec_get(pairs@[j].1) is Some,
                    forall|k: int| #[trigger] old(objects).bpm_change_ids_used.at(k) is Some ==> objects.bpm_change_ids_used.at(k) is Some,
                decreases pairs@.len() - i,
            {
                let ghost pre = pairs@.take(i as int);
                let ghost next = pairs@.take(i + 1);
                assert(next.drop_last() =~= pre);
                let (time, id) = pairs[i];
                assert(next.last() == pairs@[i as int]);
                let ghost used_before = objects.bpm_change_ids_used;
                objects.bpm_change_ids_used.insert(id, ());
                proof {
                    assert forall|j: int| 0 <= j < i + 1 implies #[trigger] objects.bpm_change_ids_used.spec_get(pairs@[j].1) is Some by {
                        if pairs@[j].1.value() != id.value() {
                            assert(j < i);
                            assert(used_before.spec_get(pairs@[j].1) is Some);
                            assert(objects.bpm_change_ids_used.at(pairs@[j].1.value()) == used_before.at(pairs@[j].1.value()));
                        } else {
                            assert(objects.bpm_change_ids_used.spec_get(id) is Some);
                        }
                    }
                    assert forall|k: int| #[trigger] old(objects).bpm_change_ids_used.at(k) is Some implies objects.bpm_change_ids_used.at(k) is Some by {
                        if k != id.value() {
                            assert(objects.bpm_change_ids_used.at(k) == used_before.at(k));
                        }
                    }
                }
                let bpm = match objects.bpm_defs.get(&id) {
                    Some(v) => v.clone(),
                    None => {
                        proof {
                            assert(push_all(old(objects).bpm_changes@, next, old(objects).bpm_defs, channel, *prompter) == (objects.bpm_changes@, Err::<(), ParseWarning>(ParseWarning::UndefinedObject(id))));
                            crate::bms::parse::token_processor::lemma_push_all_stops(old(objects).bpm_changes@, pairs@, old(objects).bpm_defs, channel, *prompter, i as int + 1);
                        }
                        return Err(ParseWarning::UndefinedObject(id));
                    },
                };
                let ghost before = objects.bpm_changes@;
                let res = objects.bpm_changes.push(time, 0, BpmChangeObj { time, bpm }, channel, prompter);
                assert(push_all(old(objects).bpm_changes@, next, old(objects).bpm_defs, channel, *prompter) == crate::bms::model::spec_push(before, time, 0, BpmChangeObj { time, bpm }, channel, *prompter));
                if let Err(w) = res {
                    proof {
                        crate::bms::parse::token_processor::lemma_push_all_stops(old(objects).bpm_changes@, pairs@, old(objects).bpm_defs, channel, *prompter, i as int + 1);
                    }
                    return Err(w);
                }
                i += 1;
            }
            assert(pairs@.take(pairs@.len() as int) =~= pairs@);
            return Ok(warnings);
        }
        if let Channel::BpmChangeU8 = channel {
            let (pairs, warnings) = parse_hex_values(track.0, message);
            let mut vals: Vec<(ObjTime, StringValue)> = Vec::new();
            let mut i: usize = 0;
            while i < pairs.len()
                invariant
                    i <= pairs@.len(),
                    decimal_tempos(vals@, pairs@.take(i as int)),
                decreases pairs@.len() - i,
            {
                let (time, v) = pairs[i];
                let text = u64_to_text(v as u64);
                let sv = StringValue::new(text.as_str());
                assert(sv.text() == decimal_text(pairs@[i as int].1 as nat));
                assert(time == pairs@[i as int].0);
                let ghost prev = vals@;
                vals.push((time, sv));
                proof {
                    let next = pairs@.take(i + 1);
                    assert(next[i as int] == pairs@[i as int]);
                    assert forall|j: int| #![trigger vals@[j]] 0 <= j < vals@.len() implies vals@[j].0
                        == next[j].0 && vals@[j].1.text() == decimal_text(next[j].1 as nat) by {
                        if j < i {
                            assert(vals@[j] == prev[j]);
                            assert(next[j] == pairs@.take(i as int)[j]);
                            assert(prev[j].1.text() == decimal_text(pairs@.take(i as int)[j].1 as nat));
                        } else {
                            assert(j == i);
                            assert(vals@[j] == (time, sv));
                            assert(vals@[j].1.text() == decimal_text(next[j].1 as nat));
                        }
                    }
                    assert(vals@.len() == next.len());
                    assert(decimal_tempos(vals@, next));
                }
                i += 1;
            }
            assert(pairs@.take(pairs@.len() as int) =~= pairs@);
            assert(decimal_tempos(vals@, pairs@));
            push_made(&mut objects.bpm_changes, &vals, channel, prompter)?;
            return Ok(warnings);
        }
        Ok(Vec::new())
    }
}

impl<P: Prompter> TokenProcessor<P> for BpmProcessor {
    type Output = BpmObjects;

    open spec fn outcome(
        &self,
        tokens: Seq<TokenWithRange>,
        prompter: P,
        r: Result<(BpmObjects, Vec<ParseWarningWithRange>), ParseErrorWithRange>,
    ) -> bool {
        r matches Ok((o, ws)) && processed(self.case_sensitive_obj_id, tokens, prompter, o, ws@)
    }

    fn process(&self, tokens: &[TokenWithRange], prompter: &P) -> (r: Result<
        (BpmObjects, Vec<ParseWarningWithRange>),
        ParseErrorWithRange,
    >)
        ensures
            r matches Ok((o, ws)) && processed(self.case_sensitive_obj_id, tokens@, *prompter, o, ws@),
    {
        let mut objects = BpmObjects::new();
        let mut warnings: Vec<ParseWarningWithRange> = Vec::new();
        let ghost mut states: Seq<BpmObjects> = seq![objects];
        let ghost mut wss: Seq<Seq<ParseWarning>> = Seq::empty();
        let mut i: usize = 0;
        while i < tokens.len()
            invariant
                i <= tokens@.len(),
                states.len() == i + 1,
                wss.len() == i,
                fresh(states[0]),
                states.last() == objects,
                forall|j: int|
                    0 <= j < i ==> token_step(self.case_sensitive_obj_id, #[trigger] tokens@[j].content, *prompter, states[j], states[j + 1], wss[j]),
                warnings@ == placed_warnings(tokens@, wss, i as int),
            decreases tokens@.len() - i,
        {
            let ghost before = objects;
            let ws: Vec<ParseWarning> = match &tokens[i].content {
                Token::Header { name, args } => {
                    let r = self.on_header(name.as_str(), args.as_str(), prompter, &mut objects);
                    let ws = match r {
                        Ok(()) => Vec::new(),
                        Err(w) => vec![w],
                    };
                    assert(ws@ =~= header_warnings(r));
                    ws
                },
                Token::Message { track, channel, message } => {
                    let r = self.on_message(*track, *channel, message.as_str(), prompter, &mut objects);
                    let ghost rr = r;
                    let ws = match r {
                        Ok(ws) => ws,
                        Err(w) => vec![w],
                    };
                    assert(ws@ =~= message_warnings(rr));
                    ws
                },
                Token::NotACommand(_) => Vec::new(),
            };
            assert(token_step(self.case_sensitive_obj_id, tokens@[i as int].content, *prompter, before, objects, ws@));
            let g = add_placed(&mut warnings, ws, tokens[i].range, Ghost(tokens@), Ghost(wss), Ghost(i as int));
            proof {
                wss = g@;
                states = states.push(objects);
            }
            i += 1;
        }
        Ok((objects, warnings))
    }
}

} // verus!
