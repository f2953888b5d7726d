//! `#STOPxx` and `#STP` definitions and the stop channel `#xxx09:`.
use crate::bms::command::{spec_obj_id_of, spec_obj_id_text, Channel, ObjId, ObjTime, StringValue, Track};
use crate::bms::error::{ParseErrorWithRange, ParseWarning, ParseWarningWithRange};
use crate::bms::lex::{Token, TokenWithRange};
use crate::bms::model::{spec_defined, spec_push};
use crate::bms::objects::{StopObj, StopObjects, StpEvent};
use crate::bms::parse::token_processor::{
    add_placed, fraction_ok, fraction_text, header_warnings, message_warnings, placed_warnings,
};
use crate::bms::parse::{obj_pairs, parse_obj_ids, TokenProcessor};
use crate::bms::prompt::{DefDuplication, Prompter};
use crate::text::{
    owned, parse_u16, parse_u64, spec_parse_unsigned, spec_strip_prefix_ignore_case, split_once,
    split_once_char, split_words, starts_with_ascii_ignore_case, starts_with_ignore_case,
    strip_prefix_ignore_case, words,
};
use vstd::prelude::*;

verus! {

/// The processor of stops.
#[derive(Debug, Clone, Copy, PartialEq, Eq, Hash, Structural)]
pub struct StopProcessor {
    /// Whether object ids are read in base 62.
    pub case_sensitive_obj_id: bool,
}

/// The `#STP` event of its arguments `measure.pos ms`, if readable: the position is
/// `pos / 1000` of the measure (`000` when there is no dot).
pub open spec fn spec_stp(args: Seq<char>) -> Option<StpEvent> {
    let ws = words(args);
    if ws.len() != 2 {
        None
    } else {
        let (m, p) = match split_once(ws[0], '.') {
            Some((a, b)) => (a, b),
            None => (ws[0], "000"@),
        };
        match (spec_parse_unsigned(m, u16::MAX as int), spec_parse_unsigned(p, u16::MAX as int), spec_parse_unsigned(ws[1], u64::MAX as int)) {
            (Some(mv), Some(pv), Some(ms)) => Some(
                StpEvent {
                    time: ObjTime::spec_new(mv as u64, pv as u64, 1000),
                    duration_ms: ms as u64,
                },
            ),
            _ => None,
        }
    }
}

/// What one header does to the stop objects, with its outcome.
pub open spec fn header_applied<P: Prompter>(
    cs: bool,
    name: Seq<char>,
    args: Seq<char>,
    prompter: P,
    before: StopObjects,
    after: StopObjects,
    r: Result<(), ParseWarning>,
) -> bool {
    &&& after.stops@ == before.stops@
    &&& after.stop_ids_used == before.stop_ids_used
    &&& spec_strip_prefix_ignore_case(name, "STOP"@) is None ==> after.stop_defs == before.stop_defs
    &&& spec_strip_prefix_ignore_case(name, "STOP"@) matches Some(t) ==> {
        &&& (!fraction_text(args) ==> r is Err && after.stop_defs == before.stop_defs)
        &&& (fraction_text(args) && !spec_obj_id_text(t) ==> r is Err && after.stop_defs
            == before.stop_defs)
        &&& (fraction_text(args) && spec_obj_id_text(t) ==> {
            let id = spec_obj_id_of(t, cs);
            exists|v: StringValue|
                v.text() == args && spec_defined(
                    before.stop_defs,
                    after.stop_defs,
                    id,
                    v,
                    DefDuplication::Stop { id },
                    prompter,
                    r,
                )
        })
    }
    &&& !starts_with_ignore_case(name, "STP"@) ==> after.stp_events@ == before.stp_events@
    &&& starts_with_ignore_case(name, "STP"@) ==> match spec_stp(args) {
        None => r is Err && after.stp_events@ == before.stp_events@,
        Some(ev) => (after.stp_events@, r) == spec_push(
            before.stp_events@,
            ev.time,
            0,
            ev,
            Channel::Stop,
            prompter,
        ),
    }
}

/// What one message does to the stop objects, with its outcome.
pub open spec fn message_applied<P: Prompter>(
    cs: bool,
    track: Track,
    channel: Channel,
    message: Seq<char>,
    prompter: P,
    before: StopObjects,
    after: StopObjects,
    r: Result<Vec<ParseWarning>, ParseWarning>,
) -> bool {
    &&& after.stop_defs == before.stop_defs
    &&& after.stp_events@ == before.stp_events@
    &&& channel is Stop && message.len() % 2 == 0 && r is Ok ==> {
        let pairs = obj_pairs(track.0, message, cs, (message.len() / 2) as int);
        &&& after.stops@.len() == before.stops@.len() + pairs.len()
        &&& forall|i: int| 0 <= i < pairs.len() ==> {
            &&& #[trigger] after.stop_ids_used.spec_get(pairs[i].1) is Some
            &&& after.stops@[before.stops@.len() + i].time == pairs[i].0
            &&& Some(after.stops@[before.stops@.len() + i].duration) == before.stop_defs.spec_get(pairs[i].1)
        }
    }
    &&& (channel is Stop && message.len() % 2 == 0 && r is Err) ==> r->Err_0 is UndefinedObject
    &&& forall|i: int| 0 <= i < before.stops@.len() ==> after.stops@[i] == before.stops@[i]
    &&& !(channel is Stop) ==> after.stops@ == before.stops@ && (r matches Ok(
        ws,
    ) && ws@.len() == 0)
}

/// Stop objects with nothing in them.
pub open spec fn fresh(o: StopObjects) -> bool {
    &&& forall|k: int| #[trigger] o.stop_defs.at(k) is None
    &&& forall|k: int| #[trigger] o.stop_ids_used.at(k) is None
    &&& o.stops@.len() == 0
    &&& o.stp_events@.len() == 0
}

/// What one token does, with the warnings it gives.
pub open spec fn token_step<P: Prompter>(
    cs: bool,
    t: Token,
    prompter: P,
    before: StopObjects,
    after: StopObjects,
    ws: Seq<ParseWarning>,
) -> bool {
    match t {
        Token::Header { name, args } => exists|r: Result<(), ParseWarning>|
            header_applied(cs, name@, args@, prompter, before, after, r) && ws == header_warnings(r),
        Token::Message { track, channel, message } => exists|r: Result<Vec<ParseWarning>, ParseWarning>|
            message_applied(cs, track, channel, message@, prompter, before, after, r) && ws == message_warnings(r),
        Token::NotACommand(_) => after == before && ws.len() == 0,
    }
}

/// The stop objects and warnings of a token stream: from fresh ones, each token in turn as
/// `token_step`, the warnings placed at their tokens.
pub open spec fn processed<P: Prompter>(
    cs: bool,
    tokens: Seq<TokenWithRange>,
    prompter: P,
    o: StopObjects,
    ws: Seq<ParseWarningWithRange>,
) -> bool {
    exists|states: Seq<StopObjects>, wss: Seq<Seq<ParseWarning>>|
        {
            &&& states.len() == tokens.len() + 1
            &&& wss.len() == tokens.len()
            &&& fresh(states[0])
            &&& states.last() == o
            &&& forall|i: int|
                0 <= i < tokens.len() ==> token_step(cs, #[trigger] tokens[i].content, prompter, states[i], states[i + 1], wss[i])
            &&& ws == placed_warnings(tokens, wss, tokens.len() as int)
        }
}

impl StopProcessor {
    /// A processor reading object ids in base 62 when `case_sensitive_obj_id`.
    pub fn new(case_sensitive_obj_id: bool) -> (r: Self)
        ensures
            r.case_sensitive_obj_id == case_sensitive_obj_id,
    {
        StopProcessor { case_sensitive_obj_id }
    }

    /// Applies one header: `#STOPxx n` (a decimal) defines the stop of `xx` in 192nd notes;
    /// `#STP measure.pos ms` adds a stop of `ms` milliseconds at `pos / 1000` of the
    /// measure.
    pub fn on_header<P: Prompter>(
        &self,
        name: &str,
        args: &str,
        prompter: &P,
        objects: &mut StopObjects,
    ) -> (r: Result<(), ParseWarning>)
        ensures
            header_applied(self.case_sensitive_obj_id, name@, args@, *prompter, *old(objects), *final(objects), r),
    {
        proof {
            reveal_strlit("STOP");
            reveal_strlit("STP");
            reveal_strlit("000");
        }
        if let Some(id_text) = strip_prefix_ignore_case(name, "STOP") {
            proof {
                assert(crate::text::upper(name@.take(4)[2]) == crate::text::upper("STOP"@[2]));
                assert(name@.take(4)[2] == name@[2]);
                if starts_with_ignore_case(name@, "STP"@) {
                    assert(crate::text::upper(name@.take(3)[2]) == crate::text::upper("STP"@[2]));
                    assert(name@.take(3)[2] == name@[2]);
                }
            }
            if !fraction_ok(args) {
                return Err(ParseWarning::SyntaxError(owned("expected decimal stop length")));
            }
            let id = ObjId::try_from(id_text.as_str(), self.case_sensitive_obj_id)?;
            return objects.stop_defs.define(id, StringValue::new(args), DefDuplication::Stop { id }, prompter);
        }
        if starts_with_ascii_ignore_case(name, "STP") {
            let ws = split_words(args);
            let ghost wv = ws@.map_values(|w: String| w@);
            if ws.len() != 2 {
                return Err(ParseWarning::SyntaxError(owned("expected measure.pos and milliseconds")));
            }
            assert(wv[0] == ws@[0]@ && wv[1] == ws@[1]@);
            let (measure_text, pos_text) = match split_once_char(ws[0].as_str(), '.') {
                Some((m, p)) => (m, p),
                None => (ws[0].clone(), owned("000")),
            };
            let measure = match parse_u16(measure_text.as_str()) {
                Some(v) => v,
                None => {
                    return Err(ParseWarning::SyntaxError(owned("expected measure u16")));
                },
            };
            let pos = match parse_u16(pos_text.as_str()) {
                Some(v) => v,
                None => {
                    return Err(ParseWarning::SyntaxError(owned("expected pos u16")));
                },
            };
            let ms = match parse_u64(ws[1].as_str()) {
                Some(v) => v,
                None => {
                    return Err(ParseWarning::SyntaxError(owned("expected pos u64")));
                },
            };
            let time = ObjTime::new(measure as u64, pos as u64, 1000).unwrap();
            let ev = StpEvent { time, duration_ms: ms };
            return objects.stp_events.push(time, 0, ev, Channel::Stop, prompter);
        }
        Ok(())
    }

    /// Applies one message: on the stop channel each id is a stop at its position and is
    /// recorded as used. Returns the warnings of pairs that are no ids; fails at the first id
    /// without definition.
    pub fn on_message<P: Prompter>(
        &self,
        track: Track,
        channel: Channel,
        message: &str,
        prompter: &P,
        objects: &mut StopObjects,
    ) -> (r: Result<Vec<ParseWarning>, ParseWarning>)
        ensures
            message_applied(self.case_sensitive_obj_id, track, channel, message@, *prompter, *old(objects), *final(objects), r),
    {
        if let Channel::Stop = channel {
            let (pairs, warnings) = parse_obj_ids(track.0, message, self.case_sensitive_obj_id);
            let mut i: usize = 0;
            while i < pairs.len()
                invariant
                    i <= pairs@.len(),
                    channel is Stop,
                    message@.len() % 2 == 0 ==> pairs@ == obj_pairs(track.0, message@, self.case_sensitive_obj_id, (message@.len() / 2) as int),
                    objects.stop_defs == old(objects).stop_defs,
                    objects.stp_events@ == old(objects).stp_events@,
                    objects.stops@.len() == old(objects).stops@.len() + i,
                    forall|j: int| 0 <= j < old(objects).stops@.len() ==> objects.stops@[j] == old(objects).stops@[j],
                    forall|j: int| 0 <= j < i ==> {
                        &&& #[trigger] objects.stop_ids_used.spec_get(pairs@[j].1) is Some
                        &&& objects.stops@[old(objects).stops@.len() + j].time == pairs@[j].0
                        &&& Some(objects.stops@[old(objects).stops@.len() + j].duration) == old(objects).stop_defs.spec_get(pairs@[j].1)
                    },
                decreases pairs@.len() - i,
            {
                let (time, id) = pairs[i];
                let ghost used_before = objects.stop_ids_used;
                let ghost stops_before = objects.stops@;
                objects.stop_ids_used.insert(id, ());
                let duration = match objects.stop_defs.get(&id) {
                    Some(v) => v.clone(),
                    None => {
                        return Err(ParseWarning::UndefinedObject(id));
                    },
                };
                objects.stops.push(StopObj { time, duration });
                proof {
                    let base = old(objects).stops@.len();
                    assert forall|j: int| 0 <= j < i + 1 implies {
                        &&& #[trigger] objects.stop_ids_used.spec_get(pairs@[j].1) is Some
                        &&& objects.stops@[base + j].time == pairs@[j].0
                        &&& Some(objects.stops@[base + j].duration) == old(objects).stop_defs.spec_get(pairs@[j].1)
                    } by {
                        if j < i {
                            assert(used_before.spec_get(pairs@[j].1) is Some);
                            assert(objects.stops@[base + j] == stops_before[base + j]);
                            if pairs@[j].1.value() != id.value() {
                                assert(objects.stop_ids_used.at(pairs@[j].1.value()) == used_before.at(pairs@[j].1.value()));
                            }
                        }
                        if pairs@[j].1.value() == id.value() {
                            assert(objects.stop_ids_used.spec_get(id) is Some);
                        }
                    }
                }
                i += 1;
            }
            return Ok(warnings);
        }
        Ok(Vec::new())
    }
}

impl<P: Prompter> TokenProcessor<P> for StopProcessor {
    type Output = StopObjects;

    open spec fn outcome(
        &self,
        tokens: Seq<TokenWithRange>,
        prompter: P,
        r: Result<(StopObjects, Vec<ParseWarningWithRange>), ParseErrorWithRange>,
    ) -> bool {
        r matches Ok((o, ws)) && processed(self.case_sensitive_obj_id, tokens, prompter, o, ws@)
    }

    fn process(&self, tokens: &[TokenWithRange], prompter: &P) -> (r: Result<
        (StopObjects, Vec<ParseWarningWithRange>),
        ParseErrorWithRange,
    >)
        ensures
            r matches Ok((o, ws)) && processed(self.case_sensitive_obj_id, tokens@, *prompter, o, ws@),
    {
        let mut objects = StopObjects::new();
        let mut warnings: Vec<ParseWarningWithRange> = Vec::new();
        let ghost mut states: Seq<StopObjects> = seq![objects];
        let ghost mut wss: Seq<Seq<ParseWarning>> = Seq::empty();
        let mut i: usize = 0;
        while i < tokens.len()
            invariant
                i <= tokens@.len(),
                states.len() == i + 1,
                wss.len() == i,
                fresh(states[0]),
                states.last() == objects,
                forall|j: int|
                    0 <= j < i ==> token_step(self.case_sensitive_obj_id, #[trigger] tokens@[j].content, *prompter, states[j], states[j + 1], wss[j]),
                warnings@ == placed_warnings(tokens@, wss, i as int),
            decreases tokens@.len() - i,
        {
            let ghost before = objects;
            let ws: Vec<ParseWarning> = match &tokens[i].content {
                Token::Header { name, args } => {
                    let r = self.on_header(name.as_str(), args.as_str(), prompter, &mut objects);
                    let ws = match r {
                        Ok(()) => Vec::new(),
                        Err(w) => vec![w],
                    };
                    assert(ws@ =~= header_warnings(r));
                    ws
                },
                Token::Message { track, channel, message } => {
                    let r = self.on_message(*track, *channel, message.as_str(), prompter, &mut objects);
                    let ghost rr = r;
                    let ws = match r {
                        Ok(ws) => ws,
                        Err(w) => vec![w],
                    };
                    assert(ws@ =~= message_warnings(rr));
                    ws
                },
                Token::NotACommand(_) => Vec::new(),
            };
            assert(token_step(self.case_sensitive_obj_id, tokens@[i as int].content, *prompter, before, objects, ws@));
            let g = add_placed(&mut warnings, ws, tokens[i].range, Ghost(tokens@), Ghost(wss), Ghost(i as int));
            proof {
                wss = g@;
                states = states.push(objects);
            }
            i += 1;
        }
        Ok((objects, warnings))
    }
}

} // verus!
