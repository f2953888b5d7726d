//! `#RANK`, `#EXRANKxx`, `#DEFEXRANK`, `#TOTAL` and the judge channel `#xxxA0:`.
use crate::bms::command::{
    spec_judge_level, spec_obj_id_of, spec_obj_id_text, Channel, JudgeLevel, ObjId, ObjTime,
    StringValue, Track,
};
use crate::bms::error::{ParseErrorWithRange, ParseWarning, ParseWarningWithRange};
use crate::bms::lex::{Token, TokenWithRange};
use crate::bms::model::spec_defined;
use crate::bms::objects::{ExRankDef, JudgeObj, JudgeObjects};
use crate::bms::parse::token_processor::{
    add_placed, header_warnings, message_warnings, placed_warnings, fraction_ok, fraction_text, push_all, push_defined, TimedObj,
};
use crate::bms::parse::{obj_pairs, parse_obj_ids, TokenProcessor};
use crate::bms::prompt::{DefDuplication, Prompter};
use crate::text::{
    eq_ignore_ascii_case, eq_ignore_case, owned, parse_i64, spec_parse_signed,
    spec_strip_prefix_ignore_case, strip_prefix_ignore_case,
};
use vstd::prelude::*;

verus! {

impl TimedObj<ExRankDef> for JudgeObj {
    open spec fn spec_make(time: ObjTime, channel: Channel, v: ExRankDef) -> Self {
        JudgeObj { time, judge_level: v.judge_level }
    }

    fn make(time: ObjTime, channel: Channel, v: ExRankDef) -> (r: Self) {
        JudgeObj { time, judge_level: v.judge_level }
    }
}

/// The processor of judge ranks and the gauge total.
#[derive(Debug, Clone, Copy, PartialEq, Eq, Hash, Structural)]
pub struct JudgeProcessor {
    /// Whether object ids are read in base 62.
    pub case_sensitive_obj_id: bool,
}

/// The judge level of an integer text.
pub open spec fn spec_level(s: Seq<char>) -> Option<JudgeLevel> {
    match spec_parse_signed(s, i64::MAX as int) {
        Some(v) => Some(spec_judge_level(v)),
        None => None,
    }
}

/// What one header does to the judge objects, with its outcome.
pub open spec fn header_applied<P: Prompter>(
    cs: bool,
    name: Seq<char>,
    args: Seq<char>,
    prompter: P,
    before: JudgeObjects,
    after: JudgeObjects,
    r: Result<(), ParseWarning>,
) -> bool {
    &&& after.judge_events@ == before.judge_events@
    &&& eq_ignore_case(name, "RANK"@) ==> (r is Ok <==> spec_level(args) is Some) && (r is Ok
        ==> after.rank == spec_level(args))
    &&& eq_ignore_case(name, "TOTAL"@) ==> (r is Ok <==> fraction_text(args)) && (r is Ok ==> (
    after.total matches Some(t) && t.text() == args))
    &&& eq_ignore_case(name, "DEFEXRANK"@) ==> (r is Ok <==> spec_parse_signed(args, i64::MAX as int) is Some)
        && (r is Ok ==> after.exrank_defs.spec_get(ObjId::spec_from_value(0)) == Some(
        ExRankDef {
            id: ObjId::spec_from_value(0),
            judge_level: JudgeLevel::OtherInt(spec_parse_signed(args, i64::MAX as int)->0 as i64),
        },
    ))
    &&& spec_strip_prefix_ignore_case(name, "EXRANK"@) matches Some(t) ==> {
        &&& (spec_level(args) is None ==> r is Err && after.exrank_defs == before.exrank_defs)
        &&& (spec_level(args) is Some && !spec_obj_id_text(t) ==> r is Err
            && after.exrank_defs == before.exrank_defs)
        &&& (spec_level(args) is Some && spec_obj_id_text(t) ==> {
            let id = spec_obj_id_of(t, cs);
            spec_defined(
                before.exrank_defs,
                after.exrank_defs,
                id,
                ExRankDef { id, judge_level: spec_level(args)->0 },
                DefDuplication::ExRank { id },
                prompter,
                r,
            )
        })
    }
}

/// What one message does to the judge objects, with its outcome.
pub open spec fn message_applied<P: Prompter>(
    cs: bool,
    track: Track,
    channel: Channel,
    message: Seq<char>,
    prompter: P,
    before: JudgeObjects,
    after: JudgeObjects,
    r: Result<Vec<ParseWarning>, ParseWarning>,
) -> bool {
    &&& after.exrank_defs == before.exrank_defs
    &&& channel is Judge && message.len() % 2 == 0 ==> {
        let (s, res) = push_all(
            before.judge_events@,
            obj_pairs(track.0, message, cs, (message.len() / 2) as int),
            before.exrank_defs,
            channel,
            prompter,
        );
        &&& after.judge_events@ == s
        &&& (r is Ok <==> res is Ok)
        &&& (r matches Err(w) ==> res == Err::<(), ParseWarning>(w))
    }
    &&& !(channel is Judge) ==> after.judge_events@ == before.judge_events@ && (r matches Ok(
        ws,
    ) && ws@.len() == 0)
}

/// Judge objects with nothing in them.
pub open spec fn fresh(o: JudgeObjects) -> bool {
    &&& o.rank is None
    &&& o.total is None
    &&& forall|k: int| #[trigger] o.exrank_defs.at(k) is None
    &&& o.judge_events@.len() == 0
}

/// What one token does, with the warnings it gives.
pub open spec fn token_step<P: Prompter>(
    cs: bool,
    t: Token,
    prompter: P,
    before: JudgeObjects,
    after: JudgeObjects,
    ws: Seq<ParseWarning>,
) -> bool {
    match t {
        Token::Header { name, args } => exists|r: Result<(), ParseWarning>|
            header_applied(cs, name@, args@, prompter, before, after, r) && ws == header_warnings(r),
        Token::Message { track, channel, message } => exists|r: Result<Vec<ParseWarning>, ParseWarning>|
            message_applied(cs, track, channel, message@, prompter, before, after, r) && ws == message_warnings(r),
        Token::NotACommand(_) => after == before && ws.len() == 0,
    }
}

/// The judge objects and warnings of a token stream: from fresh ones, each token in turn as
/// `token_step`, the warnings placed at their tokens.
pub open spec fn processed<P: Prompter>(
    cs: bool,
    tokens: Seq<TokenWithRange>,
    prompter: P,
    o: JudgeObjects,
    ws: Seq<ParseWarningWithRange>,
) -> bool {
    exists|states: Seq<JudgeObjects>, wss: Seq<Seq<ParseWarning>>|
        {
            &&& states.len() == tokens.len() + 1
            &&& wss.len() == tokens.len()
            &&& fresh(states[0])
            &&& states.last() == o
            &&& forall|i: int|
                0 <= i < tokens.len() ==> token_step(cs, #[trigger] tokens[i].content, prompter, states[i], states[i + 1], wss[i])
            &&& ws == placed_warnings(tokens, wss, tokens.len() as int)
        }
}

impl JudgeProcessor {
    /// A processor reading object ids in base 62 when `case_sensitive_obj_id`.
    pub fn new(case_sensitive_obj_id: bool) -> (r: Self)
        ensures
            r.case_sensitive_obj_id == case_sensitive_obj_id,
    {
        JudgeProcessor { case_sensitive_obj_id }
    }

    /// Applies one header: `#RANK n` sets the rank; `#EXRANKxx n` defines the rank of `xx`;
    /// `#DEFEXRANK n` defines the rank of `00`; `#TOTAL t` (a decimal) sets the gauge total.
    pub fn on_header<P: Prompter>(
        &self,
        name: &str,
        args: &str,
        prompter: &P,
        objects: &mut JudgeObjects,
    ) -> (r: Result<(), ParseWarning>)
        ensures
            header_applied(self.case_sensitive_obj_id, name@, args@, *prompter, *old(objects), *final(objects), r),
    {
        proof {
            reveal_strlit("RANK");
            reveal_strlit("EXRANK");
            reveal_strlit("DEFEXRANK");
            reveal_strlit("TOTAL");
        }
        if eq_ignore_ascii_case(name, "RANK") {
            match JudgeLevel::try_from(args) {
                Some(level) => objects.rank = Some(level),
                None => {
                    return Err(ParseWarning::SyntaxError(owned("expected integer")));
                },
            }
        }
        if let Some(id_text) = strip_prefix_ignore_case(name, "EXRANK") {
            assert(crate::text::upper(name@.take(6)[0]) == crate::text::upper("EXRANK"@[0]));
            assert(name@.take(6)[0] == name@[0]);
            let judge_level = match JudgeLevel::try_from(args) {
                Some(level) => level,
                None => {
                    return Err(ParseWarning::SyntaxError(owned("expected integer")));
                },
            };
            let id = ObjId::try_from(id_text.as_str(), self.case_sensitive_obj_id)?;
            return objects.exrank_defs.define(id, ExRankDef { id, judge_level }, DefDuplication::ExRank { id }, prompter);
        }
        if eq_ignore_ascii_case(name, "DEFEXRANK") {
            assert(crate::text::upper(name@[0]) == crate::text::upper("DEFEXRANK"@[0]));
            let value = match parse_i64(args) {
                Some(v) => v,
                None => {
                    return Err(ParseWarning::SyntaxError(owned("expected u64")));
                },
            };
            let id = ObjId::from_u16(0).unwrap();
            objects.exrank_defs.insert(id, ExRankDef { id, judge_level: JudgeLevel::OtherInt(value) });
        }
        if eq_ignore_ascii_case(name, "TOTAL") {
            if !fraction_ok(args) {
                return Err(ParseWarning::SyntaxError(owned("expected decimal")));
            }
            objects.total = Some(StringValue::new(args));
        }
        Ok(())
    }

    /// Applies one message: on the judge channel each id is a rank change at its position.
    /// Returns the warnings of pairs that are no ids; fails at the first id without
    /// definition or the first duplicated position whose warning the prompter asks for.
    pub fn on_message<P: Prompter>(
        &self,
        track: Track,
        channel: Channel,
        message: &str,
        prompter: &P,
        objects: &mut JudgeObjects,
    ) -> (r: Result<Vec<ParseWarning>, ParseWarning>)
        ensures
            message_applied(self.case_sensitive_obj_id, track, channel, message@, *prompter, *old(objects), *final(objects), r),
    {
        if let Channel::Judge = channel {
            let (pairs, warnings) = parse_obj_ids(track.0, message, self.case_sensitive_obj_id);
            push_defined(&mut objects.judge_events, &pairs, &objects.exrank_defs, channel, prompter)?;
            return Ok(warnings);
        }
        Ok(Vec::new())
    }
}

impl<P: Prompter> TokenProcessor<P> for JudgeProcessor {
    type Output = JudgeObjects;

    open spec fn outcome(
        &self,
        tokens: Seq<TokenWithRange>,
        prompter: P,
        r: Result<(JudgeObjects, Vec<ParseWarningWithRange>), ParseErrorWithRange>,
    ) -> bool {
        r matches Ok((o, ws)) && processed(self.case_sensitive_obj_id, tokens, prompter, o, ws@)
    }

    fn process(&self, tokens: &[TokenWithRange], prompter: &P) -> (r: Result<
        (JudgeObjects, Vec<ParseWarningWithRange>),
        ParseErrorWithRange,
    >)
        ensures
            r matches Ok((o, ws)) && processed(self.case_sensitive_obj_id, tokens@, *prompter, o, ws@),
    {
        let mut objects = JudgeObjects::new();
        let mut warnings: Vec<ParseWarningWithRange> = Vec::new();
        let ghost mut states: Seq<JudgeObjects> = seq![objects];
        let ghost mut wss: Seq<Seq<ParseWarning>> = Seq::empty();
        let mut i: usize = 0;
        while i < tokens.len()
            invariant
                i <= tokens@.len(),
                states.len() == i + 1,
                wss.len() == i,
                fresh(states[0]),
                states.last() == objects,
                forall|j: int|
                    0 <= j < i ==> token_step(self.case_sensitive_obj_id, #[trigger] tokens@[j].content, *prompter, states[j], states[j + 1], wss[j]),
                warnings@ == placed_warnings(tokens@, wss, i as int),
            decreases tokens@.len() - i,
        {
            let ghost before = objects;
            let ws: Vec<ParseWarning> = match &tokens[i].content {
                Token::Header { name, args } => {
                    let r = self.on_header(name.as_str(), args.as_str(), prompter, &mut objects);
                    let ws = match r {
                        Ok(()) => Vec::new(),
                        Err(w) => vec![w],
                    };
                    assert(ws@ =~= header_warnings(r));
                    ws
                },
                Token::Message { track, channel, message } => {
                    let r = self.on_message(*track, *channel, message.as_str(), prompter, &mut objects);
                    let ghost rr = r;
                    let ws = match r {
                        Ok(ws) => ws,
                        Err(w) => vec![w],
                    };
                    assert(ws@ =~= message_warnings(rr));
                    ws
                },
                Token::NotACommand(_) => Vec::new(),
            };
            assert(token_step(self.case_sensitive_obj_id, tokens@[i as int].content, *prompter, before, objects, ws@));
            let g = add_placed(&mut warnings, ws, tokens[i].range, Ghost(tokens@), Ghost(wss), Ghost(i as int));
            proof {
                wss = g@;
                states = states.push(objects);
            }
            i += 1;
        }
        Ok((objects, warnings))
    }
}

} // verus!
