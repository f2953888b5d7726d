//! `#SCROLLxx` definitions and the scrolling factor channel `#xxxSC:`.
use crate::bms::command::{spec_obj_id_of, spec_obj_id_text, Channel, ObjId, ObjTime, StringValue, Track};
use crate::bms::error::{ParseErrorWithRange, ParseWarning, ParseWarningWithRange};
use crate::bms::lex::{Token, TokenWithRange};
use crate::bms::model::spec_defined;
use crate::bms::objects::{ScrollingFactorObj, ScrollObjects};
use crate::bms::parse::token_processor::{
    add_placed, header_warnings, message_warnings, placed_warnings, fraction_ok, fraction_text, push_all, push_defined, TimedObj};
use crate::bms::parse::{obj_pairs, parse_obj_ids, TokenProcessor};
use crate::bms::prompt::{DefDuplication, Prompter};
use crate::text::{owned, spec_strip_prefix_ignore_case, strip_prefix_ignore_case};
use vstd::prelude::*;

verus! {

impl TimedObj<StringValue> for ScrollingFactorObj {
    open spec fn spec_make(time: ObjTime, channel: Channel, v: StringValue) -> Self {
        ScrollingFactorObj { time, factor: v }
    }

    fn make(time: ObjTime, channel: Channel, v: StringValue) -> (r: Self) {
        ScrollingFactorObj { time, factor: v }
    }
}

/// The processor of scrolling factors.
#[derive(Debug, Clone, Copy, PartialEq, Eq, Hash, Structural)]
pub struct ScrollProcessor {
    /// Whether object ids are read in base 62.
    pub case_sensitive_obj_id: bool,
}


/// What one header does to the scrolling objects, with its outcome.
pub open spec fn header_applied<P: Prompter>(
    cs: bool,
    name: Seq<char>,
    args: Seq<char>,
    prompter: P,
    before: ScrollObjects,
    after: ScrollObjects,
    r: Result<(), ParseWarning>,
) -> bool {
    &&& after.scrolling_factor_changes@ == before.scrolling_factor_changes@
    &&& spec_strip_prefix_ignore_case(name, "SCROLL"@) is None ==> r is Ok && after.scroll_defs == before.scroll_defs
    &&& spec_strip_prefix_ignore_case(name, "SCROLL"@) matches Some(t) ==> {
        &&& (!fraction_text(args) ==> r is Err && after.scroll_defs == before.scroll_defs)
        &&& (fraction_text(args) && !spec_obj_id_text(t) ==> r is Err && after.scroll_defs
            == before.scroll_defs)
        &&& (fraction_text(args) && spec_obj_id_text(t) ==> {
            let id = spec_obj_id_of(t, cs);
            exists|v: StringValue|
                v.text() == args && spec_defined(
                    before.scroll_defs,
                    after.scroll_defs,
                    id,
                    v,
                    DefDuplication::ScrollingFactorChange { id },
                    prompter,
                    r,
                )
        })
    }
}

/// What one message does to the scrolling objects, with its outcome.
pub open spec fn message_applied<P: Prompter>(
    cs: bool,
    track: Track,
    channel: Channel,
    message: Seq<char>,
    prompter: P,
    before: ScrollObjects,
    after: ScrollObjects,
    r: Result<Vec<ParseWarning>, ParseWarning>,
) -> bool {
    &&& after.scroll_defs == before.scroll_defs
    &&& channel is Scroll && message.len() % 2 == 0 ==> {
        let (s, res) = push_all(
            before.scrolling_factor_changes@,
            obj_pairs(track.0, message, cs, (message.len() / 2) as int),
            before.scroll_defs,
            channel,
            prompter,
        );
        &&& after.scrolling_factor_changes@ == s
        &&& (r is Ok <==> res is Ok)
        &&& (r matches Err(w) ==> res == Err::<(), ParseWarning>(w))
    }
    &&& !(channel is Scroll) ==> after.scrolling_factor_changes@ == before.scrolling_factor_changes@ && (r matches Ok(
        ws,
    ) && ws@.len() == 0)
}

/// Scrolling objects with nothing in them.
pub open spec fn fresh(o: ScrollObjects) -> bool {
    &&& forall|k: int| #[trigger] o.scroll_defs.at(k) is None
    &&& o.scrolling_factor_changes@.len() == 0
}

/// What one token does, with the warnings it gives.
pub open spec fn token_step<P: Prompter>(
    cs: bool,
    t: Token,
    prompter: P,
    before: ScrollObjects,
    after: ScrollObjects,
    ws: Seq<ParseWarning>,
) -> bool {
    match t {
        Token::Header { name, args } => exists|r: Result<(), ParseWarning>|
            header_applied(cs, name@, args@, prompter, before, after, r) && ws == header_warnings(r),
        Token::Message { track, channel, message } => exists|r: Result<Vec<ParseWarning>, ParseWarning>|
            message_applied(cs, track, channel, message@, prompter, before, after, r) && ws == message_warnings(r),
        Token::NotACommand(_) => after == before && ws.len() == 0,
    }
}

/// The scrolling objects and warnings of a token stream: from fresh ones, each token in turn as
/// `token_step`, the warnings placed at their tokens.
pub open spec fn processed<P: Prompter>(
    cs: bool,
    tokens: Seq<TokenWithRange>,
    prompter: P,
    o: ScrollObjects,
    ws: Seq<ParseWarningWithRange>,
) -> bool {
    exists|states: Seq<ScrollObjects>, wss: Seq<Seq<ParseWarning>>|
        {
            &&& states.len() == tokens.len() + 1
            &&& wss.len() == tokens.len()
            &&& fresh(states[0])
            &&& states.last() == o
            &&& forall|i: int|
                0 <= i < tokens.len() ==> token_step(cs, #[trigger] tokens[i].content, prompter, states[i], states[i + 1], wss[i])
            &&& ws == placed_warnings(tokens, wss, tokens.len() as int)
        }
}

impl ScrollProcessor {
    /// A processor reading object ids in base 62 when `case_sensitive_obj_id`.
    pub fn new(case_sensitive_obj_id: bool) -> (r: Self)
        ensures
            r.case_sensitive_obj_id == case_sensitive_obj_id,
    {
        ScrollProcessor { case_sensitive_obj_id }
    }

    /// Applies one header: `#SCROLLxx f` defines the factor of `xx`; `f` must be a decimal.
    pub fn on_header<P: Prompter>(
        &self,
        name: &str,
        args: &str,
        prompter: &P,
        objects: &mut ScrollObjects,
    ) -> (r: Result<(), ParseWarning>)
        ensures
            header_applied(self.case_sensitive_obj_id, name@, args@, *prompter, *old(objects), *final(objects), r),
    {
        if let Some(id_text) = strip_prefix_ignore_case(name, "SCROLL") {
            if !fraction_ok(args) {
                return Err(ParseWarning::SyntaxError(owned("expected decimal scroll factor")));
            }
            let id = ObjId::try_from(id_text.as_str(), self.case_sensitive_obj_id)?;
            let v = StringValue::new(args);
            let r = objects.scroll_defs.define(id, v, DefDuplication::ScrollingFactorChange { id }, prompter);
            return r;
        }
        Ok(())
    }

    /// Applies one message: on the scroll channel each id is a factor change at its position.
    /// Returns the warnings of pairs that are no ids; fails at the first id without
    /// definition or the first duplicated position whose warning the prompter asks for.
    pub fn on_message<P: Prompter>(
        &self,
        track: Track,
        channel: Channel,
        message: &str,
        prompter: &P,
        objects: &mut ScrollObjects,
    ) -> (r: Result<Vec<ParseWarning>, ParseWarning>)
        ensures
            message_applied(self.case_sensitive_obj_id, track, channel, message@, *prompter, *old(objects), *final(objects), r),
    {
        if let Channel::Scroll = channel {
            let (pairs, warnings) = parse_obj_ids(track.0, message, self.case_sensitive_obj_id);
            push_defined(&mut objects.scrolling_factor_changes, &pairs, &objects.scroll_defs, channel, prompter)?;
            return Ok(warnings);
        }
        Ok(Vec::new())
    }
}

impl<P: Prompter> TokenProcessor<P> for ScrollProcessor {
    type Output = ScrollObjects;

    open spec fn outcome(
        &self,
        tokens: Seq<TokenWithRange>,
        prompter: P,
        r: Result<(ScrollObjects, Vec<ParseWarningWithRange>), ParseErrorWithRange>,
    ) -> bool {
        r matches Ok((o, ws)) && processed(self.case_sensitive_obj_id, tokens, prompter, o, ws@)
    }

    fn process(&self, tokens: &[TokenWithRange], prompter: &P) -> (r: Result<
        (ScrollObjects, Vec<ParseWarningWithRange>),
        ParseErrorWithRange,
    >)
        ensures
            r matches Ok((o, ws)) && processed(self.case_sensitive_obj_id, tokens@, *prompter, o, ws@),
    {
        let mut objects = ScrollObjects::new();
        let mut warnings: Vec<ParseWarningWithRange> = Vec::new();
        let ghost mut states: Seq<ScrollObjects> = seq![objects];
        let ghost mut wss: Seq<Seq<ParseWarning>> = Seq::empty();
        let mut i: usize = 0;
        while i < tokens.len()
            invariant
                i <= tokens@.len(),
                states.len() == i + 1,
                wss.len() == i,
                fresh(states[0]),
                states.last() == objects,
                forall|j: int|
                    0 <= j < i ==> token_step(self.case_sensitive_obj_id, #[trigger] tokens@[j].content, *prompter, states[j], states[j + 1], wss[j]),
                warnings@ == placed_warnings(tokens@, wss, i as int),
            decreases tokens@.len() - i,
        {
            let ghost before = objects;
            let ws: Vec<ParseWarning> = match &tokens[i].content {
                Token::Header { name, args } => {
                    let r = self.on_header(name.as_str(), args.as_str(), prompter, &mut objects);
                    let ws = match r {
                        Ok(()) => Vec::new(),
                        Err(w) => vec![w],
                    };
                    assert(ws@ =~= header_warnings(r));
                    ws
                },
                Token::Message { track, channel, message } => {
                    let r = self.on_message(*track, *channel, message.as_str(), prompter, &mut objects);
                    let ghost rr = r;
                    let ws = match r {
                        Ok(ws) => ws,
                        Err(w) => vec![w],
                    };
                    assert(ws@ =~= message_warnings(rr));
                    ws
                },
                Token::NotACommand(_) => Vec::new(),
            };
            assert(token_step(self.case_sensitive_obj_id, tokens@[i as int].content, *prompter, before, objects, ws@));
            let g = add_placed(&mut warnings, ws, tokens[i].range, Ghost(tokens@), Ghost(wss), Ghost(i as int));
            proof {
                wss = g@;
                states = states.push(objects);
            }
            i += 1;
        }
        Ok((objects, warnings))
    }
}

} // verus!
