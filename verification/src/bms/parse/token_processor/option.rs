//! `#OPTION` and `#CHANGEOPTIONxx` definitions and the option channel `#xxxA6:`.
use crate::bms::command::{spec_obj_id_of, spec_obj_id_text, Channel, ObjId, ObjTime, Track};
use crate::bms::error::{ParseErrorWithRange, ParseWarning, ParseWarningWithRange};
use crate::bms::lex::{Token, TokenWithRange};
use crate::bms::model::spec_defined;
use crate::bms::objects::{OptionObj, OptionObjects};
use crate::bms::parse::token_processor::{
    add_placed, header_warnings, message_warnings, placed_warnings, push_all, push_defined, TimedObj};
use crate::bms::parse::{obj_pairs, parse_obj_ids, TokenProcessor};
use crate::bms::prompt::{DefDuplication, Prompter};
use crate::text::{eq_ignore_ascii_case, eq_ignore_case, owned, spec_strip_prefix_ignore_case, strip_prefix_ignore_case};
use vstd::prelude::*;

verus! {

impl TimedObj<String> for OptionObj {
    open spec fn spec_make(time: ObjTime, channel: Channel, v: String) -> Self {
        OptionObj { time, option: v }
    }

    fn make(time: ObjTime, channel: Channel, v: String) -> (r: Self) {
        OptionObj { time, option: v }
    }
}

/// The processor of player options.
#[derive(Debug, Clone, Copy, PartialEq, Eq, Hash, Structural)]
pub struct OptionProcessor {
    /// Whether object ids are read in base 62.
    pub case_sensitive_obj_id: bool,
}

/// The id text of a `#CHANGEOPTIONxx` header name.
pub open spec fn option_id_text(name: Seq<char>) -> Option<Seq<char>> {
    spec_strip_prefix_ignore_case(name, "CHANGEOPTION"@)
}

/// The `#OPTION` lines after adding `o`.
pub open spec fn options_after(old: Option<Vec<String>>, o: Seq<char>) -> Seq<Seq<char>> {
    match old {
        Some(v) => v@.map_values(|s: String| s@).push(o),
        None => seq![o],
    }
}

/// What one header does to the option objects, with its outcome.
pub open spec fn header_applied<P: Prompter>(
    cs: bool,
    name: Seq<char>,
    args: Seq<char>,
    prompter: P,
    before: OptionObjects,
    after: OptionObjects,
    r: Result<(), ParseWarning>,
) -> bool {
    &&& after.option_events@ == before.option_events@
    &&& eq_ignore_case(name, "OPTION"@) ==> r is Ok && match after.options {
        Some(v) => v@.map_values(|s: String| s@) == options_after(before.options, args),
        None => false,
    }
    &&& !eq_ignore_case(name, "OPTION"@) ==> after.options == before.options
    &&& option_id_text(name) is None ==> r is Ok && after.change_options == before.change_options
    &&& option_id_text(name) matches Some(t) ==> {
        &&& (!spec_obj_id_text(t) ==> r is Err && after.change_options == before.change_options)
        &&& (spec_obj_id_text(t) ==> {
            let id = spec_obj_id_of(t, cs);
            exists|v: String|
                v@ == args && spec_defined(
                    before.change_options,
                    after.change_options,
                    id,
                    v,
                    DefDuplication::ChangeOption { id },
                    prompter,
                    r,
                )
        })
    }
}

/// What one message does to the option objects, with its outcome.
pub open spec fn message_applied<P: Prompter>(
    cs: bool,
    track: Track,
    channel: Channel,
    message: Seq<char>,
    prompter: P,
    before: OptionObjects,
    after: OptionObjects,
    r: Result<Vec<ParseWarning>, ParseWarning>,
) -> bool {
    &&& after.change_options == before.change_options
    &&& after.options == before.options
    &&& channel is OptionChange && message.len() % 2 == 0 ==> {
        let (s, res) = push_all(
            before.option_events@,
            obj_pairs(track.0, message, cs, (message.len() / 2) as int),
            before.change_options,
            channel,
            prompter,
        );
        &&& after.option_events@ == s
        &&& (r is Ok <==> res is Ok)
        &&& (r matches Err(w) ==> res == Err::<(), ParseWarning>(w))
    }
    &&& !(channel is OptionChange) ==> after.option_events@ == before.option_events@ && (r matches Ok(
        ws,
    ) && ws@.len() == 0)
}

/// Option objects with nothing in them.
pub open spec fn fresh(o: OptionObjects) -> bool {
    &&& o.options is None
    &&& forall|k: int| #[trigger] o.change_options.at(k) is None
    &&& o.option_events@.len() == 0
}

/// What one token does, with the warnings it gives.
pub open spec fn token_step<P: Prompter>(
    cs: bool,
    t: Token,
    prompter: P,
    before: OptionObjects,
    after: OptionObjects,
    ws: Seq<ParseWarning>,
) -> bool {
    match t {
        Token::Header { name, args } => exists|r: Result<(), ParseWarning>|
            header_applied(cs, name@, args@, prompter, before, after, r) && ws == header_warnings(r),
        Token::Message { track, channel, message } => exists|r: Result<Vec<ParseWarning>, ParseWarning>|
            message_applied(cs, track, channel, message@, prompter, before, after, r) && ws == message_warnings(r),
        Token::NotACommand(_) => after == before && ws.len() == 0,
    }
}

/// The option objects and warnings of a token stream: from fresh ones, each token in turn as
/// `token_step`, the warnings placed at their tokens.
pub open spec fn processed<P: Prompter>(
    cs: bool,
    tokens: Seq<TokenWithRange>,
    prompter: P,
    o: OptionObjects,
    ws: Seq<ParseWarningWithRange>,
) -> bool {
    exists|states: Seq<OptionObjects>, wss: Seq<Seq<ParseWarning>>|
        {
            &&& states.len() == tokens.len() + 1
            &&& wss.len() == tokens.len()
            &&& fresh(states[0])
            &&& states.last() == o
            &&& forall|i: int|
                0 <= i < tokens.len() ==> token_step(cs, #[trigger] tokens[i].content, prompter, states[i], states[i + 1], wss[i])
            &&& ws == placed_warnings(tokens, wss, tokens.len() as int)
        }
}

impl OptionProcessor {
    /// A processor reading object ids in base 62 when `case_sensitive_obj_id`.
    pub fn new(case_sensitive_obj_id: bool) -> (r: Self)
        ensures
            r.case_sensitive_obj_id == case_sensitive_obj_id,
    {
        OptionProcessor { case_sensitive_obj_id }
    }

    /// Applies one header: `#OPTION o` adds an option line; `#CHANGEOPTIONxx o` defines the
    /// option of `xx`.
    pub fn on_header<P: Prompter>(
        &self,
        name: &str,
        args: &str,
        prompter: &P,
        objects: &mut OptionObjects,
    ) -> (r: Result<(), ParseWarning>)
        ensures
            header_applied(self.case_sensitive_obj_id, name@, args@, *prompter, *old(objects), *final(objects), r),
    {
        proof {
            reveal_strlit("OPTION");
            reveal_strlit("CHANGEOPTION");
        }
        if eq_ignore_ascii_case(name, "OPTION") {
            let mut lines = match objects.options.take() {
                Some(v) => v,
                None => Vec::new(),
            };
            lines.push(owned(args));
            objects.options = Some(lines);
            assert(objects.options->0@.map_values(|s: String| s@) =~= options_after(old(objects).options, args@));
        }
        if let Some(id_text) = strip_prefix_ignore_case(name, "CHANGEOPTION") {
            let id = ObjId::try_from(id_text.as_str(), self.case_sensitive_obj_id)?;
            let v = owned(args);
            let r = objects.change_options.define(id, v, DefDuplication::ChangeOption { id }, prompter);
            return r;
        }
        Ok(())
    }

    /// Applies one message: on the option channel each id is an option change at its position.
    /// Returns the warnings of pairs that are no ids; fails at the first id without
    /// definition or the first duplicated position whose warning the prompter asks for.
    pub fn on_message<P: Prompter>(
        &self,
        track: Track,
        channel: Channel,
        message: &str,
        prompter: &P,
        objects: &mut OptionObjects,
    ) -> (r: Result<Vec<ParseWarning>, ParseWarning>)
        ensures
            message_applied(self.case_sensitive_obj_id, track, channel, message@, *prompter, *old(objects), *final(objects), r),
    {
        if let Channel::OptionChange = channel {
            let (pairs, warnings) = parse_obj_ids(track.0, message, self.case_sensitive_obj_id);
            push_defined(&mut objects.option_events, &pairs, &objects.change_options, channel, prompter)?;
            return Ok(warnings);
        }
        Ok(Vec::new())
    }
}

impl<P: Prompter> TokenProcessor<P> for OptionProcessor {
    type Output = OptionObjects;

    open spec fn outcome(
        &self,
        tokens: Seq<TokenWithRange>,
        prompter: P,
        r: Result<(OptionObjects, Vec<ParseWarningWithRange>), ParseErrorWithRange>,
    ) -> bool {
        r matches Ok((o, ws)) && processed(self.case_sensitive_obj_id, tokens, prompter, o, ws@)
    }

    fn process(&self, tokens: &[TokenWithRange], prompter: &P) -> (r: Result<
        (OptionObjects, Vec<ParseWarningWithRange>),
        ParseErrorWithRange,
    >)
        ensures
            r matches Ok((o, ws)) && processed(self.case_sensitive_obj_id, tokens@, *prompter, o, ws@),
    {
        let mut objects = OptionObjects::new();
        let mut warnings: Vec<ParseWarningWithRange> = Vec::new();
        let ghost mut states: Seq<OptionObjects> = seq![objects];
        let ghost mut wss: Seq<Seq<ParseWarning>> = Seq::empty();
        let mut i: usize = 0;
        while i < tokens.len()
            invariant
                i <= tokens@.len(),
                states.len() == i + 1,
                wss.len() == i,
                fresh(states[0]),
                states.last() == objects,
                forall|j: int|
                    0 <= j < i ==> token_step(self.case_sensitive_obj_id, #[trigger] tokens@[j].content, *prompter, states[j], states[j + 1], wss[j]),
                warnings@ == placed_warnings(tokens@, wss, i as int),
            decreases tokens@.len() - i,
        {
            let ghost before = objects;
            let ws: Vec<ParseWarning> = match &tokens[i].content {
                Token::Header { name, args } => {
                    let r = self.on_header(name.as_str(), args.as_str(), prompter, &mut objects);
                    let ws = match r {
                        Ok(()) => Vec::new(),
                        Err(w) => vec![w],
                    };
                    assert(ws@ =~= header_warnings(r));
                    ws
                },
                Token::Message { track, channel, message } => {
                    let r = self.on_message(*track, *channel, message.as_str(), prompter, &mut objects);
                    let ghost rr = r;
                    let ws = match r {
                        Ok(ws) => ws,
                        Err(w) => vec![w],
                    };
                    assert(ws@ =~= message_warnings(rr));
                    ws
                },
                Token::NotACommand(_) => Vec::new(),
            };
            assert(token_step(self.case_sensitive_obj_id, tokens@[i as int].content, *prompter, before, objects, ws@));
            let g = add_placed(&mut warnings, ws, tokens[i].range, Ghost(tokens@), Ghost(wss), Ghost(i as int));
            proof {
                wss = g@;
                states = states.push(objects);
            }
            i += 1;
        }
        Ok((objects, warnings))
    }
}

} // verus!
