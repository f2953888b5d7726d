//! `#TEXTxx` / `#SONGxx` definitions and the text channel `#xxx99:`.
use crate::bms::command::{spec_obj_id_of, spec_obj_id_text, Channel, ObjId, ObjTime, Track};
use crate::bms::error::{ParseErrorWithRange, ParseWarning, ParseWarningWithRange};
use crate::bms::lex::{Token, TokenWithRange};
use crate::bms::model::spec_defined;
use crate::bms::objects::{TextObj, TextObjects};
use crate::bms::parse::token_processor::{
    add_placed, header_warnings, message_warnings, placed_warnings, push_all, push_defined, TimedObj};
use crate::bms::parse::{obj_pairs, parse_obj_ids, TokenProcessor};
use crate::bms::prompt::{DefDuplication, Prompter};
use crate::text::{owned, spec_strip_prefix_ignore_case, strip_prefix_ignore_case};
use vstd::prelude::*;

verus! {

impl TimedObj<String> for TextObj {
    open spec fn spec_make(time: ObjTime, channel: Channel, v: String) -> Self {
        TextObj { time, text: v }
    }

    fn make(time: ObjTime, channel: Channel, v: String) -> (r: Self) {
        TextObj { time, text: v }
    }
}

/// The processor of texts.
#[derive(Debug, Clone, Copy, PartialEq, Eq, Hash, Structural)]
pub struct TextProcessor {
    /// Whether object ids are read in base 62.
    pub case_sensitive_obj_id: bool,
}

/// The id text of a `#TEXTxx` or `#SONGxx` header name.
pub open spec fn text_id_text(name: Seq<char>) -> Option<Seq<char>> {
    match spec_strip_prefix_ignore_case(name, "TEXT"@) {
        Some(rest) => Some(rest),
        None => spec_strip_prefix_ignore_case(name, "SONG"@),
    }
}

/// What one header does to the text objects, with its outcome.
pub open spec fn header_applied<P: Prompter>(
    cs: bool,
    name: Seq<char>,
    args: Seq<char>,
    prompter: P,
    before: TextObjects,
    after: TextObjects,
    r: Result<(), ParseWarning>,
) -> bool {
    &&& after.text_events@ == before.text_events@
    &&& text_id_text(name) is None ==> r is Ok && after.texts == before.texts
    &&& text_id_text(name) matches Some(t) ==> {
        &&& (!spec_obj_id_text(t) ==> r is Err && after.texts == before.texts)
        &&& (spec_obj_id_text(t) ==> {
            let id = spec_obj_id_of(t, cs);
            exists|v: String|
                v@ == args && spec_defined(
                    before.texts,
                    after.texts,
                    id,
                    v,
                    DefDuplication::Text { id },
                    prompter,
                    r,
                )
        })
    }
}

/// What one message does to the text objects, with its outcome.
pub open spec fn message_applied<P: Prompter>(
    cs: bool,
    track: Track,
    channel: Channel,
    message: Seq<char>,
    prompter: P,
    before: TextObjects,
    after: TextObjects,
    r: Result<Vec<ParseWarning>, ParseWarning>,
) -> bool {
    &&& after.texts == before.texts
    &&& channel is Text && message.len() % 2 == 0 ==> {
        let (s, res) = push_all(
            before.text_events@,
            obj_pairs(track.0, message, cs, (message.len() / 2) as int),
            before.texts,
            channel,
            prompter,
        );
        &&& after.text_events@ == s
        &&& (r is Ok <==> res is Ok)
        &&& (r matches Err(w) ==> res == Err::<(), ParseWarning>(w))
    }
    &&& !(channel is Text) ==> after.text_events@ == before.text_events@ && (r matches Ok(
        ws,
    ) && ws@.len() == 0)
}

/// Text objects with nothing in them.
pub open spec fn fresh(o: TextObjects) -> bool {
    &&& forall|k: int| #[trigger] o.texts.at(k) is None
    &&& o.text_events@.len() == 0
}

/// What one token does, with the warnings it gives.
pub open spec fn token_step<P: Prompter>(
    cs: bool,
    t: Token,
    prompter: P,
    before: TextObjects,
    after: TextObjects,
    ws: Seq<ParseWarning>,
) -> bool {
    match t {
        Token::Header { name, args } => exists|r: Result<(), ParseWarning>|
            header_applied(cs, name@, args@, prompter, before, after, r) && ws == header_warnings(r),
        Token::Message { track, channel, message } => exists|r: Result<Vec<ParseWarning>, ParseWarning>|
            message_applied(cs, track, channel, message@, prompter, before, after, r) && ws == message_warnings(r),
        Token::NotACommand(_) => after == before && ws.len() == 0,
    }
}

/// The text objects and warnings of a token stream: from fresh ones, each token in turn as
/// `token_step`, the warnings placed at their tokens.
pub open spec fn processed<P: Prompter>(
    cs: bool,
    tokens: Seq<TokenWithRange>,
    prompter: P,
    o: TextObjects,
    ws: Seq<ParseWarningWithRange>,
) -> bool {
    exists|states: Seq<TextObjects>, wss: Seq<Seq<ParseWarning>>|
        {
            &&& states.len() == tokens.len() + 1
            &&& wss.len() == tokens.len()
            &&& fresh(states[0])
            &&& states.last() == o
            &&& forall|i: int|
                0 <= i < tokens.len() ==> token_step(cs, #[trigger] tokens[i].content, prompter, states[i], states[i + 1], wss[i])
            &&& ws == placed_warnings(tokens, wss, tokens.len() as int)
        }
}

impl TextProcessor {
    /// A processor reading object ids in base 62 when `case_sensitive_obj_id`.
    pub fn new(case_sensitive_obj_id: bool) -> (r: Self)
        ensures
            r.case_sensitive_obj_id == case_sensitive_obj_id,
    {
        TextProcessor { case_sensitive_obj_id }
    }

    /// Applies one header: `#TEXTxx text` and `#SONGxx text` define the text of `xx`.
    pub fn on_header<P: Prompter>(
        &self,
        name: &str,
        args: &str,
        prompter: &P,
        objects: &mut TextObjects,
    ) -> (r: Result<(), ParseWarning>)
        ensures
            header_applied(self.case_sensitive_obj_id, name@, args@, *prompter, *old(objects), *final(objects), r),
    {
        let rest = match strip_prefix_ignore_case(name, "TEXT") {
            Some(r) => Some(r),
            None => strip_prefix_ignore_case(name, "SONG"),
        };
        if let Some(id_text) = rest {
            let id = ObjId::try_from(id_text.as_str(), self.case_sensitive_obj_id)?;
            let v = owned(args);
            let r = objects.texts.define(id, v, DefDuplication::Text { id }, prompter);
            return r;
        }
        Ok(())
    }

    /// Applies one message: on the text channel each id is a text shown at its position.
    /// Returns the warnings of pairs that are no ids; fails at the first id without
    /// definition or the first duplicated position whose warning the prompter asks for.
    pub fn on_message<P: Prompter>(
        &self,
        track: Track,
        channel: Channel,
        message: &str,
        prompter: &P,
        objects: &mut TextObjects,
    ) -> (r: Result<Vec<ParseWarning>, ParseWarning>)
        ensures
            message_applied(self.case_sensitive_obj_id, track, channel, message@, *prompter, *old(objects), *final(objects), r),
    {
        if let Channel::Text = channel {
            let (pairs, warnings) = parse_obj_ids(track.0, message, self.case_sensitive_obj_id);
            push_defined(&mut objects.text_events, &pairs, &objects.texts, channel, prompter)?;
            return Ok(warnings);
        }
        Ok(Vec::new())
    }
}

impl<P: Prompter> TokenProcessor<P> for TextProcessor {
    type Output = TextObjects;

    open spec fn outcome(
        &self,
        tokens: Seq<TokenWithRange>,
        prompter: P,
        r: Result<(TextObjects, Vec<ParseWarningWithRange>), ParseErrorWithRange>,
    ) -> bool {
        r matches Ok((o, ws)) && processed(self.case_sensitive_obj_id, tokens, prompter, o, ws@)
    }

    fn process(&self, tokens: &[TokenWithRange], prompter: &P) -> (r: Result<
        (TextObjects, Vec<ParseWarningWithRange>),
        ParseErrorWithRange,
    >)
        ensures
            r matches Ok((o, ws)) && processed(self.case_sensitive_obj_id, tokens@, *prompter, o, ws@),
    {
        let mut objects = TextObjects::new();
        let mut warnings: Vec<ParseWarningWithRange> = Vec::new();
        let ghost mut states: Seq<TextObjects> = seq![objects];
        let ghost mut wss: Seq<Seq<ParseWarning>> = Seq::empty();
        let mut i: usize = 0;
        while i < tokens.len()
            invariant
                i <= tokens@.len(),
                states.len() == i + 1,
                wss.len() == i,
                fresh(states[0]),
                states.last() == objects,
                forall|j: int|
                    0 <= j < i ==> token_step(self.case_sensitive_obj_id, #[trigger] tokens@[j].content, *prompter, states[j], states[j + 1], wss[j]),
                warnings@ == placed_warnings(tokens@, wss, i as int),
            decreases tokens@.len() - i,
        {
            let ghost before = objects;
            let ws: Vec<ParseWarning> = match &tokens[i].content {
                Token::Header { name, args } => {
                    let r = self.on_header(name.as_str(), args.as_str(), prompter, &mut objects);
                    let ws = match r {
                        Ok(()) => Vec::new(),
                        Err(w) => vec![w],
                    };
                    assert(ws@ =~= header_warnings(r));
                    ws
                },
                Token::Message { track, channel, message } => {
                    let r = self.on_message(*track, *channel, message.as_str(), prompter, &mut objects);
                    let ghost rr = r;
                    let ws = match r {
                        Ok(ws) => ws,
                        Err(w) => vec![w],
                    };
                    assert(ws@ =~= message_warnings(rr));
                    ws
                },
                Token::NotACommand(_) => Vec::new(),
            };
            assert(token_step(self.case_sensitive_obj_id, tokens@[i as int].content, *prompter, before, objects, ws@));
            let g = add_placed(&mut warnings, ws, tokens[i].range, Ghost(tokens@), Ghost(wss), Ghost(i as int));
            proof {
                wss = g@;
                states = states.push(objects);
            }
            i += 1;
        }
        Ok((objects, warnings))
    }
}

} // verus!
