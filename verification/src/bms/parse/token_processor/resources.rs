//! `#MIDIFILE`, `#CDDA`, `#MATERIALSWAV`, `#MATERIALSBMP` and `#MATERIALS`: other resources.
use crate::bms::error::{ParseErrorWithRange, ParseWarning, ParseWarningWithRange};
use crate::bms::lex::{Token, TokenWithRange};
use crate::bms::objects::Resources;
use crate::bms::parse::token_processor::{add_placed, header_warnings, placed_warnings};
use crate::bms::parse::TokenProcessor;
use crate::bms::prompt::Prompter;
use crate::text::{
    eq_ignore_ascii_case, eq_ignore_case, holds_text, is_empty_text, owned, parse_u64,
    spec_parse_unsigned,
};
use vstd::prelude::*;

verus! {

/// The processor of other resources.
#[derive(Debug, Clone, Copy, PartialEq, Eq, Hash, Structural)]
pub struct ResourcesProcessor;

/// What one header does to the resources, with its outcome.
pub open spec fn header_applied(
    name: Seq<char>,
    args: Seq<char>,
    before: Resources,
    after: Resources,
    r: Result<(), ParseWarning>,
) -> bool {
    &&& r matches Err(w) ==> w is SyntaxError
    &&& eq_ignore_case(name, "MIDIFILE"@) ==> (r is Ok <==> args.len() > 0) && (r is Ok
        ==> holds_text(after.midi_file, args))
    &&& eq_ignore_case(name, "CDDA"@) ==> (r is Ok <==> spec_parse_unsigned(args, u64::MAX as int) is Some) && (r is Ok
        ==> after.cdda@ == before.cdda@.push(
        spec_parse_unsigned(args, u64::MAX as int)->0 as u64,
    ))
    &&& eq_ignore_case(name, "MATERIALSWAV"@) ==> r is Ok && after.materials_wav@.map_values(
        |s: String| s@,
    ) == before.materials_wav@.map_values(|s: String| s@).push(args)
    &&& eq_ignore_case(name, "MATERIALSBMP"@) ==> r is Ok && after.materials_bmp@.map_values(
        |s: String| s@,
    ) == before.materials_bmp@.map_values(|s: String| s@).push(args)
    &&& eq_ignore_case(name, "MATERIALS"@) ==> r is Ok && holds_text(
        after.materials_path,
        args,
    )
}

/// Resources with nothing in them.
pub open spec fn fresh(o: Resources) -> bool {
    &&& o.midi_file is None
    &&& o.cdda@.len() == 0
    &&& o.materials_wav@.len() == 0
    &&& o.materials_bmp@.len() == 0
    &&& o.materials_path is None
}

/// What one token does, with the warnings it gives.
pub open spec fn token_step<P: Prompter>(
    t: Token,
    prompter: P,
    before: Resources,
    after: Resources,
    ws: Seq<ParseWarning>,
) -> bool {
    match t {
        Token::Header { name, args } => exists|r: Result<(), ParseWarning>|
            header_applied(name@, args@, before, after, r) && ws == header_warnings(r),
        Token::Message { track, channel, message } => after == before && ws.len() == 0,
        Token::NotACommand(_) => after == before && ws.len() == 0,
    }
}

/// The resources and warnings of a token stream: from fresh ones, each token in turn as
/// `token_step`, the warnings placed at their tokens.
pub open spec fn processed<P: Prompter>(
    tokens: Seq<TokenWithRange>,
    prompter: P,
    o: Resources,
    ws: Seq<ParseWarningWithRange>,
) -> bool {
    exists|states: Seq<Resources>, wss: Seq<Seq<ParseWarning>>|
        {
            &&& states.len() == tokens.len() + 1
            &&& wss.len() == tokens.len()
            &&& fresh(states[0])
            &&& states.last() == o
            &&& forall|i: int|
                0 <= i < tokens.len() ==> token_step(#[trigger] tokens[i].content, prompter, states[i], states[i + 1], wss[i])
            &&& ws == placed_warnings(tokens, wss, tokens.len() as int)
        }
}

impl ResourcesProcessor {
    /// Applies one header.
    pub fn on_header(name: &str, args: &str, resources: &mut Resources) -> (r: Result<(), ParseWarning>)
        ensures
            header_applied(name@, args@, *old(resources), *final(resources), r),
    {
        proof {
            reveal_strlit("MIDIFILE");
            reveal_strlit("CDDA");
            reveal_strlit("MATERIALSWAV");
            reveal_strlit("MATERIALSBMP");
            reveal_strlit("MATERIALS");
        }
        if eq_ignore_ascii_case(name, "MIDIFILE") {
            if is_empty_text(args) {
                return Err(ParseWarning::SyntaxError(owned("expected midi filename")));
            }
            resources.midi_file = Some(owned(args));
        }
        if eq_ignore_ascii_case(name, "CDDA") {
            match parse_u64(args) {
                Some(v) => resources.cdda.push(v),
                None => {
                    return Err(ParseWarning::SyntaxError(owned("expected integer")));
                },
            }
        }
        if eq_ignore_ascii_case(name, "MATERIALSWAV") {
            resources.materials_wav.push(owned(args));
            assert(resources.materials_wav@.map_values(|s: String| s@) =~= old(resources).materials_wav@.map_values(|s: String| s@).push(args@));
        }
        if eq_ignore_ascii_case(name, "MATERIALSBMP") {
            resources.materials_bmp.push(owned(args));
            assert(resources.materials_bmp@.map_values(|s: String| s@) =~= old(resources).materials_bmp@.map_values(|s: String| s@).push(args@));
        }
        if eq_ignore_ascii_case(name, "MATERIALS") {
            resources.materials_path = Some(owned(args));
        }
        Ok(())
    }
}

impl<P: Prompter> TokenProcessor<P> for ResourcesProcessor {
    type Output = Resources;

    open spec fn outcome(
        &self,
        tokens: Seq<TokenWithRange>,
        prompter: P,
        r: Result<(Resources, Vec<ParseWarningWithRange>), ParseErrorWithRange>,
    ) -> bool {
        r matches Ok((o, ws)) && processed(tokens, prompter, o, ws@)
    }

    fn process(&self, tokens: &[TokenWithRange], prompter: &P) -> (r: Result<
        (Resources, Vec<ParseWarningWithRange>),
        ParseErrorWithRange,
    >)
        ensures
            r matches Ok((o, ws)) && processed(tokens@, *prompter, o, ws@),
    {
        let mut resources = Resources::new();
        let mut warnings: Vec<ParseWarningWithRange> = Vec::new();
        let ghost mut states: Seq<Resources> = seq![resources];
        let ghost mut wss: Seq<Seq<ParseWarning>> = Seq::empty();
        let mut i: usize = 0;
        while i < tokens.len()
            invariant
                i <= tokens@.len(),
                states.len() == i + 1,
                wss.len() == i,
                fresh(states[0]),
                states.last() == resources,
                forall|j: int|
                    0 <= j < i ==> token_step(#[trigger] tokens@[j].content, *prompter, states[j], states[j + 1], wss[j]),
                warnings@ == placed_warnings(tokens@, wss, i as int),
            decreases tokens@.len() - i,
        {
            let ghost before = resources;
            let ws: Vec<ParseWarning> = match &tokens[i].content {
                Token::Header { name, args } => {
                    let r = Self::on_header(name.as_str(), args.as_str(), &mut resources);
                    let ws = match r {
                        Ok(()) => Vec::new(),
                        Err(w) => vec![w],
                    };
                    assert(ws@ =~= header_warnings(r));
                    ws
                },
                Token::Message { .. } => Vec::new(),
                Token::NotACommand(_) => Vec::new(),
            };
            assert(token_step(tokens@[i as int].content, *prompter, before, resources, ws@));
            let g = add_placed(&mut warnings, ws, tokens[i].range, Ghost(tokens@), Ghost(wss), Ghost(i as int));
            proof {
                wss = g@;
                states = states.push(resources);
            }
            i += 1;
        }
        Ok((resources, warnings))
    }
}

} // verus!
