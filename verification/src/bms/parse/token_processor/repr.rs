//! How the source is written: every header command line, `#BASE`, `#LNMODE`, `#LNTYPE`
//! and `#CHARSET`.
use crate::bms::command::{LnMode, LnType};
use crate::bms::error::{ParseErrorWithRange, ParseWarning, ParseWarningWithRange};
use crate::bms::lex::{Token, TokenWithRange};
use crate::bms::objects::BmsSourceRepresentation;
use crate::bms::parse::token_processor::{add_placed, header_warnings, placed_warnings};
use crate::bms::parse::TokenProcessor;
use crate::bms::prompt::Prompter;
use crate::text::{
    concat, eq_ignore_ascii_case, eq_ignore_case, holds_text, is_empty_text, owned, parse_u8,
    spec_parse_unsigned, text_eq,
};
use vstd::prelude::*;

verus! {

/// The processor of the representation; it also finds whether object ids are read in base
/// 62 (`#BASE 62`), which the other processors need.
#[derive(Debug, Clone, Copy, PartialEq, Eq, Hash, Structural)]
pub struct RepresentationProcessor;

/// The line that records a header: `#NAME`, or `#NAME args` when there are arguments.
pub open spec fn command_line(name: Seq<char>, args: Seq<char>) -> Seq<char> {
    if args.len() == 0 {
        "#"@ + name
    } else {
        "#"@ + name + " "@ + args
    }
}

/// The long note mode of `#LNMODE`: 1, 2 or 3.
pub open spec fn spec_ln_mode(args: Seq<char>) -> Option<LnMode> {
    match spec_parse_unsigned(args, u8::MAX as int) {
        Some(v) => if v == 1 {
            Some(LnMode::Ln)
        } else if v == 2 {
            Some(LnMode::Cn)
        } else if v == 3 {
            Some(LnMode::Hcn)
        } else {
            None
        },
        None => None,
    }
}

/// What one header does to the representation and to whether ids are case sensitive, with
/// its outcome.
pub open spec fn header_applied(
    name: Seq<char>,
    args: Seq<char>,
    before: (BmsSourceRepresentation, bool),
    after: (BmsSourceRepresentation, bool),
    r: Result<(), ParseWarning>,
) -> bool {
    let (repr0, cs0) = before;
    let (repr1, cs1) = after;
    &&& repr1.raw_command_lines@.len() == repr0.raw_command_lines@.len() + 1
    &&& repr1.raw_command_lines@.last()@ == command_line(name, args)
    &&& forall|i: int|
        0 <= i < repr0.raw_command_lines@.len() ==> repr1.raw_command_lines@[i] == repr0.raw_command_lines@[i]
    &&& eq_ignore_case(name, "BASE"@) ==> {
        &&& (r is Ok <==> args == "62"@)
        &&& r is Ok ==> cs1
        &&& r is Err ==> r == Err::<(), ParseWarning>(ParseWarning::OutOfBase62) && cs1 == cs0
            && repr1.ln_mode == repr0.ln_mode && repr1.ln_type == repr0.ln_type
            && repr1.charset == repr0.charset
    }
    &&& !eq_ignore_case(name, "BASE"@) ==> cs1 == cs0
    &&& eq_ignore_case(name, "LNMODE"@) ==> {
        &&& (r is Ok <==> spec_ln_mode(args) is Some)
        &&& r is Ok ==> repr1.ln_mode == spec_ln_mode(args)->0
        &&& r is Err ==> (r matches Err(ParseWarning::SyntaxError(_))) && repr1.ln_mode == repr0.ln_mode
    }
    &&& !eq_ignore_case(name, "LNMODE"@) ==> repr1.ln_mode == repr0.ln_mode
    &&& eq_ignore_case(name, "LNTYPE"@) ==> r is Ok && repr1.ln_type == (if args == "2"@ {
        LnType::Mgq
    } else {
        LnType::Rdm
    })
    &&& !eq_ignore_case(name, "LNTYPE"@) ==> repr1.ln_type == repr0.ln_type
    &&& eq_ignore_case(name, "CHARSET"@) ==> r is Ok && holds_text(repr1.charset, args)
    &&& !eq_ignore_case(name, "CHARSET"@) ==> repr1.charset == repr0.charset
    &&& !eq_ignore_case(name, "BASE"@) && !eq_ignore_case(name, "LNMODE"@) ==> r is Ok
}

/// A representation with nothing recorded, and ids not case sensitive.
pub open spec fn fresh(s: (BmsSourceRepresentation, bool)) -> bool {
    &&& s.0.raw_command_lines@.len() == 0
    &&& s.0.ln_mode is Ln
    &&& s.0.ln_type is Rdm
    &&& s.0.charset is None
    &&& !s.1
}

/// What one token does, with the warnings it gives: headers only; messages and other lines
/// change nothing.
pub open spec fn token_step(
    t: Token,
    before: (BmsSourceRepresentation, bool),
    after: (BmsSourceRepresentation, bool),
    ws: Seq<ParseWarning>,
) -> bool {
    match t {
        Token::Header { name, args } => exists|r: Result<(), ParseWarning>|
            header_applied(name@, args@, before, after, r) && ws == header_warnings(r),
        _ => after == before && ws.len() == 0,
    }
}

/// The representation, the case sensitivity and the warnings of a token stream: from a fresh
/// state, each token in turn as `token_step`, the warnings placed at their tokens.
pub open spec fn processed(
    tokens: Seq<TokenWithRange>,
    o: (BmsSourceRepresentation, bool),
    ws: Seq<ParseWarningWithRange>,
) -> bool {
    exists|states: Seq<(BmsSourceRepresentation, bool)>, wss: Seq<Seq<ParseWarning>>|
        {
            &&& states.len() == tokens.len() + 1
            &&& wss.len() == tokens.len()
            &&& fresh(states[0])
            &&& states.last() == o
            &&& forall|i: int|
                0 <= i < tokens.len() ==> token_step(#[trigger] tokens[i].content, states[i], states[i + 1], wss[i])
            &&& ws == placed_warnings(tokens, wss, tokens.len() as int)
        }
}

/// The representation and warnings of a token stream, whatever the case sensitivity that
/// came with them.
pub open spec fn processed_repr(
    tokens: Seq<TokenWithRange>,
    o: BmsSourceRepresentation,
    ws: Seq<ParseWarningWithRange>,
) -> bool {
    exists|cs: bool| #[trigger] processed(tokens, (o, cs), ws)
}

impl RepresentationProcessor {
    /// A processor of the representation.
    pub fn new() -> (r: Self) {
        RepresentationProcessor
    }

    /// Applies one header: records its line; `#BASE` must be `62` and makes object ids case
    /// sensitive; `#LNMODE` takes 1 to 3; `#LNTYPE 2` is MGQ and any other argument RDM.
    pub fn on_header(
        &self,
        name: &str,
        args: &str,
        repr: &mut BmsSourceRepresentation,
        case_sensitive: &mut bool,
    ) -> (r: Result<(), ParseWarning>)
        ensures
            header_applied(name@, args@, (*old(repr), *old(case_sensitive)), (*final(repr), *final(case_sensitive)), r),
    {
        proof {
            reveal_strlit("BASE");
            reveal_strlit("LNMODE");
            reveal_strlit("LNTYPE");
            reveal_strlit("CHARSET");
        }
        let head = concat("#", name);
        let line = if is_empty_text(args) {
            head
        } else {
            let spaced = concat(head.as_str(), " ");
            concat(spaced.as_str(), args)
        };
        repr.raw_command_lines.push(line);
        if eq_ignore_ascii_case(name, "BASE") {
            if !text_eq(args, "62") {
                return Err(ParseWarning::OutOfBase62);
            }
            *case_sensitive = true;
        }
        if eq_ignore_ascii_case(name, "LNMODE") {
            assert(crate::text::upper(name@[3]) == crate::text::upper("LNMODE"@[3]));
            let mode = match parse_u8(args) {
                Some(m) => m,
                None => {
                    return Err(ParseWarning::SyntaxError(owned("expected integer between 1 and 3")));
                },
            };
            repr.ln_mode = if mode == 1 {
                LnMode::Ln
            } else if mode == 2 {
                LnMode::Cn
            } else if mode == 3 {
                LnMode::Hcn
            } else {
                return Err(ParseWarning::SyntaxError(owned("expected long note mode between 1 and 3")));
            };
        }
        if eq_ignore_ascii_case(name, "LNTYPE") {
            repr.ln_type = if text_eq(args, "2") {
                LnType::Mgq
            } else {
                LnType::Rdm
            };
        }
        if eq_ignore_ascii_case(name, "CHARSET") {
            repr.charset = Some(owned(args));
        }
        Ok(())
    }

    /// Reads the representation of `tokens` and whether object ids are case sensitive.
    pub fn read<P: Prompter>(&self, tokens: &[TokenWithRange], prompter: &P) -> (r: (
        BmsSourceRepresentation,
        bool,
        Vec<ParseWarningWithRange>,
    ))
        ensures
            processed(tokens@, (r.0, r.1), r.2@),
    {
        let mut repr = BmsSourceRepresentation::new();
        let mut case_sensitive = false;
        let mut warnings: Vec<ParseWarningWithRange> = Vec::new();
        let ghost mut states: Seq<(BmsSourceRepresentation, bool)> = seq![(repr, case_sensitive)];
        let ghost mut wss: Seq<Seq<ParseWarning>> = Seq::empty();
        let mut i: usize = 0;
        while i < tokens.len()
            invariant
                i <= tokens@.len(),
                states.len() == i + 1,
                wss.len() == i,
                fresh(states[0]),
                states.last() == (repr, case_sensitive),
                forall|j: int|
                    0 <= j < i ==> token_step(#[trigger] tokens@[j].content, states[j], states[j + 1], wss[j]),
                warnings@ == placed_warnings(tokens@, wss, i as int),
            decreases tokens@.len() - i,
        {
            let ghost before = (repr, case_sensitive);
            let ws: Vec<ParseWarning> = match &tokens[i].content {
                Token::Header { name, args } => {
                    let r = self.on_header(name.as_str(), args.as_str(), &mut repr, &mut case_sensitive);
                    let ws = match r {
                        Ok(()) => Vec::new(),
                        Err(w) => vec![w],
                    };
                    assert(ws@ =~= header_warnings(r));
                    ws
                },
                _ => Vec::new(),
            };
            assert(token_step(tokens@[i as int].content, before, (repr, case_sensitive), ws@));
            let g = add_placed(&mut warnings, ws, tokens[i].range, Ghost(tokens@), Ghost(wss), Ghost(i as int));
            proof {
                wss = g@;
                states = states.push((repr, case_sensitive));
            }
            i += 1;
        }
        (repr, case_sensitive, warnings)
    }
}

impl<P: Prompter> TokenProcessor<P> for RepresentationProcessor {
    type Output = BmsSourceRepresentation;

    open spec fn outcome(
        &self,
        tokens: Seq<TokenWithRange>,
        prompter: P,
        r: Result<(BmsSourceRepresentation, Vec<ParseWarningWithRange>), ParseErrorWithRange>,
    ) -> bool {
        r matches Ok((o, ws)) && processed_repr(tokens, o, ws@)
    }

    fn process(&self, tokens: &[TokenWithRange], prompter: &P) -> (r: Result<
        (BmsSourceRepresentation, Vec<ParseWarningWithRange>),
        ParseErrorWithRange,
    >)
        ensures
            r matches Ok((o, ws)) && processed_repr(tokens@, o, ws@),
    {
        let (repr, case_sensitive, warnings) = self.read(tokens, prompter);
        assert(processed(tokens@, (repr, case_sensitive), warnings@));
        assert(processed_repr(tokens@, repr, warnings@));
        Ok((repr, warnings))
    }
}

} // verus!
