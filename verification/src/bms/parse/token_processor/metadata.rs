//! `#PLAYER`, `#DIFFICULTY`, `#PLAYLEVEL`, `#EMAIL`, `#URL`, `#PATH_WAV`, `#DIVIDEPROP`,
//! `#OCT/FP`, and the comment lines `%EMAIL` and `%URL`: information about the score file.
use crate::bms::command::PlayerMode;
use crate::bms::error::{ParseErrorWithRange, ParseWarning, ParseWarningWithRange};
use crate::bms::lex::{Token, TokenWithRange};
use crate::bms::objects::Metadata;
use crate::bms::parse::token_processor::{add_placed, header_warnings, placed_warnings};
use crate::bms::parse::TokenProcessor;
use crate::bms::prompt::Prompter;
use crate::text::{
    eq_ignore_ascii_case, eq_ignore_case, holds_text, is_empty_text, owned, parse_u8,
    spec_parse_unsigned, starts_with, strip_all, strip_all_prefix, text_starts_with, trim, trimmed,
};
use vstd::prelude::*;

verus! {

/// The processor of file information.
#[derive(Debug, Clone, Copy, PartialEq, Eq, Hash, Structural)]
pub struct MetadataProcessor;

/// `u8::from_str`.
pub open spec fn spec_u8(s: Seq<char>) -> Option<u8> {
    match spec_parse_unsigned(s, u8::MAX as int) {
        Some(v) => Some(v as u8),
        None => None,
    }
}

/// What one header does to the metadata, with its outcome.
pub open spec fn header_applied(
    name: Seq<char>,
    args: Seq<char>,
    before: Metadata,
    after: Metadata,
    r: Result<(), ParseWarning>,
) -> bool {
    &&& eq_ignore_case(name, "DIFFICULTY"@) ==> (r is Ok <==> spec_u8(args) is Some) && (r is Ok
        ==> after.difficulty == spec_u8(args))
    &&& eq_ignore_case(name, "PLAYLEVEL"@) ==> (r is Ok <==> spec_u8(args) is Some) && (r is Ok
        ==> after.play_level == spec_u8(args))
    &&& eq_ignore_case(name, "EMAIL"@) ==> r is Ok && holds_text(after.email, args)
    &&& eq_ignore_case(name, "URL"@) ==> r is Ok && holds_text(after.url, args)
    &&& eq_ignore_case(name, "PATH_WAV"@) ==> (r is Ok <==> args.len() > 0) && (r is Ok
        ==> holds_text(after.wav_path_root, args))
    &&& eq_ignore_case(name, "DIVIDEPROP"@) ==> r is Ok && holds_text(
        after.divide_prop,
        args,
    )
    &&& eq_ignore_case(name, "OCT/FP"@) ==> r is Ok && after.is_octave
    &&& eq_ignore_case(name, "PLAYER"@) ==> (r is Ok ==> after.player is Some)
    &&& r matches Err(w) ==> w is SyntaxError
}

/// What one comment line does to the metadata, with its outcome.
pub open spec fn comment_applied(line: Seq<char>, before: Metadata, after: Metadata, r: Result<(), ParseWarning>) -> bool {
    &&& r is Ok
    &&& starts_with(trimmed(line), "%EMAIL"@) ==> holds_text(
        after.email,
        trimmed(strip_all(trimmed(line), "%EMAIL"@)),
    )
    &&& !starts_with(trimmed(line), "%EMAIL"@) ==> after.email == before.email
    &&& starts_with(trimmed(line), "%URL"@) ==> holds_text(
        after.url,
        trimmed(strip_all(trimmed(line), "%URL"@)),
    )
    &&& !starts_with(trimmed(line), "%URL"@) ==> after.url == before.url
}

/// Metadata with nothing in them.
pub open spec fn fresh(o: Metadata) -> bool {
    &&& o.player is None
    &&& o.difficulty is None
    &&& o.play_level is None
    &&& o.email is None
    &&& o.url is None
    &&& o.wav_path_root is None
    &&& o.divide_prop is None
    &&& !o.is_octave
}

/// What one token does, with the warnings it gives.
pub open spec fn token_step<P: Prompter>(
    t: Token,
    prompter: P,
    before: Metadata,
    after: Metadata,
    ws: Seq<ParseWarning>,
) -> bool {
    match t {
        Token::Header { name, args } => exists|r: Result<(), ParseWarning>|
            header_applied(name@, args@, before, after, r) && ws == header_warnings(r),
        Token::Message { track, channel, message } => after == before && ws.len() == 0,
        Token::NotACommand(line) => exists|r: Result<(), ParseWarning>|
            comment_applied(line@, before, after, r) && ws == header_warnings(r),
    }
}

/// The metadata and warnings of a token stream: from fresh ones, each token in turn as
/// `token_step`, the warnings placed at their tokens.
pub open spec fn processed<P: Prompter>(
    tokens: Seq<TokenWithRange>,
    prompter: P,
    o: Metadata,
    ws: Seq<ParseWarningWithRange>,
) -> bool {
    exists|states: Seq<Metadata>, wss: Seq<Seq<ParseWarning>>|
        {
            &&& states.len() == tokens.len() + 1
            &&& wss.len() == tokens.len()
            &&& fresh(states[0])
            &&& states.last() == o
            &&& forall|i: int|
                0 <= i < tokens.len() ==> token_step(#[trigger] tokens[i].content, prompter, states[i], states[i + 1], wss[i])
            &&& ws == placed_warnings(tokens, wss, tokens.len() as int)
        }
}

impl MetadataProcessor {
    /// Applies one header.
    pub fn on_header(&self, name: &str, args: &str, metadata: &mut Metadata) -> (r: Result<(), ParseWarning>)
        ensures
            header_applied(name@, args@, *old(metadata), *final(metadata), r),
    {
        proof {
            reveal_strlit("PLAYER");
            reveal_strlit("DIFFICULTY");
            reveal_strlit("PLAYLEVEL");
            reveal_strlit("EMAIL");
            reveal_strlit("URL");
            reveal_strlit("PATH_WAV");
            reveal_strlit("DIVIDEPROP");
            reveal_strlit("OCT/FP");
        }
        if eq_ignore_ascii_case(name, "PLAYER") {
            assert(crate::text::upper(name@[0]) == crate::text::upper("PLAYER"@[0]));
            metadata.player = Some(PlayerMode::from_str(args)?);
        }
        if eq_ignore_ascii_case(name, "DIFFICULTY") {
            assert(crate::text::upper(name@[2]) == crate::text::upper("DIFFICULTY"@[2]));
            match parse_u8(args) {
                Some(v) => metadata.difficulty = Some(v),
                None => {
                    return Err(ParseWarning::SyntaxError(owned("expected integer")));
                },
            }
        }
        if eq_ignore_ascii_case(name, "PLAYLEVEL") {
            match parse_u8(args) {
                Some(v) => metadata.play_level = Some(v),
                None => {
                    return Err(ParseWarning::SyntaxError(owned("expected integer")));
                },
            }
        }
        if eq_ignore_ascii_case(name, "EMAIL") {
            metadata.email = Some(owned(args));
        }
        if eq_ignore_ascii_case(name, "URL") {
            metadata.url = Some(owned(args));
        }
        if eq_ignore_ascii_case(name, "PATH_WAV") {
            if is_empty_text(args) {
                return Err(ParseWarning::SyntaxError(owned("expected wav root path")));
            }
            metadata.wav_path_root = Some(owned(args));
        }
        if eq_ignore_ascii_case(name, "DIVIDEPROP") {
            metadata.divide_prop = Some(owned(args));
        }
        if eq_ignore_ascii_case(name, "OCT/FP") {
            metadata.is_octave = true;
        }
        Ok(())
    }

    /// Applies a comment line: `%EMAIL` and `%URL` set the address after them, trimmed.
    pub fn on_comment(&self, line: &str, metadata: &mut Metadata) -> (r: Result<(), ParseWarning>)
        ensures
            comment_applied(line@, *old(metadata), *final(metadata), r),
    {
        let t = trim(line);
        if text_starts_with(t.as_str(), "%EMAIL") {
            let rest = strip_all_prefix(t.as_str(), "%EMAIL");
            metadata.email = Some(trim(rest.as_str()));
        }
        if text_starts_with(t.as_str(), "%URL") {
            let rest = strip_all_prefix(t.as_str(), "%URL");
            metadata.url = Some(trim(rest.as_str()));
        }
        Ok(())
    }
}

impl<P: Prompter> TokenProcessor<P> for MetadataProcessor {
    type Output = Metadata;

    open spec fn outcome(
        &self,
        tokens: Seq<TokenWithRange>,
        prompter: P,
        r: Result<(Metadata, Vec<ParseWarningWithRange>), ParseErrorWithRange>,
    ) -> bool {
        r matches Ok((o, ws)) && processed(tokens, prompter, o, ws@)
    }

    fn process(&self, tokens: &[TokenWithRange], prompter: &P) -> (r: Result<
        (Metadata, Vec<ParseWarningWithRange>),
        ParseErrorWithRange,
    >)
        ensures
            r matches Ok((o, ws)) && processed(tokens@, *prompter, o, ws@),
    {
        let mut metadata = Metadata::new();
        let mut warnings: Vec<ParseWarningWithRange> = Vec::new();
        let ghost mut states: Seq<Metadata> = seq![metadata];
        let ghost mut wss: Seq<Seq<ParseWarning>> = Seq::empty();
        let mut i: usize = 0;
        while i < tokens.len()
            invariant
                i <= tokens@.len(),
                states.len() == i + 1,
                wss.len() == i,
                fresh(states[0]),
                states.last() == metadata,
                forall|j: int|
                    0 <= j < i ==> token_step(#[trigger] tokens@[j].content, *prompter, states[j], states[j + 1], wss[j]),
                warnings@ == placed_warnings(tokens@, wss, i as int),
            decreases tokens@.len() - i,
        {
            let ghost before = metadata;
            let ws: Vec<ParseWarning> = match &tokens[i].content {
                Token::Header { name, args } => {
                    let r = self.on_header(name.as_str(), args.as_str(), &mut metadata);
                    let ws = match r {
                        Ok(()) => Vec::new(),
                        Err(w) => vec![w],
                    };
                    assert(ws@ =~= header_warnings(r));
                    ws
                },
                Token::Message { .. } => Vec::new(),
                Token::NotACommand(line) => {
                    let r = self.on_comment(line.as_str(), &mut metadata);
                    let ws = match r {
                        Ok(()) => Vec::new(),
                        Err(w) => vec![w],
                    };
                    assert(ws@ =~= header_warnings(r));
                    ws
                },
            };
            assert(token_step(tokens@[i as int].content, *prompter, before, metadata, ws@));
            let g = add_placed(&mut warnings, ws, tokens[i].range, Ghost(tokens@), Ghost(wss), Ghost(i as int));
            proof {
                wss = g@;
                states = states.push(metadata);
            }
            i += 1;
        }
        Ok((metadata, warnings))
    }
}

} // verus!
