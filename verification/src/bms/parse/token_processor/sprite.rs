//! `#BANNER`, `#BACKBMP`, `#STAGEFILE`, `#CHARFILE` and `#EXTCHR`: images around the play
//! field.
use crate::bms::error::{ParseErrorWithRange, ParseWarning, ParseWarningWithRange};
use crate::bms::lex::{Token, TokenWithRange};
use crate::bms::objects::{ExtChrEvent, Sprites};
use crate::bms::parse::token_processor::{add_placed, header_warnings, placed_warnings};
use crate::bms::parse::TokenProcessor;
use crate::bms::prompt::Prompter;
use crate::text::{
    all_hex, chars_of, eq_ignore_ascii_case, eq_ignore_case, owned, parse_hex_i32, parse_i32,
    spec_parse_hex_i32, spec_parse_signed, split_words, words, hex_digit_of, holds_text,
    is_empty_text,
};
use vstd::prelude::*;

verus! {

/// The processor of sprite commands.
#[derive(Debug, Clone, Copy, PartialEq, Eq, Hash, Structural)]
pub struct SpriteProcessor;

/// `i32::from_str`.
pub open spec fn spec_i32(s: Seq<char>) -> Option<i32> {
    match spec_parse_signed(s, i32::MAX as int) {
        Some(v) => Some(v as i32),
        None => None,
    }
}

/// The image number of `#EXTCHR`: `-n` for a decimal `n` (the number negated), `0x`
/// followed by hexadecimal digits, a run of hexadecimal digits (read in hexadecimal, else in
/// decimal), or a decimal number.
pub open spec fn spec_bmp_num(s: Seq<char>) -> Option<i32> {
    if s.len() > 0 && s[0] == '-' {
        match spec_i32(s.drop_first()) {
            Some(v) => if v == i32::MIN {
                None
            } else {
                Some((-v) as i32)
            },
            None => None,
        }
    } else if s.len() >= 2 && s[0] == '0' && s[1] == 'x' {
        match spec_parse_hex_i32(s.skip(2)) {
            Some(v) => Some(v as i32),
            None => spec_i32(s),
        }
    } else if all_hex(s) {
        match spec_parse_hex_i32(s) {
            Some(v) => Some(v as i32),
            None => spec_i32(s),
        }
    } else {
        spec_i32(s)
    }
}

/// The value of an optional parameter, when it is there and a number.
pub open spec fn opt_param(ps: Seq<Seq<char>>, i: int) -> Option<i32> {
    if i < ps.len() {
        spec_i32(ps[i])
    } else {
        None
    }
}

/// The `#EXTCHR` event of the parameters, if they are numbers.
pub open spec fn spec_extchr(ps: Seq<Seq<char>>) -> Option<ExtChrEvent> {
    match (spec_i32(ps[0]), spec_bmp_num(ps[1]), spec_i32(ps[2]), spec_i32(ps[3]), spec_i32(ps[4]), spec_i32(ps[5])) {
        (Some(sprite_num), Some(bmp_num), Some(start_x), Some(start_y), Some(end_x), Some(end_y)) => Some(
            ExtChrEvent {
                sprite_num,
                bmp_num,
                start_x,
                start_y,
                end_x,
                end_y,
                offset_x: opt_param(ps, 6),
                offset_y: opt_param(ps, 7),
                abs_x: opt_param(ps, 8),
                abs_y: opt_param(ps, 9),
            },
        ),
        _ => None,
    }
}

/// Whether every character is a hexadecimal digit.
fn all_hex_digits(cs: &Vec<char>) -> (r: bool)
    ensures
        r == all_hex(cs@),
{
    let mut i: usize = 0;
    while i < cs.len()
        invariant
            i <= cs@.len(),
            forall|j: int| 0 <= j < i ==> #[trigger] hex_digit_of(cs@[j]) is Some,
        decreases cs@.len() - i,
    {
        let c = cs[i];
        if !(('0' <= c && c <= '9') || ('A' <= c && c <= 'F') || ('a' <= c && c <= 'f')) {
            assert(hex_digit_of(cs@[i as int]) is None);
            return false;
        }
        i += 1;
    }
    true
}

/// Reads the image number of `#EXTCHR`.
fn parse_bmp_num(s: &str) -> (r: Option<i32>)
    ensures
        r == spec_bmp_num(s@),
{
    let cs = chars_of(s);
    if cs.len() > 0 && cs[0] == '-' {
        let rest = crate::text::string_of(&crate::text::slice_skip(cs.as_slice(), 1));
        assert(rest@ =~= s@.drop_first());
        match parse_i32(rest.as_str()) {
            Some(v) => if v == i32::MIN {
                None
            } else {
                Some(-v)
            },
            None => None,
        }
    } else if cs.len() >= 2 && cs[0] == '0' && cs[1] == 'x' {
        let rest = crate::text::string_of(&crate::text::slice_skip(cs.as_slice(), 2));
        assert(rest@ =~= s@.skip(2));
        match parse_hex_i32(rest.as_str()) {
            Some(v) => Some(v),
            None => parse_i32(s),
        }
    } else if all_hex_digits(&cs) {
        match parse_hex_i32(s) {
            Some(v) => Some(v),
            None => parse_i32(s),
        }
    } else {
        parse_i32(s)
    }
}

/// Reads an optional parameter.
fn parse_opt(ps: &Vec<String>, i: usize) -> (r: Option<i32>)
    ensures
        r == opt_param(ps@.map_values(|w: String| w@), i as int),
{
    if i < ps.len() {
        parse_i32(ps[i].as_str())
    } else {
        None
    }
}

/// What one header does to the sprites, with its outcome.
pub open spec fn header_applied(
    name: Seq<char>,
    args: Seq<char>,
    before: Sprites,
    after: Sprites,
    r: Result<(), ParseWarning>,
) -> bool {
    &&& r matches Err(w) ==> w is SyntaxError
    &&& eq_ignore_case(name, "BANNER"@) ==> (args.len() == 0 <==> r is Err) && (r is Ok
        ==> holds_text(after.banner, args))
    &&& eq_ignore_case(name, "BACKBMP"@) ==> (args.len() == 0 <==> r is Err) && (r is Ok
        ==> holds_text(after.back_bmp, args))
    &&& eq_ignore_case(name, "STAGEFILE"@) ==> (args.len() == 0 <==> r is Err) && (r is Ok
        ==> holds_text(after.stage_file, args))
    &&& eq_ignore_case(name, "CHARFILE"@) ==> (args.len() == 0 <==> r is Err) && (r is Ok
        ==> holds_text(after.char_file, args))
    &&& eq_ignore_case(name, "EXTCHR"@) ==> {
        let ps = words(args);
        &&& (r is Ok <==> 6 <= ps.len() <= 10 && spec_extchr(ps) is Some)
        &&& (r is Ok ==> after.extchr_events@ == before.extchr_events@.push(
            spec_extchr(ps)->0,
        ))
        &&& (r is Err ==> after.extchr_events@ == before.extchr_events@)
    }
    &&& !eq_ignore_case(name, "BANNER"@) && !eq_ignore_case(name, "BACKBMP"@)
        && !eq_ignore_case(name, "STAGEFILE"@) && !eq_ignore_case(name, "CHARFILE"@)
        && !eq_ignore_case(name, "EXTCHR"@) ==> r is Ok && after == before
}

/// Sprites with nothing in them.
pub open spec fn fresh(o: Sprites) -> bool {
    &&& o.banner is None
    &&& o.back_bmp is None
    &&& o.stage_file is None
    &&& o.char_file is None
    &&& o.extchr_events@.len() == 0
}

/// What one token does, with the warnings it gives.
pub open spec fn token_step<P: Prompter>(
    t: Token,
    prompter: P,
    before: Sprites,
    after: Sprites,
    ws: Seq<ParseWarning>,
) -> bool {
    match t {
        Token::Header { name, args } => exists|r: Result<(), ParseWarning>|
            header_applied(name@, args@, before, after, r) && ws == header_warnings(r),
        Token::Message { track, channel, message } => after == before && ws.len() == 0,
        Token::NotACommand(_) => after == before && ws.len() == 0,
    }
}

/// The sprites and warnings of a token stream: from fresh ones, each token in turn as
/// `token_step`, the warnings placed at their tokens.
pub open spec fn processed<P: Prompter>(
    tokens: Seq<TokenWithRange>,
    prompter: P,
    o: Sprites,
    ws: Seq<ParseWarningWithRange>,
) -> bool {
    exists|states: Seq<Sprites>, wss: Seq<Seq<ParseWarning>>|
        {
            &&& states.len() == tokens.len() + 1
            &&& wss.len() == tokens.len()
            &&& fresh(states[0])
            &&& states.last() == o
            &&& forall|i: int|
                0 <= i < tokens.len() ==> token_step(#[trigger] tokens[i].content, prompter, states[i], states[i + 1], wss[i])
            &&& ws == placed_warnings(tokens, wss, tokens.len() as int)
        }
}

impl SpriteProcessor {
    /// Applies one header: the four file commands (each needs a file name) and `#EXTCHR`
    /// (six to ten numbers: sprite, image, source rectangle, then optional offsets and
    /// position).
    pub fn on_header(name: &str, args: &str, sprites: &mut Sprites) -> (r: Result<(), ParseWarning>)
        ensures
            header_applied(name@, args@, *old(sprites), *final(sprites), r),
    {
        proof {
            reveal_strlit("BANNER");
            reveal_strlit("BACKBMP");
            reveal_strlit("STAGEFILE");
            reveal_strlit("CHARFILE");
            reveal_strlit("EXTCHR");
        }
        if eq_ignore_ascii_case(name, "BANNER") {
            if is_empty_text(args) {
                return Err(ParseWarning::SyntaxError(owned("expected banner filename")));
            }
            sprites.banner = Some(owned(args));
        }
        if eq_ignore_ascii_case(name, "BACKBMP") {
            if is_empty_text(args) {
                return Err(ParseWarning::SyntaxError(owned("expected backbmp filename")));
            }
            sprites.back_bmp = Some(owned(args));
        }
        if eq_ignore_ascii_case(name, "STAGEFILE") {
            if is_empty_text(args) {
                return Err(ParseWarning::SyntaxError(owned("expected splashscreen image filename")));
            }
            sprites.stage_file = Some(owned(args));
        }
        if eq_ignore_ascii_case(name, "EXTCHR") {
            assert(crate::text::upper(name@[0]) == crate::text::upper("EXTCHR"@[0]));
            let params = split_words(args);
            let ghost ps = params@.map_values(|w: String| w@);
            if !(6 <= params.len() && params.len() <= 10) {
                return Err(ParseWarning::SyntaxError(owned("params length must be between 6 and 10")));
            }
            assert(ps[0] == params@[0]@ && ps[1] == params@[1]@ && ps[2] == params@[2]@);
            assert(ps[3] == params@[3]@ && ps[4] == params@[4]@ && ps[5] == params@[5]@);
            let sprite_num = match parse_i32(params[0].as_str()) {
                Some(v) => v,
                None => {
                    return Err(ParseWarning::SyntaxError(owned("expected sprite_num i32")));
                },
            };
            let bmp_num = match parse_bmp_num(params[1].as_str()) {
                Some(v) => v,
                None => {
                    return Err(ParseWarning::SyntaxError(owned("expected bmp_num is i32 in hexadecimal")));
                },
            };
            let start_x = match parse_i32(params[2].as_str()) {
                Some(v) => v,
                None => {
                    return Err(ParseWarning::SyntaxError(owned("expected start_x is i32")));
                },
            };
            let start_y = match parse_i32(params[3].as_str()) {
                Some(v) => v,
                None => {
                    return Err(ParseWarning::SyntaxError(owned("expected start_y is i32")));
                },
            };
            let end_x = match parse_i32(params[4].as_str()) {
                Some(v) => v,
                None => {
                    return Err(ParseWarning::SyntaxError(owned("expected end_x is i32")));
                },
            };
            let end_y = match parse_i32(params[5].as_str()) {
                Some(v) => v,
                None => {
                    return Err(ParseWarning::SyntaxError(owned("expected end_y is i32")));
                },
            };
            let ev = ExtChrEvent {
                sprite_num,
                bmp_num,
                start_x,
                start_y,
                end_x,
                end_y,
                offset_x: parse_opt(&params, 6),
                offset_y: parse_opt(&params, 7),
                abs_x: parse_opt(&params, 8),
                abs_y: parse_opt(&params, 9),
            };
            sprites.extchr_events.push(ev);
        }
        if eq_ignore_ascii_case(name, "CHARFILE") {
            if is_empty_text(args) {
                return Err(ParseWarning::SyntaxError(owned("expected character filename")));
            }
            sprites.char_file = Some(owned(args));
        }
        Ok(())
    }
}

impl<P: Prompter> TokenProcessor<P> for SpriteProcessor {
    type Output = Sprites;

    open spec fn outcome(
        &self,
        tokens: Seq<TokenWithRange>,
        prompter: P,
        r: Result<(Sprites, Vec<ParseWarningWithRange>), ParseErrorWithRange>,
    ) -> bool {
        r matches Ok((o, ws)) && processed(tokens, prompter, o, ws@)
    }

    fn process(&self, tokens: &[TokenWithRange], prompter: &P) -> (r: Result<
        (Sprites, Vec<ParseWarningWithRange>),
        ParseErrorWithRange,
    >)
        ensures
            r matches Ok((o, ws)) && processed(tokens@, *prompter, o, ws@),
    {
        let mut sprites = Sprites::new();
        let mut warnings: Vec<ParseWarningWithRange> = Vec::new();
        let ghost mut states: Seq<Sprites> = seq![sprites];
        let ghost mut wss: Seq<Seq<ParseWarning>> = Seq::empty();
        let mut i: usize = 0;
        while i < tokens.len()
            invariant
                i <= tokens@.len(),
                states.len() == i + 1,
                wss.len() == i,
                fresh(states[0]),
                states.last() == sprites,
                forall|j: int|
                    0 <= j < i ==> token_step(#[trigger] tokens@[j].content, *prompter, states[j], states[j + 1], wss[j]),
                warnings@ == placed_warnings(tokens@, wss, i as int),
            decreases tokens@.len() - i,
        {
            let ghost before = sprites;
            let ws: Vec<ParseWarning> = match &tokens[i].content {
                Token::Header { name, args } => {
                    let r = Self::on_header(name.as_str(), args.as_str(), &mut sprites);
                    let ws = match r {
                        Ok(()) => Vec::new(),
                        Err(w) => vec![w],
                    };
                    assert(ws@ =~= header_warnings(r));
                    ws
                },
                Token::Message { .. } => Vec::new(),
                Token::NotACommand(_) => Vec::new(),
            };
            assert(token_step(tokens@[i as int].content, *prompter, before, sprites, ws@));
            let g = add_placed(&mut warnings, ws, tokens[i].range, Ghost(tokens@), Ghost(wss), Ghost(i as int));
            proof {
                wss = g@;
                states = states.push(sprites);
            }
            i += 1;
        }
        Ok((sprites, warnings))
    }
}

} // verus!
