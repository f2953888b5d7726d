//! `#GENRE`, `#TITLE`, `#SUBTITLE`, `#ARTIST`, `#SUBARTIST`, `#COMMENT`, `#MAKER` and
//! `#PREVIEW`: information about the music.
use crate::bms::error::{ParseErrorWithRange, ParseWarning, ParseWarningWithRange};
use crate::bms::lex::{Token, TokenWithRange};
use crate::bms::objects::MusicInfo;
use crate::bms::parse::token_processor::{add_placed, header_warnings, placed_warnings};
use crate::bms::parse::TokenProcessor;
use crate::bms::prompt::Prompter;
use crate::text::{eq_ignore_ascii_case, eq_ignore_case, holds_text, owned};
use vstd::prelude::*;

verus! {

/// The processor of music information.
#[derive(Debug, Clone, Copy, PartialEq, Eq, Hash, Structural)]
pub struct MusicInfoProcessor;

/// The comment lines after adding `c`.
pub open spec fn comments_after(old: Option<Vec<String>>, c: Seq<char>) -> Option<Seq<Seq<char>>> {
    match old {
        Some(v) => Some(v@.map_values(|s: String| s@).push(c)),
        None => Some(seq![c]),
    }
}

/// What one header does to the music information, with its outcome.
pub open spec fn header_applied(
    name: Seq<char>,
    args: Seq<char>,
    before: MusicInfo,
    after: MusicInfo,
    r: Result<(), ParseWarning>,
) -> bool {
    &&& r is Ok
    &&& eq_ignore_case(name, "GENRE"@) ==> holds_text(after.genre, args)
    &&& eq_ignore_case(name, "TITLE"@) ==> holds_text(after.title, args)
    &&& eq_ignore_case(name, "SUBTITLE"@) ==> holds_text(after.subtitle, args)
    &&& eq_ignore_case(name, "ARTIST"@) ==> holds_text(after.artist, args)
    &&& eq_ignore_case(name, "SUBARTIST"@) ==> holds_text(after.sub_artist, args)
    &&& eq_ignore_case(name, "MAKER"@) ==> holds_text(after.maker, args)
    &&& eq_ignore_case(name, "PREVIEW"@) ==> holds_text(after.preview_music, args)
    &&& eq_ignore_case(name, "COMMENT"@) ==> match after.comment {
        Some(v) => Some(v@.map_values(|s: String| s@)) == comments_after(before.comment, args),
        None => false,
    }
    &&& !eq_ignore_case(name, "GENRE"@) && !eq_ignore_case(name, "TITLE"@)
        && !eq_ignore_case(name, "SUBTITLE"@) && !eq_ignore_case(name, "ARTIST"@)
        && !eq_ignore_case(name, "SUBARTIST"@) && !eq_ignore_case(name, "COMMENT"@)
        && !eq_ignore_case(name, "MAKER"@) && !eq_ignore_case(name, "PREVIEW"@)
        ==> after == before
}

/// Music information with nothing in them.
pub open spec fn fresh(o: MusicInfo) -> bool {
    &&& o.genre is None
    &&& o.title is None
    &&& o.subtitle is None
    &&& o.artist is None
    &&& o.sub_artist is None
    &&& o.comment is None
    &&& o.maker is None
    &&& o.preview_music is None
}

/// What one token does, with the warnings it gives.
pub open spec fn token_step<P: Prompter>(
    t: Token,
    prompter: P,
    before: MusicInfo,
    after: MusicInfo,
    ws: Seq<ParseWarning>,
) -> bool {
    match t {
        Token::Header { name, args } => exists|r: Result<(), ParseWarning>|
            header_applied(name@, args@, before, after, r) && ws == header_warnings(r),
        Token::Message { track, channel, message } => after == before && ws.len() == 0,
        Token::NotACommand(_) => after == before && ws.len() == 0,
    }
}

/// The music information and warnings of a token stream: from fresh ones, each token in turn as
/// `token_step`, the warnings placed at their tokens.
pub open spec fn processed<P: Prompter>(
    tokens: Seq<TokenWithRange>,
    prompter: P,
    o: MusicInfo,
    ws: Seq<ParseWarningWithRange>,
) -> bool {
    exists|states: Seq<MusicInfo>, wss: Seq<Seq<ParseWarning>>|
        {
            &&& states.len() == tokens.len() + 1
            &&& wss.len() == tokens.len()
            &&& fresh(states[0])
            &&& states.last() == o
            &&& forall|i: int|
                0 <= i < tokens.len() ==> token_step(#[trigger] tokens[i].content, prompter, states[i], states[i + 1], wss[i])
            &&& ws == placed_warnings(tokens, wss, tokens.len() as int)
        }
}

impl MusicInfoProcessor {
    /// Applies one header: each command sets its field to the arguments; `#COMMENT` adds a
    /// line.
    pub fn on_header(self, name: &str, args: &str, music_info: &mut MusicInfo) -> (r: Result<(), ParseWarning>)
        ensures
            header_applied(name@, args@, *old(music_info), *final(music_info), r),
    {
        if eq_ignore_ascii_case(name, "GENRE") {
            music_info.genre = Some(owned(args));
        }
        if eq_ignore_ascii_case(name, "TITLE") {
            music_info.title = Some(owned(args));
        }
        if eq_ignore_ascii_case(name, "SUBTITLE") {
            music_info.subtitle = Some(owned(args));
        }
        if eq_ignore_ascii_case(name, "ARTIST") {
            music_info.artist = Some(owned(args));
        }
        if eq_ignore_ascii_case(name, "SUBARTIST") {
            music_info.sub_artist = Some(owned(args));
        }
        if eq_ignore_ascii_case(name, "COMMENT") {
            let mut lines = match music_info.comment.take() {
                Some(v) => v,
                None => Vec::new(),
            };
            lines.push(owned(args));
            music_info.comment = Some(lines);
            assert(music_info.comment->0@.map_values(|s: String| s@) =~= comments_after(old(music_info).comment, args@)->0);
        }
        if eq_ignore_ascii_case(name, "MAKER") {
            music_info.maker = Some(owned(args));
        }
        if eq_ignore_ascii_case(name, "PREVIEW") {
            music_info.preview_music = Some(owned(args));
        }
        proof {
            reveal_strlit("GENRE");
            reveal_strlit("TITLE");
            reveal_strlit("SUBTITLE");
            reveal_strlit("ARTIST");
            reveal_strlit("SUBARTIST");
            reveal_strlit("COMMENT");
            reveal_strlit("MAKER");
            reveal_strlit("PREVIEW");
        }
        Ok(())
    }
}

impl<P: Prompter> TokenProcessor<P> for MusicInfoProcessor {
    type Output = MusicInfo;

    open spec fn outcome(
        &self,
        tokens: Seq<TokenWithRange>,
        prompter: P,
        r: Result<(MusicInfo, Vec<ParseWarningWithRange>), ParseErrorWithRange>,
    ) -> bool {
        r matches Ok((o, ws)) && processed(tokens, prompter, o, ws@)
    }

    fn process(&self, tokens: &[TokenWithRange], prompter: &P) -> (r: Result<
        (MusicInfo, Vec<ParseWarningWithRange>),
        ParseErrorWithRange,
    >)
        ensures
            r matches Ok((o, ws)) && processed(tokens@, *prompter, o, ws@),
    {
        let mut music_info = MusicInfo::new();
        let mut warnings: Vec<ParseWarningWithRange> = Vec::new();
        let ghost mut states: Seq<MusicInfo> = seq![music_info];
        let ghost mut wss: Seq<Seq<ParseWarning>> = Seq::empty();
        let mut i: usize = 0;
        while i < tokens.len()
            invariant
                i <= tokens@.len(),
                states.len() == i + 1,
                wss.len() == i,
                fresh(states[0]),
                states.last() == music_info,
                forall|j: int|
                    0 <= j < i ==> token_step(#[trigger] tokens@[j].content, *prompter, states[j], states[j + 1], wss[j]),
                warnings@ == placed_warnings(tokens@, wss, i as int),
            decreases tokens@.len() - i,
        {
            let ghost before = music_info;
            let ws: Vec<ParseWarning> = match &tokens[i].content {
                Token::Header { name, args } => {
                    let r = (*self).on_header(name.as_str(), args.as_str(), &mut music_info);
                    let ws = match r {
                        Ok(()) => Vec::new(),
                        Err(w) => vec![w],
                    };
                    assert(ws@ =~= header_warnings(r));
                    ws
                },
                Token::Message { .. } => Vec::new(),
                Token::NotACommand(_) => Vec::new(),
            };
            assert(token_step(tokens@[i as int].content, *prompter, before, music_info, ws@));
            let g = add_placed(&mut warnings, ws, tokens[i].range, Ghost(tokens@), Ghost(wss), Ghost(i as int));
            proof {
                wss = g@;
                states = states.push(music_info);
            }
            i += 1;
        }
        Ok((music_info, warnings))
    }
}

} // verus!
