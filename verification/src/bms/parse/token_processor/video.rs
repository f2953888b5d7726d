//! `#VIDEOFILE`, `#MOVIE`, `#VIDEOF/S`, `#VIDEOCOLORS`, `#VIDEODLY`, `#SEEKxx` and the video
//! seek channel `#xxx05:`.
use crate::bms::command::{spec_obj_id_of, spec_obj_id_text, Channel, ObjId, ObjTime, StringValue, Track};
use crate::bms::error::{ParseErrorWithRange, ParseWarning, ParseWarningWithRange};
use crate::bms::lex::{Token, TokenWithRange};
use crate::bms::model::spec_defined;
use crate::bms::objects::{SeekObj, Video};
use crate::bms::parse::token_processor::{
    add_placed, header_warnings, message_warnings, placed_warnings, push_all, push_defined, TimedObj};
use crate::bms::parse::{obj_pairs, parse_obj_ids, TokenProcessor};
use crate::bms::prompt::{DefDuplication, Prompter};
use crate::number::{finite_number_ok, finite_number_text};
use crate::text::{
    eq_ignore_ascii_case, eq_ignore_case, holds_text, is_empty_text, owned, parse_u8,
    spec_parse_unsigned, spec_strip_prefix_ignore_case, strip_prefix_ignore_case,
};
use vstd::prelude::*;

verus! {

impl TimedObj<StringValue> for SeekObj {
    open spec fn spec_make(time: ObjTime, channel: Channel, v: StringValue) -> Self {
        SeekObj { time, position: v }
    }

    fn make(time: ObjTime, channel: Channel, v: StringValue) -> (r: Self) {
        SeekObj { time, position: v }
    }
}

/// The processor of the background video.
#[derive(Debug, Clone, Copy, PartialEq, Eq, Hash, Structural)]
pub struct VideoProcessor {
    /// Whether object ids are read in base 62.
    pub case_sensitive_obj_id: bool,
}

/// What one header does to the video, with its outcome.
pub open spec fn header_applied<P: Prompter>(
    cs: bool,
    name: Seq<char>,
    args: Seq<char>,
    prompter: P,
    before: Video,
    after: Video,
    r: Result<(), ParseWarning>,
) -> bool {
    &&& after.seek_events@ == before.seek_events@
    &&& (eq_ignore_case(name, "VIDEOFILE"@) || eq_ignore_case(name, "MOVIE"@)) ==> {
        &&& (r is Ok <==> args.len() > 0)
        &&& (r is Ok ==> holds_text(after.video_file, args))
        &&& (r is Err ==> after.video_file == before.video_file)
    }
    &&& !(eq_ignore_case(name, "VIDEOFILE"@) || eq_ignore_case(name, "MOVIE"@)) ==> after.video_file
        == before.video_file
    &&& eq_ignore_case(name, "VIDEOF/S"@) ==> {
        &&& (r is Ok <==> finite_number_text(args))
        &&& (r is Ok ==> after.video_fs is Some && after.video_fs->0.text() == args)
        &&& (r is Err ==> after.video_fs == before.video_fs)
    }
    &&& !eq_ignore_case(name, "VIDEOF/S"@) ==> after.video_fs == before.video_fs
    &&& eq_ignore_case(name, "VIDEOCOLORS"@) ==> match spec_parse_unsigned(args, u8::MAX as int) {
        Some(v) => r is Ok && after.video_colors == Some(v as u8),
        None => r is Err && after.video_colors == before.video_colors,
    }
    &&& !eq_ignore_case(name, "VIDEOCOLORS"@) ==> after.video_colors == before.video_colors
    &&& eq_ignore_case(name, "VIDEODLY"@) ==> {
        &&& (r is Ok <==> finite_number_text(args))
        &&& (r is Ok ==> after.video_dly is Some && after.video_dly->0.text() == args)
        &&& (r is Err ==> after.video_dly == before.video_dly)
    }
    &&& !eq_ignore_case(name, "VIDEODLY"@) ==> after.video_dly == before.video_dly
    &&& spec_strip_prefix_ignore_case(name, "SEEK"@) is None ==> after.seek_defs == before.seek_defs
    &&& spec_strip_prefix_ignore_case(name, "SEEK"@) matches Some(t) ==> {
        &&& (!finite_number_text(args) ==> r is Err && after.seek_defs == before.seek_defs)
        &&& (finite_number_text(args) && !spec_obj_id_text(t) ==> r is Err && after.seek_defs
            == before.seek_defs)
        &&& (finite_number_text(args) && spec_obj_id_text(t) ==> {
            let id = spec_obj_id_of(t, cs);
            exists|v: StringValue|
                v.text() == args && spec_defined(
                before.seek_defs,
                after.seek_defs,
                id,
                v,
                DefDuplication::SeekEvent { id },
                prompter,
                r,
            )
        })
    }
    &&& !(eq_ignore_case(name, "VIDEOFILE"@) || eq_ignore_case(name, "MOVIE"@) || eq_ignore_case(
        name,
        "VIDEOF/S"@,
    ) || eq_ignore_case(name, "VIDEOCOLORS"@) || eq_ignore_case(name, "VIDEODLY"@)
        || spec_strip_prefix_ignore_case(name, "SEEK"@) is Some) ==> r is Ok
}

/// What one message does to the video, with its outcome.
pub open spec fn message_applied<P: Prompter>(
    cs: bool,
    track: Track,
    channel: Channel,
    message: Seq<char>,
    prompter: P,
    before: Video,
    after: Video,
    r: Result<Vec<ParseWarning>, ParseWarning>,
) -> bool {
    &&& after.seek_defs == before.seek_defs
    &&& after.video_file == before.video_file
    &&& after.video_fs == before.video_fs
    &&& after.video_colors == before.video_colors
    &&& after.video_dly == before.video_dly
    &&& channel is Seek && message.len() % 2 == 0 ==> {
        let (s, res) = push_all(
            before.seek_events@,
            obj_pairs(track.0, message, cs, (message.len() / 2) as int),
            before.seek_defs,
            channel,
            prompter,
        );
        &&& after.seek_events@ == s
        &&& (r is Ok <==> res is Ok)
        &&& (r matches Err(w) ==> res == Err::<(), ParseWarning>(w))
    }
    &&& !(channel is Seek) ==> after.seek_events@ == before.seek_events@ && (r matches Ok(
        ws,
    ) && ws@.len() == 0)
}

/// Video with nothing in them.
pub open spec fn fresh(o: Video) -> bool {
    &&& o.video_file is None
    &&& o.video_fs is None
    &&& o.video_colors is None
    &&& o.video_dly is None
    &&& forall|k: int| #[trigger] o.seek_defs.at(k) is None
    &&& o.seek_events@.len() == 0
}

/// What one token does, with the warnings it gives.
pub open spec fn token_step<P: Prompter>(
    cs: bool,
    t: Token,
    prompter: P,
    before: Video,
    after: Video,
    ws: Seq<ParseWarning>,
) -> bool {
    match t {
        Token::Header { name, args } => exists|r: Result<(), ParseWarning>|
            header_applied(cs, name@, args@, prompter, before, after, r) && ws == header_warnings(r),
        Token::Message { track, channel, message } => exists|r: Result<Vec<ParseWarning>, ParseWarning>|
            message_applied(cs, track, channel, message@, prompter, before, after, r) && ws == message_warnings(r),
        Token::NotACommand(_) => after == before && ws.len() == 0,
    }
}

/// The video and warnings of a token stream: from fresh ones, each token in turn as
/// `token_step`, the warnings placed at their tokens.
pub open spec fn processed<P: Prompter>(
    cs: bool,
    tokens: Seq<TokenWithRange>,
    prompter: P,
    o: Video,
    ws: Seq<ParseWarningWithRange>,
) -> bool {
    exists|states: Seq<Video>, wss: Seq<Seq<ParseWarning>>|
        {
            &&& states.len() == tokens.len() + 1
            &&& wss.len() == tokens.len()
            &&& fresh(states[0])
            &&& states.last() == o
            &&& forall|i: int|
                0 <= i < tokens.len() ==> token_step(cs, #[trigger] tokens[i].content, prompter, states[i], states[i + 1], wss[i])
            &&& ws == placed_warnings(tokens, wss, tokens.len() as int)
        }
}

impl VideoProcessor {
    /// A processor reading object ids in base 62 when `case_sensitive_obj_id`.
    pub fn new(case_sensitive_obj_id: bool) -> (r: Self)
        ensures
            r.case_sensitive_obj_id == case_sensitive_obj_id,
    {
        VideoProcessor { case_sensitive_obj_id }
    }

    /// Applies one header: `#VIDEOFILE` and `#MOVIE` name the file (not empty); `#VIDEOF/S`
    /// and `#VIDEODLY` take a finite number; `#VIDEOCOLORS` a byte; `#SEEKxx n` defines the
    /// seek position of `xx` (a finite number).
    pub fn on_header<P: Prompter>(
        &self,
        name: &str,
        args: &str,
        prompter: &P,
        video: &mut Video,
    ) -> (r: Result<(), ParseWarning>)
        ensures
            header_applied(self.case_sensitive_obj_id, name@, args@, *prompter, *old(video), *final(video), r),
    {
        proof {
            reveal_strlit("VIDEOFILE");
            reveal_strlit("MOVIE");
            reveal_strlit("VIDEOF/S");
            reveal_strlit("VIDEOCOLORS");
            reveal_strlit("VIDEODLY");
            reveal_strlit("SEEK");
            if eq_ignore_case(name@, "VIDEOF/S"@) {
                assert(crate::text::upper(name@[5]) == crate::text::upper("VIDEOF/S"@[5]));
            }
            if eq_ignore_case(name@, "VIDEODLY"@) {
                assert(crate::text::upper(name@[5]) == crate::text::upper("VIDEODLY"@[5]));
            }
            if spec_strip_prefix_ignore_case(name@, "SEEK"@) is Some {
                assert(crate::text::upper(name@.take(4)[0]) == crate::text::upper("SEEK"@[0]));
                assert(name@.take(4)[0] == name@[0]);
                if name@.len() > 0 {
                    assert(crate::text::upper(name@[0]) == crate::text::upper("SEEK"@[0]));
                }
            }
            if eq_ignore_case(name@, "VIDEOFILE"@) || eq_ignore_case(name@, "VIDEOF/S"@)
                || eq_ignore_case(name@, "VIDEOCOLORS"@) || eq_ignore_case(name@, "VIDEODLY"@) {
                assert(crate::text::upper(name@[0]) == crate::text::upper("VIDEOFILE"@[0]) || crate::text::upper(name@[0]) == crate::text::upper("VIDEOF/S"@[0]) || crate::text::upper(name@[0]) == crate::text::upper("VIDEOCOLORS"@[0]) || crate::text::upper(name@[0]) == crate::text::upper("VIDEODLY"@[0]));
            }
            if eq_ignore_case(name@, "MOVIE"@) {
                assert(crate::text::upper(name@[0]) == crate::text::upper("MOVIE"@[0]));
            }
        }
        if eq_ignore_ascii_case(name, "VIDEOFILE") || eq_ignore_ascii_case(name, "MOVIE") {
            if is_empty_text(args) {
                return Err(ParseWarning::SyntaxError(owned("expected video filename")));
            }
            video.video_file = Some(owned(args));
            return Ok(());
        }
        if eq_ignore_ascii_case(name, "VIDEOF/S") {
            if !finite_number_ok(args) {
                return Err(ParseWarning::SyntaxError(owned("expected f64")));
            }
            video.video_fs = Some(StringValue::new(args));
            return Ok(());
        }
        if eq_ignore_ascii_case(name, "VIDEOCOLORS") {
            match parse_u8(args) {
                Some(v) => {
                    video.video_colors = Some(v);
                    return Ok(());
                },
                None => {
                    return Err(ParseWarning::SyntaxError(owned("expected u8")));
                },
            }
        }
        if eq_ignore_ascii_case(name, "VIDEODLY") {
            if !finite_number_ok(args) {
                return Err(ParseWarning::SyntaxError(owned("expected f64")));
            }
            video.video_dly = Some(StringValue::new(args));
            return Ok(());
        }
        if let Some(id_text) = strip_prefix_ignore_case(name, "SEEK") {
            if !finite_number_ok(args) {
                return Err(ParseWarning::SyntaxError(owned("expected decimal")));
            }
            let id = ObjId::try_from(id_text.as_str(), self.case_sensitive_obj_id)?;
            return video.seek_defs.define(id, StringValue::new(args), DefDuplication::SeekEvent { id }, prompter);
        }
        Ok(())
    }

    /// Applies one message: on the seek channel each id is a seek at its position. Returns
    /// the warnings of pairs that are no ids; fails at the first id without definition or
    /// the first duplicated position whose warning the prompter asks for.
    pub fn on_message<P: Prompter>(
        &self,
        track: Track,
        channel: Channel,
        message: &str,
        prompter: &P,
        video: &mut Video,
    ) -> (r: Result<Vec<ParseWarning>, ParseWarning>)
        ensures
            message_applied(self.case_sensitive_obj_id, track, channel, message@, *prompter, *old(video), *final(video), r),
    {
        if let Channel::Seek = channel {
            let (pairs, warnings) = parse_obj_ids(track.0, message, self.case_sensitive_obj_id);
            push_defined(&mut video.seek_events, &pairs, &video.seek_defs, channel, prompter)?;
            return Ok(warnings);
        }
        Ok(Vec::new())
    }
}

impl<P: Prompter> TokenProcessor<P> for VideoProcessor {
    type Output = Video;

    open spec fn outcome(
        &self,
        tokens: Seq<TokenWithRange>,
        prompter: P,
        r: Result<(Video, Vec<ParseWarningWithRange>), ParseErrorWithRange>,
    ) -> bool {
        r matches Ok((o, ws)) && processed(self.case_sensitive_obj_id, tokens, prompter, o, ws@)
    }

    fn process(&self, tokens: &[TokenWithRange], prompter: &P) -> (r: Result<
        (Video, Vec<ParseWarningWithRange>),
        ParseErrorWithRange,
    >)
        ensures
            r matches Ok((o, ws)) && processed(self.case_sensitive_obj_id, tokens@, *prompter, o, ws@),
    {
        let mut video = Video::new();
        let mut warnings: Vec<ParseWarningWithRange> = Vec::new();
        let ghost mut states: Seq<Video> = seq![video];
        let ghost mut wss: Seq<Seq<ParseWarning>> = Seq::empty();
        let mut i: usize = 0;
        while i < tokens.len()
            invariant
                i <= tokens@.len(),
                states.len() == i + 1,
                wss.len() == i,
                fresh(states[0]),
                states.last() == video,
                forall|j: int|
                    0 <= j < i ==> token_step(self.case_sensitive_obj_id, #[trigger] tokens@[j].content, *prompter, states[j], states[j + 1], wss[j]),
                warnings@ == placed_warnings(tokens@, wss, i as int),
            decreases tokens@.len() - i,
        {
            let ghost before = video;
            let ws: Vec<ParseWarning> = match &tokens[i].content {
                Token::Header { name, args } => {
                    let r = self.on_header(name.as_str(), args.as_str(), prompter, &mut video);
                    let ws = match r {
                        Ok(()) => Vec::new(),
                        Err(w) => vec![w],
                    };
                    assert(ws@ =~= header_warnings(r));
                    ws
                },
                Token::Message { track, channel, message } => {
                    let r = self.on_message(*track, *channel, message.as_str(), prompter, &mut video);
                    let ghost rr = r;
                    let ws = match r {
                        Ok(ws) => ws,
                        Err(w) => vec![w],
                    };
                    assert(ws@ =~= message_warnings(rr));
                    ws
                },
                Token::NotACommand(_) => Vec::new(),
            };
            assert(token_step(self.case_sensitive_obj_id, tokens@[i as int].content, *prompter, before, video, ws@));
            let g = add_placed(&mut warnings, ws, tokens[i].range, Ghost(tokens@), Ghost(wss), Ghost(i as int));
            proof {
                wss = g@;
                states = states.push(video);
            }
            i += 1;
        }
        Ok((video, warnings))
    }
}

} // verus!
