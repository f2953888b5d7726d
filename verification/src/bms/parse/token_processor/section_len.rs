//! The section length channel `#xxx02:`: `1.0` makes the section `xxx` a 4/4 measure.
use crate::bms::command::{Channel, ObjTime, StringValue, Track};
use crate::bms::error::{ParseErrorWithRange, ParseWarning, ParseWarningWithRange};
use crate::bms::lex::{Token, TokenWithRange};
use crate::bms::model::spec_push;
use crate::bms::objects::{SectionLenChangeObj, SectionLenObjects};
use crate::bms::parse::token_processor::{errors_at, lemma_errors_at_prefix, warn_at};
use crate::bms::parse::{filter_message, filtered_message, TokenProcessor};
use crate::bms::prompt::Prompter;
use crate::number::{fin_f64_check, fin_f64_error, positive_f64_check, positive_f64_error};
use crate::text::owned;
use vstd::prelude::*;

verus! {

/// Whether a length is refused: a finite number that is not above zero. A text that is no
/// finite number is kept as written and judged when the chart is processed.
pub open spec fn non_positive_length(s: Seq<char>) -> bool {
    fin_f64_error(s) is None && positive_f64_error(s) is Some
}

/// The changes after adding one at the start of `track`: as `spec_push` at that position,
/// with a duplicate reported for the whole track.
pub open spec fn spec_push_track<P: Prompter>(
    s: Seq<(ObjTime, u8, SectionLenChangeObj)>,
    track: Track,
    value: SectionLenChangeObj,
    prompter: P,
) -> (Seq<(ObjTime, u8, SectionLenChangeObj)>, Result<(), ParseWarning>) {
    let (s1, r) = spec_push(s, ObjTime::spec_new(track.0, 0, 1), 0, value, Channel::SectionLen, prompter);
    (
        s1,
        if r is Err {
            Err(ParseWarning::DuplicatingTrackObj(track, Channel::SectionLen))
        } else {
            Ok(())
        },
    )
}

/// What one message does to the section length changes, with its outcome: on the section
/// length channel the value (cut at the first character that may not stand in it) is the
/// length of the track, refused when it is a finite number not above zero; other channels
/// change nothing.
pub open spec fn message_applied<P: Prompter>(
    track: Track,
    channel: Channel,
    message: Seq<char>,
    prompter: P,
    before: Seq<(ObjTime, u8, SectionLenChangeObj)>,
    after: Seq<(ObjTime, u8, SectionLenChangeObj)>,
    r: Result<(), ParseWarning>,
) -> bool {
    &&& !(channel is SectionLen) ==> r is Ok && after == before
    &&& channel is SectionLen ==> {
        let m = filtered_message(message);
        &&& non_positive_length(m) ==> r is Err && r->Err_0 is SyntaxError && after == before
        &&& !non_positive_length(m) ==> exists|v: StringValue|
            v.text() == m && (after, r) == spec_push_track(
                before,
                track,
                SectionLenChangeObj { track, length: v },
                prompter,
            )
    }
}

/// What one token does: a message as `message_applied`, anything else nothing.
pub open spec fn token_applied<P: Prompter>(
    t: Token,
    prompter: P,
    before: Seq<(ObjTime, u8, SectionLenChangeObj)>,
    after: Seq<(ObjTime, u8, SectionLenChangeObj)>,
    r: Result<(), ParseWarning>,
) -> bool {
    match t {
        Token::Message { track, channel, message } => message_applied(
            track,
            channel,
            message@,
            prompter,
            before,
            after,
            r,
        ),
        _ => r is Ok && after == before,
    }
}

/// The processor of section lengths.
#[derive(Debug, Clone, Copy, PartialEq, Eq, Hash, Structural)]
pub struct SectionLenProcessor;

impl SectionLenProcessor {
    /// Applies one message: on the section length channel the value (cut at the first
    /// character that may not stand in it) is the length of the track, refused when it is a
    /// finite number not above zero.
    pub fn on_message<P: Prompter>(
        track: Track,
        channel: Channel,
        message: &str,
        prompter: &P,
        objects: &mut SectionLenObjects,
    ) -> (r: Result<(), ParseWarning>)
        ensures
            message_applied(track, channel, message@, *prompter, old(objects).section_len_changes@, final(objects).section_len_changes@, r),
    {
        if let Channel::SectionLen = channel {
            let m = filter_message(message);
            if fin_f64_check(m.as_str()).is_none() && positive_f64_check(m.as_str()).is_some() {
                return Err(ParseWarning::SyntaxError(owned("section length must be greater than zero")));
            }
            let length = StringValue::new(m.as_str());
            let time = ObjTime::start_of(track);
            let r = objects.section_len_changes.push(
                time,
                0,
                SectionLenChangeObj { track, length },
                Channel::SectionLen,
                prompter,
            );
            return match r {
                Ok(()) => Ok(()),
                Err(_) => Err(ParseWarning::DuplicatingTrackObj(track, Channel::SectionLen)),
            };
        }
        Ok(())
    }
}

/// The section lengths and warnings of a token stream: from none, each token in turn as
/// `token_applied`, the warnings of the tokens that gave one placed at them.
pub open spec fn processed<P: Prompter>(
    tokens: Seq<TokenWithRange>,
    prompter: P,
    o: SectionLenObjects,
    ws: Seq<ParseWarningWithRange>,
) -> bool {
    exists|states: Seq<Seq<(ObjTime, u8, SectionLenChangeObj)>>, rs: Seq<Result<(), ParseWarning>>|
        {
            &&& states.len() == tokens.len() + 1
            &&& rs.len() == tokens.len()
            &&& states[0].len() == 0
            &&& states.last() == o.section_len_changes@
            &&& forall|i: int|
                0 <= i < tokens.len() ==> token_applied(
                    #[trigger] tokens[i].content,
                    prompter,
                    states[i],
                    states[i + 1],
                    rs[i],
                )
            &&& ws == errors_at(tokens, rs, tokens.len() as int)
        }
}

impl<P: Prompter> TokenProcessor<P> for SectionLenProcessor {
    type Output = SectionLenObjects;

    open spec fn outcome(
        &self,
        tokens: Seq<TokenWithRange>,
        prompter: P,
        r: Result<(SectionLenObjects, Vec<ParseWarningWithRange>), ParseErrorWithRange>,
    ) -> bool {
        r matches Ok((o, ws)) && processed(tokens, prompter, o, ws@)
    }

    fn process(&self, tokens: &[TokenWithRange], prompter: &P) -> (r: Result<
        (SectionLenObjects, Vec<ParseWarningWithRange>),
        ParseErrorWithRange,
    >)
        ensures
            r matches Ok((o, ws)) && processed(tokens@, *prompter, o, ws@),
    {
        let mut objects = SectionLenObjects::new();
        let mut warnings: Vec<ParseWarningWithRange> = Vec::new();
        let ghost mut states: Seq<Seq<(ObjTime, u8, SectionLenChangeObj)>> = seq![objects.section_len_changes@];
        let ghost mut rs: Seq<Result<(), ParseWarning>> = Seq::empty();
        let mut i: usize = 0;
        while i < tokens.len()
            invariant
                i <= tokens@.len(),
                states.len() == i + 1,
                rs.len() == i,
                states[0].len() == 0,
                states.last() == objects.section_len_changes@,
                forall|j: int|
                    0 <= j < i ==> token_applied(#[trigger] tokens@[j].content, *prompter, states[j], states[j + 1], rs[j]),
                warnings@ == errors_at(tokens@, rs, i as int),
            decreases tokens@.len() - i,
        {
            let ghost before = objects.section_len_changes@;
            let r = match &tokens[i].content {
                Token::Message { track, channel, message } => {
                    Self::on_message(*track, *channel, message.as_str(), prompter, &mut objects)
                },
                _ => Ok(()),
            };
            let ghost warned = warnings@;
            match r {
                Ok(()) => {},
                Err(w) => warnings.push(warn_at(w, tokens[i].range)),
            }
            proof {
                let rs0 = rs;
                rs = rs.push(r);
                lemma_errors_at_prefix(tokens@, rs0, rs, i as int);
                states = states.push(objects.section_len_changes@);
                assert(errors_at(tokens@, rs, i + 1) == errors_at(tokens@, rs, i as int) + match r {
                    Ok(_) => Seq::<ParseWarningWithRange>::empty(),
                    Err(w) => seq![ParseWarningWithRange { warning: w, range: tokens@[i as int].range }],
                });
                assert(warnings@ =~= errors_at(tokens@, rs, i + 1));
                assert(token_applied(tokens@[i as int].content, *prompter, states[i as int], states[i + 1], rs[i as int]));
            }
            i += 1;
        }
        Ok((objects, warnings))
    }
}

} // verus!
