//! `#VOLWAV` and the volume channels `#xxx97:` and `#xxx98:`.
use crate::bms::command::{Channel, Track, Volume};
use crate::bms::error::{ParseErrorWithRange, ParseWarning, ParseWarningWithRange};
use crate::bms::lex::{Token, TokenWithRange};
use crate::bms::model::spec_push;
use crate::bms::objects::{BgmVolumeObj, KeyVolumeObj, VolumeObjects};
use crate::bms::parse::token_processor::{
    add_placed, header_warnings, message_warnings, placed_warnings, push_made, push_values, TimedObj,
};
use crate::bms::parse::{hex_pairs, parse_hex_values, TokenProcessor};
use crate::bms::prompt::Prompter;
use crate::bms::command::ObjTime;
use crate::text::{eq_ignore_ascii_case, eq_ignore_case, owned, parse_u8, spec_parse_unsigned};
use vstd::prelude::*;

verus! {

/// The processor of volumes.
#[derive(Debug, Clone, Copy, PartialEq, Eq, Hash, Structural)]
pub struct VolumeProcessor;

impl TimedObj<u8> for BgmVolumeObj {
    open spec fn spec_make(time: ObjTime, channel: Channel, v: u8) -> Self {
        BgmVolumeObj { time, volume: v }
    }

    fn make(time: ObjTime, channel: Channel, v: u8) -> (r: Self) {
        BgmVolumeObj { time, volume: v }
    }
}

impl TimedObj<u8> for KeyVolumeObj {
    open spec fn spec_make(time: ObjTime, channel: Channel, v: u8) -> Self {
        KeyVolumeObj { time, volume: v }
    }

    fn make(time: ObjTime, channel: Channel, v: u8) -> (r: Self) {
        KeyVolumeObj { time, volume: v }
    }
}

/// What one header does to the volume objects, with its outcome.
pub open spec fn header_applied(
    name: Seq<char>,
    args: Seq<char>,
    before: VolumeObjects,
    after: VolumeObjects,
    r: Result<(), ParseWarning>,
) -> bool {
    &&& eq_ignore_case(name, "VOLWAV"@) ==> (r is Ok <==> spec_parse_unsigned(args, u8::MAX as int) is Some)
        && (r is Ok ==> after.volume.relative_percent == spec_parse_unsigned(
        args,
        u8::MAX as int,
    )->0)
    &&& !eq_ignore_case(name, "VOLWAV"@) ==> r is Ok && after.volume == before.volume
    &&& after.bgm_volume_changes@ == before.bgm_volume_changes@
    &&& after.key_volume_changes@ == before.key_volume_changes@
}

/// What one message does to the volume objects, with its outcome.
pub open spec fn message_applied<P: Prompter>(
    track: Track,
    channel: Channel,
    message: Seq<char>,
    prompter: P,
    before: VolumeObjects,
    after: VolumeObjects,
    r: Result<Vec<ParseWarning>, ParseWarning>,
) -> bool {
    &&& channel is BgmVolume && message.len() % 2 == 0 ==> {
        let (s, res) = push_values(
            before.bgm_volume_changes@,
            hex_pairs(track.0, message, (message.len() / 2) as int),
            channel,
            prompter,
        );
        &&& after.bgm_volume_changes@ == s
        &&& (r is Ok <==> res is Ok)
    }
    &&& channel is KeyVolume && message.len() % 2 == 0 ==> {
        let (s, res) = push_values(
            before.key_volume_changes@,
            hex_pairs(track.0, message, (message.len() / 2) as int),
            channel,
            prompter,
        );
        &&& after.key_volume_changes@ == s
        &&& (r is Ok <==> res is Ok)
    }
    &&& !(channel is BgmVolume) ==> after.bgm_volume_changes@ == before.bgm_volume_changes@
    &&& !(channel is KeyVolume) ==> after.key_volume_changes@ == before.key_volume_changes@
    &&& !(channel is BgmVolume || channel is KeyVolume) ==> (r matches Ok(ws) && ws@.len() == 0)
    &&& after.volume == before.volume
}

/// Volume objects with nothing in them.
pub open spec fn fresh(o: VolumeObjects) -> bool {
    &&& o.volume.relative_percent == 100
    &&& o.bgm_volume_changes@.len() == 0
    &&& o.key_volume_changes@.len() == 0
}

/// What one token does, with the warnings it gives.
pub open spec fn token_step<P: Prompter>(
    t: Token,
    prompter: P,
    before: VolumeObjects,
    after: VolumeObjects,
    ws: Seq<ParseWarning>,
) -> bool {
    match t {
        Token::Header { name, args } => exists|r: Result<(), ParseWarning>|
            header_applied(name@, args@, before, after, r) && ws == header_warnings(r),
        Token::Message { track, channel, message } => exists|r: Result<Vec<ParseWarning>, ParseWarning>|
            message_applied(track, channel, message@, prompter, before, after, r) && ws == message_warnings(r),
        Token::NotACommand(_) => after == before && ws.len() == 0,
    }
}

/// The volume objects and warnings of a token stream: from fresh ones, each token in turn as
/// `token_step`, the warnings placed at their tokens.
pub open spec fn processed<P: Prompter>(
    tokens: Seq<TokenWithRange>,
    prompter: P,
    o: VolumeObjects,
    ws: Seq<ParseWarningWithRange>,
) -> bool {
    exists|states: Seq<VolumeObjects>, wss: Seq<Seq<ParseWarning>>|
        {
            &&& states.len() == tokens.len() + 1
            &&& wss.len() == tokens.len()
            &&& fresh(states[0])
            &&& states.last() == o
            &&& forall|i: int|
                0 <= i < tokens.len() ==> token_step(#[trigger] tokens[i].content, prompter, states[i], states[i + 1], wss[i])
            &&& ws == placed_warnings(tokens, wss, tokens.len() as int)
        }
}

impl VolumeProcessor {
    /// Applies one header: `#VOLWAV n` sets the volume to `n` percent.
    pub fn on_header(&self, name: &str, args: &str, objects: &mut VolumeObjects) -> (r: Result<(), ParseWarning>)
        ensures
            header_applied(name@, args@, *old(objects), *final(objects), r),
    {
        if eq_ignore_ascii_case(name, "VOLWAV") {
            match parse_u8(args) {
                Some(v) => objects.volume = Volume { relative_percent: v },
                None => {
                    return Err(ParseWarning::SyntaxError(owned("expected integer")));
                },
            }
        }
        Ok(())
    }

    /// Applies one message: on the background and key volume channels, each hexadecimal pair
    /// other than `00` is a volume change. Returns the warnings of pairs that are no numbers;
    /// fails at the first change given twice whose warning the prompter asks for.
    pub fn on_message<P: Prompter>(
        &self,
        track: Track,
        channel: Channel,
        message: &str,
        prompter: &P,
        objects: &mut VolumeObjects,
    ) -> (r: Result<Vec<ParseWarning>, ParseWarning>)
        ensures
            message_applied(track, channel, message@, *prompter, *old(objects), *final(objects), r),
    {
        if let Channel::BgmVolume = channel {
            let (pairs, warnings) = parse_hex_values(track.0, message);
            push_made(&mut objects.bgm_volume_changes, &pairs, channel, prompter)?;
            return Ok(warnings);
        }
        if let Channel::KeyVolume = channel {
            let (pairs, warnings) = parse_hex_values(track.0, message);
            push_made(&mut objects.key_volume_changes, &pairs, channel, prompter)?;
            return Ok(warnings);
        }
        Ok(Vec::new())
    }
}

impl<P: Prompter> TokenProcessor<P> for VolumeProcessor {
    type Output = VolumeObjects;

    open spec fn outcome(
        &self,
        tokens: Seq<TokenWithRange>,
        prompter: P,
        r: Result<(VolumeObjects, Vec<ParseWarningWithRange>), ParseErrorWithRange>,
    ) -> bool {
        r matches Ok((o, ws)) && processed(tokens, prompter, o, ws@)
    }

    fn process(&self, tokens: &[TokenWithRange], prompter: &P) -> (r: Result<
        (VolumeObjects, Vec<ParseWarningWithRange>),
        ParseErrorWithRange,
    >)
        ensures
            r matches Ok((o, ws)) && processed(tokens@, *prompter, o, ws@),
    {
        let mut objects = VolumeObjects::new();
        let mut warnings: Vec<ParseWarningWithRange> = Vec::new();
        let ghost mut states: Seq<VolumeObjects> = seq![objects];
        let ghost mut wss: Seq<Seq<ParseWarning>> = Seq::empty();
        let mut i: usize = 0;
        while i < tokens.len()
            invariant
                i <= tokens@.len(),
                states.len() == i + 1,
                wss.len() == i,
                fresh(states[0]),
                states.last() == objects,
                forall|j: int|
                    0 <= j < i ==> token_step(#[trigger] tokens@[j].content, *prompter, states[j], states[j + 1], wss[j]),
                warnings@ == placed_warnings(tokens@, wss, i as int),
            decreases tokens@.len() - i,
        {
            let ghost before = objects;
            let ws: Vec<ParseWarning> = match &tokens[i].content {
                Token::Header { name, args } => {
                    let r = self.on_header(name.as_str(), args.as_str(), &mut objects);
                    let ws = match r {
                        Ok(()) => Vec::new(),
                        Err(w) => vec![w],
                    };
                    assert(ws@ =~= header_warnings(r));
                    ws
                },
                Token::Message { track, channel, message } => {
                    let r = self.on_message(*track, *channel, message.as_str(), prompter, &mut objects);
                    let ghost rr = r;
                    let ws = match r {
                        Ok(ws) => ws,
                        Err(w) => vec![w],
                    };
                    assert(ws@ =~= message_warnings(rr));
                    ws
                },
                Token::NotACommand(_) => Vec::new(),
            };
            assert(token_step(tokens@[i as int].content, *prompter, before, objects, ws@));
            let g = add_placed(&mut warnings, ws, tokens[i].range, Ghost(tokens@), Ghost(wss), Ghost(i as int));
            proof {
                wss = g@;
                states = states.push(objects);
            }
            i += 1;
        }
        Ok((objects, warnings))
    }
}

} // verus!
