//! Sounds and notes: `#WAVxx`, `#EXWAVxx`, `#LNOBJ`, `#WAVCMD`, the background music channel
//! `#xxx01:` and the note channels.
use crate::bms::command::{spec_obj_id_of, spec_obj_id_text, Channel, NoteChannelId, ObjId, ObjTime, Track};
use crate::bms::error::{ParseErrorWithRange, ParseWarning, ParseWarningWithRange};
use crate::bms::layout::KeyLayoutMapper;
use crate::bms::lex::{Token, TokenWithRange};
use crate::bms::model::{last_with_id, latest_before, spec_defined, WavObj};
use crate::bms::objects::{ExWavDef, WavCmdEvent, WavCmdParam, WavObjects};
use crate::bms::parse::token_processor::{add_placed, header_warnings, message_warnings, placed_warnings};
use crate::bms::parse::{obj_pairs, parse_obj_ids, TokenProcessor};
use crate::bms::prompt::{DefDuplication, Prompter};
use crate::chart::types::NoteKind;
use crate::text::{
    chars_of, eq_ignore_ascii_case, eq_ignore_case, is_empty_text, lemma_prefix_char, owned, parse_i64,
    parse_u32, parse_u64, spec_parse_signed, spec_parse_unsigned, spec_strip_prefix_ignore_case,
    split_words, strip_prefix_ignore_case, text_eq, upper, words,
};
use std::marker::PhantomData;
use vstd::prelude::*;

verus! {

/// The note made a long note of its lane in the layout `T`; `None` when `T` has no lane
/// for its channel.
pub open spec fn spec_as_long<T: KeyLayoutMapper>(obj: WavObj) -> Option<WavObj> {
    match T::spec_from_channel_id(obj.channel_id) {
        Some(lane) => Some(
            WavObj {
                offset: obj.offset,
                channel_id: T::spec_from_parts(lane.spec_side(), NoteKind::Long, lane.spec_key()).spec_to_channel_id(),
                wav_id: obj.wav_id,
            },
        ),
        None => None,
    }
}

/// Computes `spec_as_long`.
fn as_long<T: KeyLayoutMapper>(obj: WavObj) -> (r: Option<WavObj>)
    ensures
        r == spec_as_long::<T>(obj),
{
    match T::from_channel_id(obj.channel_id) {
        Some(lane) => {
            let long = T::from_tuple((lane.side(), NoteKind::Long, lane.key()));
            Some(WavObj { offset: obj.offset, channel_id: long.to_channel_id(), wav_id: obj.wav_id })
        },
        None => None,
    }
}

/// The notes after `#LNOBJ id`, and how it went (`0`: done, `1`: no note of `id`, `2`: a
/// syntax error). The last note added that plays `id` is the end of a long note; the
/// latest note before it on its channel is the beginning. Both leave their places and are
/// added again, in that order, on the long-note lanes of their keys. A failure keeps what
/// was removed until then removed.
pub open spec fn spec_lnobj<T: KeyLayoutMapper>(s: Seq<WavObj>, id: ObjId) -> (Seq<WavObj>, int) {
    match last_with_id(s, id, s.len() as int) {
        None => (s, 1),
        Some(e) => {
            let end = s[e];
            let s1 = s.remove(e);
            match latest_before(s1, end.offset, end.channel_id, s1.len() as int) {
                None => (s1, 2),
                Some(b) => {
                    let s2 = s1.remove(b);
                    match spec_as_long::<T>(s1[b]) {
                        None => (s2, 2),
                        Some(long_begin) => {
                            let s3 = s2.push(long_begin);
                            match spec_as_long::<T>(end) {
                                None => (s3, 2),
                                Some(long_end) => (s3.push(long_end), 0),
                            }
                        },
                    }
                },
            }
        },
    }
}

/// The objects of the pairs of a message on `channel_id`, in order.
pub open spec fn notes_of(pairs: Seq<(ObjTime, ObjId)>, channel_id: NoteChannelId) -> Seq<WavObj> {
    pairs.map_values(|p: (ObjTime, ObjId)| WavObj { offset: p.0, channel_id, wav_id: p.1 })
}

/// The parameter named by the first argument of `#WAVCMD`: `00`, `01` or `02`.
pub open spec fn spec_wavcmd_param(w: Seq<char>) -> Option<WavCmdParam> {
    if w == "00"@ {
        Some(WavCmdParam::Pitch)
    } else if w == "01"@ {
        Some(WavCmdParam::Volume)
    } else if w == "02"@ {
        Some(WavCmdParam::Time)
    } else {
        None
    }
}

/// The effect of `#WAVCMD command id value`, if readable: three words, a known command, an
/// object id and a `u32` value, at most 127 for the tone.
pub open spec fn spec_wavcmd(cs: bool, args: Seq<char>) -> Option<WavCmdEvent> {
    let ws = words(args);
    if ws.len() != 3 {
        None
    } else {
        match (spec_wavcmd_param(ws[0]), spec_parse_unsigned(ws[2], u32::MAX as int)) {
            (Some(p), Some(v)) => if !spec_obj_id_text(ws[1]) || (p is Pitch && v > 127) {
                None
            } else {
                Some(WavCmdEvent { param: p, wav_index: spec_obj_id_of(ws[1], cs), value: v as u32 })
            },
            _ => None,
        }
    }
}

/// The pan, volume and frequency that the letters `ps` of `#EXWAV` take from the words `ws`
/// from the `k`-th on, starting from `pan`, `volume` and `freq`, with the index of the word
/// after them. Each letter takes the next word: `p` a pan from -10000 to 10000, `v` a
/// volume from -10000 to 0, `f` a frequency from 100 to 100000. Any other letter, a missing
/// word or a value out of its range makes them unreadable.
pub open spec fn exwav_params(
    ps: Seq<char>,
    ws: Seq<Seq<char>>,
    k: int,
    pan: i64,
    volume: i64,
    freq: Option<u64>,
) -> Option<(i64, i64, Option<u64>, int)>
    decreases ps.len(),
{
    if ps.len() == 0 {
        Some((pan, volume, freq, k))
    } else if !(ps[0] == 'p' || ps[0] == 'v' || ps[0] == 'f') || k < 0 || k >= ws.len() {
        None
    } else if ps[0] == 'p' {
        match spec_parse_signed(ws[k], i64::MAX as int) {
            Some(v) => if -10000 <= v <= 10000 {
                exwav_params(ps.drop_first(), ws, k + 1, v as i64, volume, freq)
            } else {
                None
            },
            None => None,
        }
    } else if ps[0] == 'v' {
        match spec_parse_signed(ws[k], i64::MAX as int) {
            Some(v) => if -10000 <= v <= 0 {
                exwav_params(ps.drop_first(), ws, k + 1, pan, v as i64, freq)
            } else {
                None
            },
            None => None,
        }
    } else {
        match spec_parse_unsigned(ws[k], u64::MAX as int) {
            Some(v) => if 100 <= v <= 100000 {
                exwav_params(ps.drop_first(), ws, k + 1, pan, volume, Some(v as u64))
            } else {
                None
            },
            None => None,
        }
    }
}

/// The pan, volume, frequency and file of the arguments of `#EXWAVxx letters values file`,
/// if readable; pan and volume are 0 when not given.
pub open spec fn spec_exwav(args: Seq<char>) -> Option<(i64, i64, Option<u64>, Seq<char>)> {
    let ws = words(args);
    if ws.len() == 0 {
        None
    } else {
        match exwav_params(ws[0], ws, 1, 0, 0, None) {
            Some((pan, volume, freq, k)) => if 0 <= k < ws.len() {
                Some((pan, volume, freq, ws[k]))
            } else {
                None
            },
            None => None,
        }
    }
}

/// Whether a header is `#WAVxx` (and not `#WAVCMD`).
pub open spec fn is_wav_header(name: Seq<char>) -> bool {
    spec_strip_prefix_ignore_case(name, "WAV"@) is Some && !eq_ignore_case(name, "WAVCMD"@)
}

/// The processor of sounds and notes, reading note channels in the layout `T`.
pub struct WavProcessor<T> {
    /// Whether object ids are read in base 62.
    pub case_sensitive_obj_id: bool,
    /// The layout that note channels are read in.
    pub layout: PhantomData<T>,
}

/// What one header does to the sound objects, with its outcome.
pub open spec fn header_applied<T: KeyLayoutMapper, P: Prompter>(
    cs: bool,
    name: Seq<char>,
    args: Seq<char>,
    prompter: P,
    before: WavObjects,
    after: WavObjects,
    r: Result<(), ParseWarning>,
) -> bool {
    &&& spec_strip_prefix_ignore_case(name, "EXWAV"@) is None ==> after.exwav_defs == before.exwav_defs
    &&& !eq_ignore_case(name, "WAVCMD"@) ==> after.wavcmd_events == before.wavcmd_events
    &&& spec_strip_prefix_ignore_case(name, "EXWAV"@) matches Some(t) ==> {
        &&& after.notes@ == before.notes@
        &&& after.wav_files == before.wav_files
        &&& match spec_exwav(args) {
            None => r is Err && r->Err_0 is SyntaxError && after.exwav_defs == before.exwav_defs,
            Some((pan, volume, freq, file)) => {
                &&& !spec_obj_id_text(t) ==> r is Err && r->Err_0 is SyntaxError && after.exwav_defs
                    == before.exwav_defs
                &&& spec_obj_id_text(t) ==> exists|v: ExWavDef|
                    v.id == spec_obj_id_of(t, cs) && v.pan == pan && v.volume == volume && v.frequency
                        == freq && v.path@ == file && spec_defined(
                        before.exwav_defs,
                        after.exwav_defs,
                        v.id,
                        v,
                        DefDuplication::ExWav { id: v.id },
                        prompter,
                        r,
                    )
            },
        }
    }
    &&& eq_ignore_case(name, "WAVCMD"@) ==> {
        &&& after.notes@ == before.notes@
        &&& after.wav_files == before.wav_files
        &&& match spec_wavcmd(cs, args) {
            None => r is Err && r->Err_0 is SyntaxError && after.wavcmd_events == before.wavcmd_events,
            Some(ev) => spec_defined(
                before.wavcmd_events,
                after.wavcmd_events,
                ev.wav_index,
                ev,
                DefDuplication::WavCmdEvent { wav_index: ev.wav_index },
                prompter,
                r,
            ),
        }
    }
    &&& is_wav_header(name) ==> (spec_strip_prefix_ignore_case(name, "WAV"@) matches Some(t) && {
        &&& after.notes@ == before.notes@
        &&& args.len() == 0 ==> r is Err && r->Err_0 is SyntaxError && after.wav_files
            == before.wav_files
        &&& (args.len() > 0 && !spec_obj_id_text(t)) ==> r is Err && r->Err_0 is SyntaxError
            && after.wav_files == before.wav_files
        &&& (args.len() > 0 && spec_obj_id_text(t)) ==> exists|v: String|
            v@ == args && spec_defined(
                before.wav_files,
                after.wav_files,
                spec_obj_id_of(t, cs),
                v,
                DefDuplication::Wav { id: spec_obj_id_of(t, cs) },
                prompter,
                r,
            )
    })
    &&& eq_ignore_case(name, "LNOBJ"@) ==> {
        &&& after.wav_files == before.wav_files
        &&& !spec_obj_id_text(args) ==> r is Err && r->Err_0 is SyntaxError && after.notes@
            == before.notes@
        &&& spec_obj_id_text(args) ==> {
            let id = spec_obj_id_of(args, cs);
            let (ns, k) = spec_lnobj::<T>(before.notes@, id);
            &&& after.notes@ == ns
            &&& (r is Ok <==> k == 0)
            &&& (k == 1 ==> r == Err::<(), ParseWarning>(ParseWarning::UndefinedObject(id)))
            &&& (k == 2 ==> r is Err && r->Err_0 is SyntaxError)
        }
    }
    &&& !(spec_strip_prefix_ignore_case(name, "WAV"@) is Some || eq_ignore_case(name, "LNOBJ"@)
        || spec_strip_prefix_ignore_case(name, "EXWAV"@) is Some) ==> r is Ok && after.notes@ == before.notes@
        && after.wav_files == before.wav_files
}

/// What one message does to the sound objects, with its outcome.
pub open spec fn message_applied(
    cs: bool,
    track: Track,
    channel: Channel,
    message: Seq<char>,
    before: WavObjects,
    after: WavObjects,
    r: Result<Vec<ParseWarning>, ParseWarning>,
) -> bool {
    &&& r is Ok
    &&& after.wav_files == before.wav_files
    &&& after.exwav_defs == before.exwav_defs
    &&& after.wavcmd_events == before.wavcmd_events
    &&& channel is Bgm && message.len() % 2 == 0 ==> after.notes@ == before.notes@ + notes_of(
        obj_pairs(track.0, message, cs, (message.len() / 2) as int),
        NoteChannelId { first: 48, second: 49 },
    )
    &&& channel is Note && message.len() % 2 == 0 ==> after.notes@ == before.notes@
        + notes_of(
        obj_pairs(track.0, message, cs, (message.len() / 2) as int),
        channel->channel_id,
    )
    &&& message.len() % 2 == 1 || !(channel is Bgm || channel is Note) ==> after.notes@ == before.notes@
}

/// Sound objects with nothing in them.
pub open spec fn fresh(o: WavObjects) -> bool {
    &&& forall|k: int| #[trigger] o.wav_files.at(k) is None
    &&& forall|k: int| #[trigger] o.exwav_defs.at(k) is None
    &&& forall|k: int| #[trigger] o.wavcmd_events.at(k) is None
    &&& o.notes@.len() == 0
}

/// What one token does, with the warnings it gives.
pub open spec fn token_step<T: KeyLayoutMapper, P: Prompter>(
    cs: bool,
    t: Token,
    prompter: P,
    before: WavObjects,
    after: WavObjects,
    ws: Seq<ParseWarning>,
) -> bool {
    match t {
        Token::Header { name, args } => exists|r: Result<(), ParseWarning>|
            header_applied::<T, P>(cs, name@, args@, prompter, before, after, r) && ws == header_warnings(r),
        Token::Message { track, channel, message } => exists|r: Result<Vec<ParseWarning>, ParseWarning>|
            message_applied(cs, track, channel, message@, before, after, r) && ws == message_warnings(r),
        Token::NotACommand(_) => after == before && ws.len() == 0,
    }
}

/// The sound objects and warnings of a token stream: from fresh ones, each token in turn as
/// `token_step`, the warnings placed at their tokens.
pub open spec fn processed<T: KeyLayoutMapper, P: Prompter>(
    cs: bool,
    tokens: Seq<TokenWithRange>,
    prompter: P,
    o: WavObjects,
    ws: Seq<ParseWarningWithRange>,
) -> bool {
    exists|states: Seq<WavObjects>, wss: Seq<Seq<ParseWarning>>|
        {
            &&& states.len() == tokens.len() + 1
            &&& wss.len() == tokens.len()
            &&& fresh(states[0])
            &&& states.last() == o
            &&& forall|i: int|
                0 <= i < tokens.len() ==> token_step::<T, P>(cs, #[trigger] tokens[i].content, prompter, states[i], states[i + 1], wss[i])
            &&& ws == placed_warnings(tokens, wss, tokens.len() as int)
        }
}

impl<T: KeyLayoutMapper> WavProcessor<T> {
    /// A processor reading object ids in base 62 when `case_sensitive_obj_id`.
    pub fn new(case_sensitive_obj_id: bool) -> (r: Self)
        ensures
            r.case_sensitive_obj_id == case_sensitive_obj_id,
    {
        WavProcessor { case_sensitive_obj_id, layout: PhantomData }
    }

    /// `#WAVCMD command id value`: records the effect on the sound `id`.
    fn wavcmd<P: Prompter>(&self, args: &str, prompter: &P, objects: &mut WavObjects) -> (r: Result<
        (),
        ParseWarning,
    >)
        ensures
            final(objects).notes@ == old(objects).notes@,
            final(objects).wav_files == old(objects).wav_files,
            final(objects).exwav_defs == old(objects).exwav_defs,
            match spec_wavcmd(self.case_sensitive_obj_id, args@) {
                None => r is Err && r->Err_0 is SyntaxError && final(objects).wavcmd_events == old(
                    objects,
                ).wavcmd_events,
                Some(ev) => spec_defined(
                    old(objects).wavcmd_events,
                    final(objects).wavcmd_events,
                    ev.wav_index,
                    ev,
                    DefDuplication::WavCmdEvent { wav_index: ev.wav_index },
                    *prompter,
                    r,
                ),
            },
    {
        proof {
            reveal_strlit("00");
            reveal_strlit("01");
            reveal_strlit("02");
        }
        let ws = split_words(args);
        let ghost wv = ws@.map_values(|w: String| w@);
        if ws.len() != 3 {
            return Err(ParseWarning::SyntaxError(owned("expected 3 arguments for #WAVCMD")));
        }
        assert(wv[0] == ws@[0]@ && wv[1] == ws@[1]@ && wv[2] == ws@[2]@);
        let param = if text_eq(ws[0].as_str(), "00") {
            WavCmdParam::Pitch
        } else if text_eq(ws[0].as_str(), "01") {
            WavCmdParam::Volume
        } else if text_eq(ws[0].as_str(), "02") {
            WavCmdParam::Time
        } else {
            return Err(ParseWarning::SyntaxError(owned("expected one of 00, 01, 02")));
        };
        let wav_index = ObjId::try_from(ws[1].as_str(), self.case_sensitive_obj_id)?;
        let value = match parse_u32(ws[2].as_str()) {
            Some(v) => v,
            None => {
                return Err(ParseWarning::SyntaxError(owned("wavcmd value u32")));
            },
        };
        if param == WavCmdParam::Pitch && value > 127 {
            return Err(ParseWarning::SyntaxError(owned("pitch must be in between 0 and 127")));
        }
        let ev = WavCmdEvent { param, wav_index, value };
        objects.wavcmd_events.define(wav_index, ev, DefDuplication::WavCmdEvent { wav_index }, prompter)
    }

    /// `#EXWAVxx letters values file`: defines the sound `xx` with its effects.
    fn exwav<P: Prompter>(&self, id_text: &str, args: &str, prompter: &P, objects: &mut WavObjects) -> (r:
        Result<(), ParseWarning>)
        ensures
            final(objects).notes@ == old(objects).notes@,
            final(objects).wav_files == old(objects).wav_files,
            final(objects).wavcmd_events == old(objects).wavcmd_events,
            match spec_exwav(args@) {
                None => r is Err && r->Err_0 is SyntaxError && final(objects).exwav_defs == old(objects).exwav_defs,
                Some((pan, volume, freq, file)) => {
                    &&& !spec_obj_id_text(id_text@) ==> r is Err && r->Err_0 is SyntaxError
                        && final(objects).exwav_defs == old(objects).exwav_defs
                    &&& spec_obj_id_text(id_text@) ==> exists|v: ExWavDef|
                        v.id == spec_obj_id_of(id_text@, self.case_sensitive_obj_id) && v.pan == pan
                            && v.volume == volume && v.frequency == freq && v.path@ == file
                            && spec_defined(
                            old(objects).exwav_defs,
                            final(objects).exwav_defs,
                            v.id,
                            v,
                            DefDuplication::ExWav { id: v.id },
                            *prompter,
                            r,
                        )
                },
            },
    {
        let ws = split_words(args);
        let ghost wv = ws@.map_values(|w: String| w@);
        if ws.len() == 0 {
            return Err(ParseWarning::SyntaxError(owned("expected parameters specified [pvf]")));
        }
        let ps = chars_of(ws[0].as_str());
        assert(ps@ == wv[0]);
        let mut pan: i64 = 0;
        let mut volume: i64 = 0;
        let mut freq: Option<u64> = None;
        let mut k: usize = 1;
        let mut i: usize = 0;
        assert(ps@.skip(0) =~= ps@);
        while i < ps.len()
            invariant
                i <= ps@.len(),
                1 <= k <= i + 1,
                ws@.len() == wv.len(),
                wv == ws@.map_values(|w: String| w@),
                wv == words(args@),
                wv.len() > 0,
                ps@ == wv[0],
                exwav_params(ps@, wv, 1, 0, 0, None) == exwav_params(ps@.skip(i as int), wv, k as int, pan, volume, freq),
            decreases ps@.len() - i,
        {
            let c = ps[i];
            assert(ps@.skip(i as int)[0] == c);
            assert(ps@.skip(i as int).drop_first() =~= ps@.skip(i + 1));
            if !(c == 'p' || c == 'v' || c == 'f') {
                return Err(ParseWarning::SyntaxError(owned("expected p, v or f")));
            }
            if k >= ws.len() {
                return Err(ParseWarning::SyntaxError(owned("expected a value")));
            }
            assert(wv[k as int] == ws@[k as int]@);
            if c == 'p' {
                match parse_i64(ws[k].as_str()) {
                    Some(v) => {
                        if !(-10000 <= v && v <= 10000) {
                            return Err(ParseWarning::SyntaxError(owned("expected pan value but out of range [-10000, 10000]")));
                        }
                        pan = v;
                    },
                    None => {
                        return Err(ParseWarning::SyntaxError(owned("expected integer")));
                    },
                }
            } else if c == 'v' {
                match parse_i64(ws[k].as_str()) {
                    Some(v) => {
                        if !(-10000 <= v && v <= 0) {
                            return Err(ParseWarning::SyntaxError(owned("expected volume value but out of range [-10000, 0]")));
                        }
                        volume = v;
                    },
                    None => {
                        return Err(ParseWarning::SyntaxError(owned("expected integer")));
                    },
                }
            } else {
                match parse_u64(ws[k].as_str()) {
                    Some(v) => {
                        if !(100 <= v && v <= 100000) {
                            return Err(ParseWarning::SyntaxError(owned("expected frequency value but out of range [100, 100000]")));
                        }
                        freq = Some(v);
                    },
                    None => {
                        return Err(ParseWarning::SyntaxError(owned("expected integer")));
                    },
                }
            }
            k += 1;
            i += 1;
        }
        assert(ps@.skip(ps@.len() as int) =~= Seq::<char>::empty());
        assert(exwav_params(ps@, wv, 1, 0, 0, None) == Some((pan, volume, freq, k as int)));
        if k >= ws.len() {
            assert(spec_exwav(args@) is None);
            return Err(ParseWarning::SyntaxError(owned("expected filename")));
        }
        assert(wv[k as int] == ws@[k as int]@);
        let path = ws[k].clone();
        assert(spec_exwav(args@) == Some((pan, volume, freq, path@)));
        let ghost file = path@;
        let id = ObjId::try_from(id_text, self.case_sensitive_obj_id)?;
        let def = ExWavDef { id, pan, volume, frequency: freq, path };
        let ghost v = def;
        let r = objects.exwav_defs.define(id, def, DefDuplication::ExWav { id }, prompter);
        assert(spec_defined(old(objects).exwav_defs, objects.exwav_defs, id, v, DefDuplication::ExWav { id }, *prompter, r));
        assert(v.id == spec_obj_id_of(id_text@, self.case_sensitive_obj_id) && v.pan == pan && v.volume == volume
            && v.frequency == freq && v.path@ == file);
        r
    }

    fn lnobj(&self, args: &str, objects: &mut WavObjects) -> (r: Result<(), ParseWarning>)
        ensures
            final(objects).wav_files == old(objects).wav_files,
            final(objects).exwav_defs == old(objects).exwav_defs,
            final(objects).wavcmd_events == old(objects).wavcmd_events,
            !spec_obj_id_text(args@) ==> r is Err && r->Err_0 is SyntaxError && final(objects).notes@ == old(objects).notes@,
            spec_obj_id_text(args@) ==> {
                let id = spec_obj_id_of(args@, self.case_sensitive_obj_id);
                let (ns, k) = spec_lnobj::<T>(old(objects).notes@, id);
                &&& final(objects).notes@ == ns
                &&& (r is Ok <==> k == 0)
                &&& (k == 1 ==> r == Err::<(), ParseWarning>(ParseWarning::UndefinedObject(id)))
                &&& (k == 2 ==> r is Err && r->Err_0 is SyntaxError)
            },
    {
        let end_id = ObjId::try_from(args, self.case_sensitive_obj_id)?;
        let ghost s = objects.notes@;
        let end_note = match objects.notes.pop_latest_of(end_id) {
            Some(n) => n,
            None => {
                return Err(ParseWarning::UndefinedObject(end_id));
            },
        };
        let ghost s1 = objects.notes@;
        let begin_idx = match objects.notes.latest_before(&end_note.offset, end_note.channel_id) {
            Some(i) => i,
            None => {
                return Err(ParseWarning::SyntaxError(owned("expected preceding object for #LNOBJ")));
            },
        };
        proof {
            crate::bms::model::lemma_latest_before_bounds(s1, end_note.offset, end_note.channel_id, s1.len() as int);
        }
        let begin_note = match objects.notes.pop_by_idx(begin_idx) {
            Some(n) => n,
            None => {
                return Err(ParseWarning::SyntaxError(owned("cannot find begin note for #LNOBJ")));
            },
        };
        proof {
            let e = last_with_id(s, end_id, s.len() as int)->0;
            assert(end_note == s[e]);
            assert(s1 == s.remove(e));
            assert(begin_note == s1[begin_idx as int]);
            assert(latest_before(s1, s[e].offset, s[e].channel_id, s1.len() as int) == Some(begin_idx as int));
        }
        let long_begin = match as_long::<T>(begin_note) {
            Some(n) => n,
            None => {
                return Err(ParseWarning::SyntaxError(owned("channel of specified note for LNOBJ cannot become LN")));
            },
        };
        objects.notes.push_note(long_begin);
        let long_end = match as_long::<T>(end_note) {
            Some(n) => n,
            None => {
                return Err(ParseWarning::SyntaxError(owned("channel of specified note for LNOBJ cannot become LN")));
            },
        };
        objects.notes.push_note(long_end);
        Ok(())
    }

    /// Applies one header: `#WAVxx file` defines a sound (the file not empty); `#LNOBJ id`
    /// turns the last note of `id` and the note before it on its channel into a long note.
    pub fn on_header<P: Prompter>(
        &self,
        name: &str,
        args: &str,
        prompter: &P,
        objects: &mut WavObjects,
    ) -> (r: Result<(), ParseWarning>)
        ensures
            header_applied::<T, P>(self.case_sensitive_obj_id, name@, args@, *prompter, *old(objects), *final(objects), r),
    {
        proof {
            reveal_strlit("WAV");
            reveal_strlit("LNOBJ");
            reveal_strlit("WAVCMD");
            reveal_strlit("EXWAV");
            if spec_strip_prefix_ignore_case(name@, "WAV"@) is Some {
                lemma_prefix_char(name@, "WAV"@, 0);
                if eq_ignore_case(name@, "LNOBJ"@) {
                    assert(upper(name@[0]) == upper("LNOBJ"@[0]));
                }
            }
            if spec_strip_prefix_ignore_case(name@, "EXWAV"@) is Some {
                lemma_prefix_char(name@, "EXWAV"@, 0);
                if eq_ignore_case(name@, "LNOBJ"@) {
                    assert(upper(name@[0]) == upper("LNOBJ"@[0]));
                }
                if eq_ignore_case(name@, "WAVCMD"@) {
                    assert(upper(name@[0]) == upper("WAVCMD"@[0]));
                }
            }
            if eq_ignore_case(name@, "WAVCMD"@) {
                assert(upper(name@[0]) == upper("WAVCMD"@[0]));
                if eq_ignore_case(name@, "LNOBJ"@) {
                    assert(upper(name@[0]) == upper("LNOBJ"@[0]));
                }
            }
        }
        if eq_ignore_ascii_case(name, "WAVCMD") {
            return self.wavcmd(args, prompter, objects);
        }
        if let Some(id_text) = strip_prefix_ignore_case(name, "EXWAV") {
            return self.exwav(id_text.as_str(), args, prompter, objects);
        }
        if let Some(id_text) = strip_prefix_ignore_case(name, "WAV") {
            if is_empty_text(args) {
                return Err(ParseWarning::SyntaxError(owned("expected key audio filename")));
            }
            let id = ObjId::try_from(id_text.as_str(), self.case_sensitive_obj_id)?;
            let file = owned(args);
            let ghost v = file;
            let r = objects.wav_files.define(id, file, DefDuplication::Wav { id }, prompter);
            assert(spec_defined(old(objects).wav_files, objects.wav_files, id, v, DefDuplication::Wav { id }, *prompter, r));
            return r;
        }
        if eq_ignore_ascii_case(name, "LNOBJ") {
            return self.lnobj(args, objects);
        }
        Ok(())
    }

    /// Applies one message: on the background music channel and the note channels each id
    /// is an object at its position, added in order. Returns the warnings of pairs that are
    /// no ids.
    pub fn on_message(
        &self,
        track: Track,
        channel: Channel,
        message: &str,
        objects: &mut WavObjects,
    ) -> (r: Result<Vec<ParseWarning>, ParseWarning>)
        ensures
            message_applied(self.case_sensitive_obj_id, track, channel, message@, *old(objects), *final(objects), r),
    {
        let (pairs, warnings) = match channel {
            Channel::Bgm | Channel::Note { .. } => parse_obj_ids(track.0, message, self.case_sensitive_obj_id),
            _ => {
                return Ok(Vec::new());
            },
        };
        let channel_id = match channel {
            Channel::Note { channel_id } => channel_id,
            _ => NoteChannelId::bgm(),
        };
        let ghost before = objects.notes@;
        let mut i: usize = 0;
        while i < pairs.len()
            invariant
                i <= pairs@.len(),
                objects.wav_files == old(objects).wav_files,
                objects.exwav_defs == old(objects).exwav_defs,
                objects.wavcmd_events == old(objects).wavcmd_events,
                objects.notes@ == before + notes_of(pairs@.take(i as int), channel_id),
            decreases pairs@.len() - i,
        {
            let (time, id) = pairs[i];
            objects.notes.push_note(WavObj { offset: time, channel_id, wav_id: id });
            assert(notes_of(pairs@.take(i + 1), channel_id) =~= notes_of(pairs@.take(i as int), channel_id).push(
                WavObj { offset: time, channel_id, wav_id: id },
            ));
            i += 1;
        }
        assert(pairs@.take(pairs@.len() as int) =~= pairs@);
        Ok(warnings)
    }
}

impl<T: KeyLayoutMapper, P: Prompter> TokenProcessor<P> for WavProcessor<T> {
    type Output = WavObjects;

    open spec fn outcome(
        &self,
        tokens: Seq<TokenWithRange>,
        prompter: P,
        r: Result<(WavObjects, Vec<ParseWarningWithRange>), ParseErrorWithRange>,
    ) -> bool {
        r matches Ok((o, ws)) && processed::<T, P>(self.case_sensitive_obj_id, tokens, prompter, o, ws@)
    }

    fn process(&self, tokens: &[TokenWithRange], prompter: &P) -> (r: Result<
        (WavObjects, Vec<ParseWarningWithRange>),
        ParseErrorWithRange,
    >)
        ensures
            r matches Ok((o, ws)) && processed::<T, P>(self.case_sensitive_obj_id, tokens@, *prompter, o, ws@),
    {
        let mut objects = WavObjects::new();
        let mut warnings: Vec<ParseWarningWithRange> = Vec::new();
        let ghost mut states: Seq<WavObjects> = seq![objects];
        let ghost mut wss: Seq<Seq<ParseWarning>> = Seq::empty();
        let mut i: usize = 0;
        while i < tokens.len()
            invariant
                i <= tokens@.len(),
                states.len() == i + 1,
                wss.len() == i,
                fresh(states[0]),
                states.last() == objects,
                forall|j: int|
                    0 <= j < i ==> token_step::<T, P>(self.case_sensitive_obj_id, #[trigger] tokens@[j].content, *prompter, states[j], states[j + 1], wss[j]),
                warnings@ == placed_warnings(tokens@, wss, i as int),
            decreases tokens@.len() - i,
        {
            let ghost before = objects;
            let ws: Vec<ParseWarning> = match &tokens[i].content {
                Token::Header { name, args } => {
                    let r = self.on_header(name.as_str(), args.as_str(), prompter, &mut objects);
                    let ws = match r {
                        Ok(()) => Vec::new(),
                        Err(w) => vec![w],
                    };
                    assert(ws@ =~= header_warnings(r));
                    ws
                },
                Token::Message { track, channel, message } => {
                    let r = self.on_message(*track, *channel, message.as_str(), &mut objects);
                    let ghost rr = r;
                    let ws = match r {
                        Ok(ws) => ws,
                        Err(w) => vec![w],
                    };
                    assert(ws@ =~= message_warnings(rr));
                    ws
                },
                Token::NotACommand(_) => Vec::new(),
            };
            assert(token_step::<T, P>(self.case_sensitive_obj_id, tokens@[i as int].content, *prompter, before, objects, ws@));
            let g = add_placed(&mut warnings, ws, tokens[i].range, Ghost(tokens@), Ghost(wss), Ghost(i as int));
            proof {
                wss = g@;
                states = states.push(objects);
            }
            i += 1;
        }
        Ok((objects, warnings))
    }
}

} // verus!
