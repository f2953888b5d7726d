use bms_rs::bms::command::{NoteChannelId, ObjId, ObjTime, PoorMode};
use bms_rs::bms::error::{ParseError, SourceRange};
use bms_rs::bms::layout::KeyLayoutBeat;
use bms_rs::bms::lex::{Token, TokenWithRange};
use bms_rs::bms::model::ControlFlowValue;
use bms_rs::bms::model::{Notes, WavObj};
use bms_rs::bms::objects::{BmpObjects, BpmObjects, StopObjects, WavCmdEvent, WavCmdParam, WavObjects};
use bms_rs::bms::parse::random::{open_random_drawn, Collector, ProcessState, RandomTokenProcessor};
use bms_rs::bms::parse::token_processor::all::BmsTokenProcessor;
use bms_rs::bms::parse::token_processor::bmp::BmpProcessor;
use bms_rs::bms::parse::token_processor::bpm::BpmProcessor;
use bms_rs::bms::parse::token_processor::stop::StopProcessor;
use bms_rs::bms::parse::token_processor::wav::WavProcessor;
use bms_rs::bms::unparse::headers::{exwav_to_text, wavcmd_to_text};
use bms_rs::bms::prompt::AlwaysUseOlder;
use bms_rs::bms::rng::{pick_in_range, RngMock};
use bms_rs::chart::process::{event_for_note, notes_bgms, NoteEvent};
use bms_rs::chart::types::{Key, NoteKind, PlayerSide};

fn header(name: &str, args: &str, at: usize) -> TokenWithRange {
    TokenWithRange {
        content: Token::Header { name: name.to_string(), args: args.to_string() },
        range: SourceRange { start: at, end: at + 1 },
    }
}

fn random_tokens() -> Vec<TokenWithRange> {
    vec![
        header("RANDOM", "2", 0),
        header("IF", "1", 1),
        header("TITLE", "A", 2),
        header("ENDIF", "", 3),
        header("IF", "2", 4),
        header("TITLE", "B", 5),
        header("ENDIF", "", 6),
        header("ENDRANDOM", "", 7),
    ]
}

#[test]
fn random_takes_the_branch_of_the_drawn_number() {
    let p = RandomTokenProcessor::new(BmsTokenProcessor::<KeyLayoutBeat>::new());
    let mut rng = RngMock([2]);
    let (bms, nested, warnings) = p.process(&mut rng, &random_tokens(), &AlwaysUseOlder).unwrap();
    assert_eq!(bms.music_info.title.as_deref(), Some("B"));
    assert!(warnings.is_empty());
    assert_eq!(nested.len(), 1);
    assert_eq!(nested[0].generating, Some(ControlFlowValue::GenMax(2)));
    let keys: Vec<u64> = nested[0].branches.keys().copied().collect();
    assert_eq!(keys, vec![1, 2]);
}

#[test]
fn random_draw_selects_first_branch() {
    let p = RandomTokenProcessor::new(BmsTokenProcessor::<KeyLayoutBeat>::new());
    let mut rng = RngMock([1]);
    let sel = p.select(&mut rng, &random_tokens(), &AlwaysUseOlder).unwrap();
    assert_eq!(sel.draws, vec![1]);
    let (bms, _, _) = p.process(&mut RngMock([1]), &random_tokens(), &AlwaysUseOlder).unwrap();
    assert_eq!(bms.music_info.title.as_deref(), Some("A"));
}

#[test]
fn random_draw_out_of_range_is_an_error() {
    let p = RandomTokenProcessor::new(BmsTokenProcessor::<KeyLayoutBeat>::new());
    let mut rng = RngMock([3]);
    let err = p.process(&mut rng, &random_tokens(), &AlwaysUseOlder).err().unwrap();
    assert_eq!(err.error, ParseError::RandomGeneratedValueOutOfRange { start: 1, end: 2, actual: 3 });
    assert_eq!(err.range, SourceRange { start: 0, end: 1 });
}

#[test]
fn unmatched_endif_is_an_error() {
    let p = RandomTokenProcessor::new(BmsTokenProcessor::<KeyLayoutBeat>::new());
    let tokens = vec![header("ENDIF", "", 0)];
    assert!(p.process(&mut RngMock([1]), &tokens, &AlwaysUseOlder).is_err());
}

#[test]
fn no_control_command_hands_every_token_on() {
    let p = RandomTokenProcessor::new(BmsTokenProcessor::<KeyLayoutBeat>::new());
    let tokens = vec![header("TITLE", "Plain", 0)];
    let sel = p.select(&mut RngMock([1]), &tokens, &AlwaysUseOlder).unwrap();
    assert_eq!(sel.activated.len(), 1);
    assert!(sel.draws.is_empty());
    let (bms, nested, _) = p.process(&mut RngMock([1]), &tokens, &AlwaysUseOlder).unwrap();
    assert_eq!(bms.music_info.title.as_deref(), Some("Plain"));
    assert!(nested.is_empty());
}

#[test]
fn open_random_drawn_keeps_the_stack_on_error() {
    let mut stack = vec![ProcessState::Root];
    let mut collector = Collector::new();
    let range = SourceRange { start: 4, end: 5 };
    let err = open_random_drawn(2, 5, &mut stack, &mut collector, range).err().unwrap();
    assert_eq!(err.error, ParseError::RandomGeneratedValueOutOfRange { start: 1, end: 2, actual: 5 });
    assert_eq!(stack, vec![ProcessState::Root]);
    assert!(open_random_drawn(2, 2, &mut stack, &mut collector, range).is_ok());
    assert_eq!(stack, vec![ProcessState::Root, ProcessState::Random { generated: 2, activated: true }]);
}

#[test]
fn pick_in_range_stays_in_range() {
    assert_eq!(pick_in_range(1, 6, 13), 2);
    assert_eq!(pick_in_range(5, 5, 99), 5);
    assert_eq!(pick_in_range(0, u64::MAX, 7), 7);
    assert_eq!(pick_in_range(10, 12, 4), 11);
}

#[test]
fn stp_takes_position_and_milliseconds() {
    let p = StopProcessor::new(false);
    let mut objects = StopObjects::new();
    assert!(p.on_header("STP", "001.500 1000", &AlwaysUseOlder, &mut objects).is_ok());
    let entries = objects.stp_events.entries();
    assert_eq!(entries.len(), 1);
    let ev = &entries[0].2;
    assert_eq!(ev.duration_ms, 1000);
    assert_eq!(ev.time, ObjTime::new(1, 500, 1000).unwrap());
    let mut again = StopObjects::new();
    assert!(p.on_header("STP", "001.500 7 1000", &AlwaysUseOlder, &mut again).is_err());
}

#[test]
fn bgapoor_sets_the_miss_picture_mode() {
    let p = BmpProcessor::new(false);
    let mut objects = BmpObjects::new();
    assert!(p.on_header("BGAPOOR", "2", &AlwaysUseOlder, &mut objects).is_ok());
    assert_eq!(objects.poor_bga_mode, PoorMode::Hidden);
    assert!(p.on_header("POORBGA", "1", &AlwaysUseOlder, &mut objects).is_ok());
    assert_eq!(objects.poor_bga_mode, PoorMode::Overlay);
}

#[test]
fn bpm_header_sets_the_starting_tempo() {
    let p = BpmProcessor::new(false);
    let mut objects = BpmObjects::new();
    assert!(p.on_header("BPM", "120", &AlwaysUseOlder, &mut objects).is_ok());
    assert_eq!(objects.bpm.as_ref().map(|v| v.raw()), Some("120"));
    assert!(objects.bpm_defs.get_at(0).is_none());
    assert!(p.on_header("bpm", "fast", &AlwaysUseOlder, &mut objects).is_err());
    assert_eq!(objects.bpm.as_ref().map(|v| v.raw()), Some("120"));
    assert!(p.on_header("BPM01", "150", &AlwaysUseOlder, &mut objects).is_ok());
    assert!(objects.bpm_defs.get_at(1).is_some());
}

#[test]
fn background_notes_include_channel_01() {
    let mut notes = Notes::new();
    let at = ObjTime::new(0, 0, 1).unwrap();
    let id = ObjId::from_u16(1).unwrap();
    notes.push_note(WavObj { offset: at, channel_id: NoteChannelId::bgm(), wav_id: id });
    notes.push_note(WavObj { offset: at, channel_id: NoteChannelId::from_bytes(b'1', b'1'), wav_id: id });
    let bgms = notes_bgms::<KeyLayoutBeat>(&notes);
    assert_eq!(bgms.len(), 1);
    assert_eq!(bgms[0].channel_id, NoteChannelId::bgm());
}

#[test]
fn note_event_of_long_note_ends_at_next_note() {
    let mut notes = Notes::new();
    let id = ObjId::from_u16(2).unwrap();
    let start = ObjTime::new(0, 0, 1).unwrap();
    let end = ObjTime::new(0, 1, 2).unwrap();
    let ln = NoteChannelId::from_bytes(b'5', b'1');
    let first = WavObj { offset: start, channel_id: ln, wav_id: id };
    notes.push_note(first);
    notes.push_note(WavObj { offset: end, channel_id: ln, wav_id: id });
    let bgm = WavObj { offset: start, channel_id: NoteChannelId::bgm(), wav_id: id };
    notes.push_note(bgm);
    assert_eq!(
        event_for_note::<KeyLayoutBeat>(&notes, &first),
        NoteEvent::Note {
            side: PlayerSide::Player1,
            key: Key::Key(1),
            kind: NoteKind::Long,
            wav_id: id,
            end: Some(end),
        }
    );
    assert_eq!(event_for_note::<KeyLayoutBeat>(&notes, &bgm), NoteEvent::Bgm { wav_id: id });
}

#[test]
fn exwav_defines_a_sound_with_effects() {
    let p = WavProcessor::<KeyLayoutBeat>::new(false);
    let mut objects = WavObjects::new();
    assert!(p.on_header("EXWAV01", "pvf -500 -200 22050 a.wav", &AlwaysUseOlder, &mut objects).is_ok());
    let def = objects.exwav_defs.get_at(1).unwrap();
    assert_eq!((def.pan, def.volume, def.frequency), (-500, -200, Some(22050)));
    assert_eq!(def.path, "a.wav");
    assert_eq!(exwav_to_text(def), "pvf -500 -200 22050 a.wav");
    assert!(p.on_header("EXWAV02", "v -300 b.wav", &AlwaysUseOlder, &mut objects).is_ok());
    let def = objects.exwav_defs.get_at(2).unwrap();
    assert_eq!((def.pan, def.volume, def.frequency), (0, -300, None));
    assert_eq!(exwav_to_text(def), "pv 0 -300 b.wav");
    assert!(p.on_header("EXWAV03", "p 20000 c.wav", &AlwaysUseOlder, &mut objects).is_err());
    assert!(p.on_header("EXWAV03", "x 1 c.wav", &AlwaysUseOlder, &mut objects).is_err());
    assert!(p.on_header("EXWAV03", "p 1", &AlwaysUseOlder, &mut objects).is_err());
    assert!(objects.exwav_defs.get_at(3).is_none());
}

#[test]
fn wavcmd_records_an_effect() {
    let p = WavProcessor::<KeyLayoutBeat>::new(false);
    let mut objects = WavObjects::new();
    assert!(p.on_header("WAVCMD", "00 01 60", &AlwaysUseOlder, &mut objects).is_ok());
    let ev = objects.wavcmd_events.get_at(1).unwrap();
    assert_eq!(*ev, WavCmdEvent { param: WavCmdParam::Pitch, wav_index: ObjId::from_u16(1).unwrap(), value: 60 });
    assert_eq!(wavcmd_to_text(ev), "00 01 60");
    assert!(p.on_header("WAVCMD", "00 02 200", &AlwaysUseOlder, &mut objects).is_err());
    assert!(p.on_header("WAVCMD", "03 02 1", &AlwaysUseOlder, &mut objects).is_err());
    assert!(objects.wav_files.get_at(1).is_none());
}
