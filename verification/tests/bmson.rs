use bms_rs::bms::command::{JudgeLevel, LnMode, NoteChannelId, ObjId, ObjTime, StringValue, Track};
use bms_rs::bms::model::{Bms, WavObj};
use bms_rs::bms::objects::{BgaObj, Bmp, BpmChangeObj, ScrollingFactorObj, StopObj};
use bms_rs::bms::prompt::AlwaysUseNewer;
use bms_rs::bms::command::Channel;
use bms_rs::bmson::convert::{
    convert_lane_to_key_side, convert_pulse_to_obj_time, create_obj_id_from_u16, BmsToBmsonWarning,
    BmsonToBmsWarning, ObjIdIssuer,
};
use bms_rs::bmson::pulse::{PulseConverter, PulseNumber};
use bms_rs::bmson::to_bms::convert_judge_rank;
use bms_rs::bmson::to_bmson::{join_path, judge_rank_of, lane_of_note, last_track, mode_hint_of};
use bms_rs::bmson::{
    default_mode_hint, default_resolution, Bga, BgaEvent, BgaHeader, BgaId, Bmson, BmsonInfo,
    BpmEvent, JudgeRank, KeyChannel, KeyEvent, MineChannel, MineEvent, Note, ScrollEvent,
    SoundChannel, StopEvent,
};
use bms_rs::chart::types::{Argb, BgaLayer, Key, PlayerSide};

fn id(v: u16) -> ObjId {
    ObjId::from_u16(v).unwrap()
}

fn time(track: u64, num: u64, den: u64) -> ObjTime {
    ObjTime::new(track, num, den).unwrap()
}

#[test]
fn pulse_conversion() {
    // Tracks of 1.0, 0.75 and 1.25 measures are 4, 3 and 5 quarter notes; one pulse a quarter.
    let converter = PulseConverter::new(&vec![4, 3, 5], 1);

    assert_eq!(converter.resolution(), 1);

    assert_eq!(converter.get_pulses_at(ObjTime::start_of(Track(0))).0, 0);
    assert_eq!(converter.get_pulses_at(time(0, 2, 4)).0, 2);
    assert_eq!(converter.get_pulses_at(ObjTime::start_of(Track(1))).0, 4);
    assert_eq!(converter.get_pulses_at(time(1, 2, 4)).0, 6);
    assert_eq!(converter.get_pulses_at(ObjTime::start_of(Track(2))).0, 7);
    assert_eq!(converter.get_pulses_at(time(2, 2, 4)).0, 9);
    assert_eq!(converter.get_pulses_at(ObjTime::start_of(Track(3))).0, 12);
}

#[test]
fn pulses_past_the_last_track_stay_at_its_end() {
    let converter = PulseConverter::new(&vec![4], 240);
    assert_eq!(converter.get_pulses_on(Track(1)).0, 960);
    assert_eq!(converter.get_pulses_on(Track(5)).0, 960);
}

#[test]
fn pulse_numbers() {
    assert_eq!(PulseNumber(10).abs_diff(PulseNumber(4)), 6);
    assert_eq!(PulseNumber(4).abs_diff(PulseNumber(10)), 6);
    assert_eq!(PulseNumber(7).value(), 7);
}

#[test]
fn bmson_defaults() {
    assert_eq!(default_mode_hint(), "beat-7k");
    assert_eq!(default_resolution(), 240);
}

#[test]
fn object_ids_from_numbers() {
    assert_eq!(create_obj_id_from_u16(1), Some(id(1)));
    assert_eq!(create_obj_id_from_u16(62).unwrap().to_chars(), ['1', '0']);
    assert_eq!(create_obj_id_from_u16(3843).unwrap().to_chars(), ['z', 'z']);
    assert_eq!(create_obj_id_from_u16(3844), None);
}

#[test]
fn issuer_runs_out_after_the_last_id() {
    let mut issuer = ObjIdIssuer::new();
    assert_eq!(issuer.next(), Some(id(1)));
    let mut last = None;
    for _ in 1..3843 {
        last = issuer.next();
    }
    assert_eq!(last, Some(id(3843)));
    assert_eq!(issuer.next(), None);
    assert_eq!(issuer.next(), None);
}

#[test]
fn pulses_to_positions() {
    let t = convert_pulse_to_obj_time(PulseNumber(1200), 240);
    assert_eq!(t.track(), Track(1));
    assert_eq!(t.numerator(), 240);
    assert_eq!(t.denominator(), 960);
}

#[test]
fn lanes_to_keys() {
    assert_eq!(convert_lane_to_key_side(1), (Key::Key(1), PlayerSide::Player1));
    assert_eq!(convert_lane_to_key_side(8), (Key::Scratch(1), PlayerSide::Player1));
    assert_eq!(convert_lane_to_key_side(9), (Key::Key(1), PlayerSide::Player2));
    assert_eq!(convert_lane_to_key_side(16), (Key::Scratch(1), PlayerSide::Player2));
    assert_eq!(convert_lane_to_key_side(0), (Key::Key(1), PlayerSide::Player1));
}

#[test]
fn judge_rank_ratios() {
    assert_eq!(convert_judge_rank(JudgeRank { numerator: 1, denominator: 1 }), 18);
    assert_eq!(convert_judge_rank(JudgeRank { numerator: 7, denominator: 6 }), 21);
    assert_eq!(convert_judge_rank(JudgeRank { numerator: -1, denominator: 4 }), -4);
    assert_eq!(convert_judge_rank(JudgeRank { numerator: i64::MAX, denominator: 1 }), i64::MAX);
    assert_eq!(judge_rank_of(Some(JudgeLevel::Easy)), JudgeRank { numerator: 21, denominator: 18 });
    assert_eq!(judge_rank_of(Some(JudgeLevel::OtherInt(4))), JudgeRank { numerator: 105, denominator: 72 });
    assert_eq!(judge_rank_of(None), JudgeRank { numerator: 1, denominator: 1 });
    assert_eq!(judge_rank_of(Some(JudgeLevel::VeryHard)), JudgeRank { numerator: 8, denominator: 18 });
}

#[test]
fn joining_paths() {
    assert_eq!(join_path("", "a.wav"), "a.wav");
    assert_eq!(join_path("snd", "a.wav"), "snd/a.wav");
    assert_eq!(join_path("snd/", "a.wav"), "snd/a.wav");
    assert_eq!(join_path("snd", "/abs.wav"), "/abs.wav");
}

fn note(track: u64, num: u64, den: u64, a: u8, b: u8, wav: u16) -> WavObj {
    WavObj { offset: time(track, num, den), channel_id: NoteChannelId::from_bytes(a, b), wav_id: id(wav) }
}

#[test]
fn mode_hints_and_lanes() {
    assert_eq!(mode_hint_of(&[note(0, 0, 1, b'1', b'1', 1)]), "beat-5k");
    assert_eq!(mode_hint_of(&[note(0, 0, 1, b'1', b'8', 1)]), "beat-7k");
    assert_eq!(mode_hint_of(&[note(0, 0, 1, b'2', b'1', 1)]), "beat-10k");
    assert_eq!(mode_hint_of(&[note(0, 0, 1, b'2', b'9', 1), note(0, 0, 1, b'1', b'1', 1)]), "beat-14k");
    assert_eq!(lane_of_note(NoteChannelId::from_bytes(b'1', b'1')), 1);
    assert_eq!(lane_of_note(NoteChannelId::from_bytes(b'1', b'6')), 8);
    assert_eq!(lane_of_note(NoteChannelId::from_bytes(b'2', b'2')), 10);
    assert_eq!(lane_of_note(NoteChannelId::from_bytes(b'3', b'1')), 0);
}

fn info(resolution: u64) -> BmsonInfo {
    BmsonInfo {
        title: "Song".to_string(),
        subtitle: "sub".to_string(),
        artist: "Artist".to_string(),
        subartists: vec!["Other".to_string()],
        genre: "Genre".to_string(),
        mode_hint: "beat-7k".to_string(),
        chart_name: "HYPER".to_string(),
        level: 300,
        init_bpm: StringValue::new("150"),
        judge_rank: JudgeRank { numerator: 1, denominator: 1 },
        total: StringValue::new("200"),
        back_image: Some("back.png".to_string()),
        eyecatch_image: None,
        title_image: None,
        banner_image: Some("banner.png".to_string()),
        preview_music: None,
        resolution,
        ln_type: LnMode::Ln,
    }
}

fn chart() -> Bmson {
    Bmson {
        version: "1.0.0".to_string(),
        info: info(240),
        lines: None,
        bpm_events: vec![BpmEvent { y: PulseNumber(480), bpm: StringValue::new("180") }],
        stop_events: vec![StopEvent { y: PulseNumber(960), duration: 120 }],
        sound_channels: vec![SoundChannel {
            name: "a.wav".to_string(),
            notes: vec![
                Note { y: PulseNumber(0), x: 1, l: 0, c: false, t: None, up: None },
                Note { y: PulseNumber(240), x: 9, l: 480, c: false, t: None, up: None },
            ],
        }],
        bga: Bga {
            bga_header: vec![BgaHeader { id: BgaId(5), name: "bg.png".to_string() }],
            bga_events: vec![BgaEvent { y: PulseNumber(0), id: BgaId(5) }],
            layer_events: vec![BgaEvent { y: PulseNumber(0), id: BgaId(7) }],
            poor_events: vec![],
        },
        scroll_events: vec![ScrollEvent { y: PulseNumber(0), rate: StringValue::new("0.5") }],
        mine_channels: vec![MineChannel {
            name: "mine.wav".to_string(),
            notes: vec![MineEvent { x: 2, y: PulseNumber(960), damage: StringValue::new("10") }],
        }],
        key_channels: vec![KeyChannel {
            name: "key.wav".to_string(),
            notes: vec![KeyEvent { x: 3, y: PulseNumber(1920) }],
        }],
    }
}

#[test]
fn bmson_to_bms_reads_header_and_events() {
    let out = Bms::from_bmson(chart());
    let bms = &out.bms;
    assert_eq!(bms.music_info.title.as_deref(), Some("Song"));
    assert_eq!(bms.music_info.sub_artist.as_deref(), Some("Other"));
    assert_eq!(bms.metadata.play_level, Some(44));
    assert_eq!(bms.judge.rank, Some(JudgeLevel::OtherInt(18)));
    assert_eq!(bms.judge.total.as_ref().map(|t| t.raw().to_string()), Some("200".to_string()));
    assert_eq!(bms.bpm.bpm.as_ref().map(|b| b.raw().to_string()), Some("150".to_string()));
    assert_eq!(bms.sprite.back_bmp.as_deref(), Some("back.png"));
    assert_eq!(bms.sprite.banner.as_deref(), Some("banner.png"));
    let sections = bms.section_len.section_len_changes.entries();
    assert_eq!(sections.len(), 1);
    assert_eq!(sections[0].2.length.raw(), "240");

    assert_eq!(bms.bpm.bpm_defs.get(&id(1)).map(|v| v.raw()), Some("180"));
    let changes = bms.bpm.bpm_changes.entries();
    assert_eq!(changes.len(), 1);
    assert!(changes[0].0.same(&time(0, 480, 960)));
    assert_eq!(bms.stop.stop_defs.get(&id(1)).map(|v| v.raw()), Some("120"));
    assert_eq!(bms.stop.stops.len(), 1);
    assert!(bms.stop.stops[0].time.same(&time(1, 0, 960)));
    assert_eq!(bms.scroll.scroll_defs.get(&id(1)).map(|v| v.raw()), Some("0.5"));

    assert_eq!(bms.wav.wav_files.get(&id(1)).map(|s| s.as_str()), Some("a.wav"));
    assert_eq!(bms.wav.wav_files.get(&id(2)).map(|s| s.as_str()), Some("mine.wav"));
    assert_eq!(bms.wav.wav_files.get(&id(3)).map(|s| s.as_str()), Some("key.wav"));
    let notes = bms.wav.notes.all_notes();
    assert_eq!(notes.len(), 4);
    assert_eq!(notes[0].channel_id, NoteChannelId::from_bytes(b'1', b'1'));
    assert_eq!(notes[0].wav_id, id(1));
    // Lane 9 is key 1 of the second player; a length makes it a long note.
    assert_eq!(notes[1].channel_id, NoteChannelId::from_bytes(b'6', b'1'));
    assert!(notes[1].offset.same(&time(0, 240, 960)));
    assert_eq!(notes[2].channel_id, NoteChannelId::from_bytes(b'D', b'2'));
    assert_eq!(notes[2].wav_id, id(2));
    assert_eq!(notes[3].channel_id, NoteChannelId::from_bytes(b'3', b'3'));
    assert!(notes[3].offset.same(&time(2, 0, 960)));

    assert_eq!(
        bms.bmp.bmp_files.get(&id(1)),
        Some(&Bmp { file: "bg.png".to_string(), transparent_color: Argb::default() })
    );
    let bga = bms.bmp.bga_changes.entries();
    assert_eq!(bga.len(), 2);
    assert_eq!(bga[0].2.id, id(1));
    assert_eq!(bga[0].2.layer, BgaLayer::Base);
    assert_eq!(bga[1].2.id, ObjId::null());
    assert_eq!(bga[1].2.layer, BgaLayer::Overlay);

    assert_eq!(out.warnings, vec![BmsonToBmsWarning::BgaEventObjIdOutOfRange]);
    assert!(out.playing_warnings.is_empty());
    assert!(out.playing_errors.is_empty());
}

#[test]
fn bmson_to_bms_warns_when_ids_run_out() {
    let mut c = chart();
    c.bpm_events = (0..3845u64)
        .map(|i| BpmEvent { y: PulseNumber(i), bpm: StringValue::new("120") })
        .collect();
    let out = Bms::from_bmson(c);
    let overflow: Vec<_> = out
        .warnings
        .iter()
        .filter(|w| **w == BmsonToBmsWarning::BpmDefOutOfRange)
        .collect();
    assert_eq!(overflow.len(), 2);
    assert_eq!(out.warnings[0], BmsonToBmsWarning::BpmDefOutOfRange);
    assert_eq!(out.bms.bpm.bpm_defs.get(&ObjId::null()).map(|v| v.raw()), Some("120"));
}

#[test]
fn empty_bmson_has_no_notes() {
    let mut c = chart();
    c.sound_channels.clear();
    c.mine_channels.clear();
    c.key_channels.clear();
    let out = Bms::from_bmson(c);
    assert!(out.bms.wav.notes.is_empty());
    assert_eq!(out.playing_errors.len(), 1);
}

fn score() -> Bms {
    let mut bms = Bms::default();
    bms.music_info.title = Some("Song".to_string());
    bms.metadata.play_level = Some(7);
    bms.metadata.wav_path_root = Some("snd".to_string());
    bms.judge.rank = Some(JudgeLevel::Hard);
    bms.bpm.bpm = Some(StringValue::new("150"));
    bms.wav.wav_files.insert(id(1), "a.wav".to_string());
    bms.wav.wav_files.insert(id(2), "mine.wav".to_string());
    // A long note from the start to the middle of track 0, a normal note and a landmine.
    bms.wav.notes.push_note(note(0, 0, 1, b'5', b'1', 1));
    bms.wav.notes.push_note(note(0, 1, 2, b'5', b'1', 1));
    bms.wav.notes.push_note(note(0, 1, 4, b'1', b'2', 1));
    bms.wav.notes.push_note(note(0, 3, 4, b'D', b'3', 2));
    let _ = bms.bpm.bpm_changes.push(
        time(0, 1, 2),
        0,
        BpmChangeObj { time: time(0, 1, 2), bpm: StringValue::new("-1") },
        Channel::BpmChange,
        &AlwaysUseNewer,
    );
    bms.stop.stops.push(StopObj { time: time(0, 1, 4), duration: StringValue::new("1.5") });
    bms.stop.stops.push(StopObj { time: time(0, 1, 4), duration: StringValue::new("-2") });
    let _ = bms.scroll.scrolling_factor_changes.push(
        time(0, 0, 1),
        0,
        ScrollingFactorObj { time: time(0, 0, 1), factor: StringValue::new("abc") },
        Channel::Scroll,
        &AlwaysUseNewer,
    );
    bms.bmp.bmp_files.insert(id(3), Bmp { file: "bg.png".to_string(), transparent_color: Argb::default() });
    let _ = bms.bmp.bga_changes.push(
        time(0, 0, 1),
        1,
        BgaObj { time: time(0, 0, 1), id: id(3), layer: BgaLayer::Poor },
        Channel::BgaPoor,
        &AlwaysUseNewer,
    );
    bms
}

#[test]
fn bms_to_bmson_writes_chart() {
    let bms = score();
    let converter = PulseConverter::new(&vec![4], 240);
    let out = bms.to_bmson(&converter, 0);
    let b = &out.bmson;
    assert_eq!(b.version, "1.0.0");
    assert_eq!(b.info.title, "Song");
    assert_eq!(b.info.subtitle, "");
    assert_eq!(b.info.subartists, vec![String::new()]);
    assert_eq!(b.info.mode_hint, "beat-5k");
    assert_eq!(b.info.level, 7);
    assert_eq!(b.info.init_bpm.raw(), "150");
    assert_eq!(b.info.total.raw(), "100");
    assert_eq!(b.info.judge_rank, JudgeRank { numerator: 15, denominator: 18 });
    assert_eq!(b.info.resolution, 240);
    assert_eq!(b.lines.as_ref().map(|l| l.len()), Some(1));

    assert_eq!(b.bpm_events.len(), 1);
    assert_eq!(b.bpm_events[0].y, PulseNumber(480));
    assert_eq!(b.bpm_events[0].bpm.raw(), "120");
    assert_eq!(b.stop_events, vec![StopEvent { y: PulseNumber(240), duration: 1 }]);
    assert!(b.scroll_events.is_empty());

    assert_eq!(b.sound_channels.len(), 1);
    assert_eq!(b.sound_channels[0].name, "snd/a.wav");
    let notes = &b.sound_channels[0].notes;
    assert_eq!(notes.len(), 3);
    assert_eq!((notes[0].y, notes[0].x, notes[0].l), (PulseNumber(0), 1, 480));
    assert_eq!((notes[1].y, notes[1].l), (PulseNumber(480), 0));
    assert_eq!((notes[2].y, notes[2].x, notes[2].l), (PulseNumber(240), 2, 0));
    assert_eq!(notes[0].t, Some(LnMode::Ln));
    assert_eq!(b.mine_channels.len(), 1);
    assert_eq!(b.mine_channels[0].name, "snd/mine.wav");
    assert_eq!(b.mine_channels[0].notes[0].y, PulseNumber(720));
    assert_eq!(b.mine_channels[0].notes[0].damage.raw(), "100");
    assert!(b.key_channels.is_empty());

    assert_eq!(b.bga.bga_header, vec![BgaHeader { id: BgaId(3), name: "bg.png".to_string() }]);
    assert_eq!(b.bga.poor_events, vec![BgaEvent { y: PulseNumber(0), id: BgaId(3) }]);
    assert!(b.bga.bga_events.is_empty());

    assert_eq!(
        out.warnings,
        vec![
            BmsToBmsonWarning::InvalidBpm,
            BmsToBmsonWarning::MissingTotal,
            BmsToBmsonWarning::InvalidScrollingFactor,
        ]
    );
}

#[test]
fn bms_to_bmson_and_back_keeps_notes() {
    let bms = score();
    let converter = PulseConverter::new(&vec![4], 240);
    let written = bms.to_bmson(&converter, 0).bmson;
    let read = Bms::from_bmson(written);
    let notes = read.bms.wav.notes.all_notes();
    assert_eq!(notes.len(), 4);
    assert!(notes.iter().any(|n| n.offset.same(&time(0, 1, 4)) && n.channel_id == NoteChannelId::from_bytes(b'1', b'2')));
    // Landmines are written without a lane, so they come back on the first key.
    assert!(notes.iter().any(|n| n.offset.same(&time(0, 3, 4)) && n.channel_id == NoteChannelId::from_bytes(b'D', b'1')));
}

#[test]
fn pulses_round_trip_through_positions() {
    let converter = PulseConverter::new(&vec![4, 4, 4], 240);
    for p in [0u64, 1, 239, 960, 1000, 2879] {
        let t = convert_pulse_to_obj_time(PulseNumber(p), 240);
        assert_eq!(converter.get_pulses_at(t).0, p);
    }
}

#[test]
fn bmson_note_without_lane_is_background() {
    let mut value = chart();
    value.sound_channels[0].notes[0].x = 0;
    let out = Bms::from_bmson(value);
    let notes = out.bms.wav.notes.all_notes();
    let bgm: Vec<_> = notes.iter().filter(|n| n.channel_id == NoteChannelId::bgm()).collect();
    assert_eq!(bgm.len(), 1);
    assert_eq!(bgm[0].wav_id, id(1));
}

#[test]
fn last_track_is_the_track_of_the_last_object() {
    let out = Bms::from_bmson(chart());
    // 240 pulses a quarter: the invisible note at pulse 1920 lies in track 2.
    assert_eq!(last_track(&out.bms), 2);
    assert_eq!(last_track(&Bms::new()), 0);
}
