use bms_rs::bms::command::{Channel, NoteChannelId, ObjId, ObjTime};
use bms_rs::bms::model::{Bms, Notes, WavObj};
use bms_rs::bms::objects::BgaObj;
use bms_rs::bms::parse::validity::{ValidityCheckOutput, ValidityInvalid, ValidityMissing};
use bms_rs::bms::layout::KeyLayoutBeat;
use bms_rs::bms::prompt::AlwaysUseNewer;
use bms_rs::chart::check::check_bms_validity;
use bms_rs::chart::process::BmsProcessor;
use bms_rs::chart::types::{BgaLayer, Key, PlayerSide};

fn t(track: u64, num: u64, den: u64) -> ObjTime {
    ObjTime::new(track, num, den).expect("denominator should be non-zero")
}

fn id(s: &str) -> ObjId {
    ObjId::try_from(s, false).unwrap()
}

fn ch(a: u8, b: u8) -> NoteChannelId {
    NoteChannelId::from_bytes(a, b)
}

fn bms_with_notes(notes: &[(ObjTime, NoteChannelId, ObjId)]) -> Bms {
    let mut bms = Bms::default();
    let mut n = Notes::default();
    for &(offset, channel_id, wav_id) in notes {
        n.push_note(WavObj { offset, channel_id, wav_id });
    }
    bms.wav.notes = n;
    bms
}

fn via_check(bms: &Bms) -> ValidityCheckOutput {
    check_bms_validity(bms)
}

fn via_processor(bms: &Bms) -> ValidityCheckOutput {
    BmsProcessor::check_validity::<KeyLayoutBeat>(bms)
}

fn missing_wav_for_note(check: fn(&Bms) -> ValidityCheckOutput) {
    let wav = id("0A");
    let bms = bms_with_notes(&[(t(1, 0, 4), ch(b'1', b'1'), wav)]);
    let out = check(&bms);
    assert!(out.missing.contains(&ValidityMissing::WavForNote(wav)));
}

fn missing_bmp_for_bga(check: fn(&Bms) -> ValidityCheckOutput) {
    let mut bms = Bms::default();
    let bmp = id("0B");
    let time = t(1, 0, 4);
    bms.bmp
        .bga_changes
        .push(time, 0, BgaObj { time, id: bmp, layer: BgaLayer::Base }, Channel::BgaBase, &AlwaysUseNewer)
        .unwrap();
    let out = check(&bms);
    assert!(out.missing.contains(&ValidityMissing::BmpForBga(bmp)));
}

fn visible_note_in_track_zero(check: fn(&Bms) -> ValidityCheckOutput) {
    let time = t(0, 0, 4);
    let bms = bms_with_notes(&[(time, ch(b'1', b'1'), id("10"))]);
    let out = check(&bms);
    assert!(out.invalid.iter().any(|e| matches!(
        e,
        ValidityInvalid::PlayableNoteInTrackZero { time: t0, side: PlayerSide::Player1, key: Key::Key(1) } if *t0 == time
    )));
}

fn overlap_visible_single_with_single(check: fn(&Bms) -> ValidityCheckOutput) {
    let time = t(1, 0, 4);
    let bms = bms_with_notes(&[(time, ch(b'1', b'1'), id("01")), (time, ch(b'1', b'1'), id("02"))]);
    let out = check(&bms);
    assert!(out.invalid.iter().any(|e| matches!(
        e,
        ValidityInvalid::OverlapVisibleSingleWithSingle { time: t0, side: PlayerSide::Player1, key: Key::Key(1) } if *t0 == time
    )));
}

fn overlap_visible_single_with_long(check: fn(&Bms) -> ValidityCheckOutput) {
    let ln_start = t(2, 0, 4);
    let ln_end = t(2, 2, 4);
    let vis_time = t(2, 1, 4);
    let bms = bms_with_notes(&[
        (ln_start, ch(b'5', b'1'), id("0E")),
        (ln_end, ch(b'5', b'1'), id("0F")),
        (vis_time, ch(b'1', b'1'), id("03")),
    ]);
    let out = check(&bms);
    assert!(out.invalid.iter().any(|e| matches!(
        e,
        ValidityInvalid::OverlapVisibleSingleWithLong { side: PlayerSide::Player1, key: Key::Key(1), time: t0, ln_start: s, ln_end: e } if *t0 == vis_time && *s == ln_start && *e == ln_end
    )));
}

fn landmine_overlap_long_warn_at_start(check: fn(&Bms) -> ValidityCheckOutput) {
    let ln_start = t(3, 0, 4);
    let ln_end = t(3, 2, 4);
    let bms = bms_with_notes(&[
        (ln_start, ch(b'5', b'1'), id("1A")),
        (ln_end, ch(b'5', b'1'), id("1B")),
        (t(3, 0, 4), ch(b'D', b'1'), id("1C")),
    ]);
    let out = check(&bms);
    assert!(out.invalid.iter().any(|e| matches!(
        e,
        ValidityInvalid::OverlapsLandmineLongAtStart { side: PlayerSide::Player1, key: Key::Key(1), ln_start: s, ln_end: e } if *s == ln_start && *e == ln_end
    )));
}

fn overlap_landmine_with_single(check: fn(&Bms) -> ValidityCheckOutput) {
    let time = t(1, 0, 4);
    let bms = bms_with_notes(&[(time, ch(b'1', b'1'), id("04")), (time, ch(b'D', b'1'), id("05"))]);
    let out = check(&bms);
    assert!(out.invalid.iter().any(|e| matches!(
        e,
        ValidityInvalid::OverlapLandmineWithSingle { time: t0, side: PlayerSide::Player1, key: Key::Key(1) } if *t0 == time
    )));
}

fn zero_length_long_note_overlap(check: fn(&Bms) -> ValidityCheckOutput) {
    let zero = t(2, 0, 4);
    let bms = bms_with_notes(&[
        (zero, ch(b'5', b'1'), id("20")),
        (zero, ch(b'5', b'1'), id("21")),
        (zero, ch(b'1', b'1'), id("22")),
    ]);
    let out = check(&bms);
    assert!(
        out.invalid.iter().any(|e| matches!(
            e,
            ValidityInvalid::OverlapVisibleSingleWithLong { side: PlayerSide::Player1, key: Key::Key(1), time: t0, ln_start: s, ln_end: e } if *t0 == zero && *s == zero && *e == zero
        )),
        "Failed to detect overlap with zero-length long note. Current output: {:?}",
        out.invalid
    );
}

#[test]
fn validity_test_missing_wav_for_note() {
    missing_wav_for_note(via_processor);
}

#[test]
fn check_test_missing_wav_for_note() {
    missing_wav_for_note(via_check);
}

#[test]
fn validity_test_missing_bmp_for_bga() {
    missing_bmp_for_bga(via_processor);
}

#[test]
fn check_test_missing_bmp_for_bga() {
    missing_bmp_for_bga(via_check);
}

#[test]
fn validity_test_visible_note_in_track_zero() {
    visible_note_in_track_zero(via_processor);
}

#[test]
fn check_test_visible_note_in_track_zero() {
    visible_note_in_track_zero(via_check);
}

#[test]
fn validity_test_overlap_visible_single_with_single() {
    overlap_visible_single_with_single(via_processor);
}

#[test]
fn check_test_overlap_visible_single_with_single() {
    overlap_visible_single_with_single(via_check);
}

#[test]
fn validity_test_overlap_visible_single_with_long() {
    overlap_visible_single_with_long(via_processor);
}

#[test]
fn check_test_overlap_visible_single_with_long() {
    overlap_visible_single_with_long(via_check);
}

#[test]
fn validity_test_landmine_overlap_long_warn_at_start() {
    landmine_overlap_long_warn_at_start(via_processor);
}

#[test]
fn check_test_landmine_overlap_long_warn_at_start() {
    landmine_overlap_long_warn_at_start(via_check);
}

#[test]
fn validity_test_overlap_landmine_with_single() {
    overlap_landmine_with_single(via_processor);
}

#[test]
fn check_test_overlap_landmine_with_single() {
    overlap_landmine_with_single(via_check);
}

#[test]
fn validity_test_zero_length_long_note_overlap() {
    zero_length_long_note_overlap(via_processor);
}

#[test]
fn check_test_zero_length_long_note_overlap() {
    zero_length_long_note_overlap(via_check);
}
