use bms_rs::bms::command::{Channel, ObjTime, StringValue};
use bms_rs::bms::model::Bms;
use bms_rs::bms::objects::BpmChangeObj;
use bms_rs::bms::prompt::AlwaysUseNewer;
use bms_rs::chart::base_bpm::{MaxBpmGenerator, MinBpmGenerator, StartBpmGenerator};

fn with_tempos(start: Option<&str>, changes: &[&str]) -> Bms {
    let mut bms = Bms::default();
    bms.bpm.bpm = start.map(StringValue::new);
    for (i, c) in changes.iter().enumerate() {
        let t = ObjTime::new(i as u64 + 1, 0, 1).unwrap();
        let _ = bms.bpm.bpm_changes.push(
            t,
            0,
            BpmChangeObj { time: t, bpm: StringValue::new(c) },
            Channel::BpmChange,
            &AlwaysUseNewer,
        );
    }
    bms
}

fn text(v: Option<StringValue>) -> Option<String> {
    v.map(|v| v.raw().to_string())
}

#[test]
fn start_bpm_is_the_start_tempo() {
    assert_eq!(text(StartBpmGenerator.generate(&with_tempos(Some("150"), &["90"]))), Some("150".to_string()));
    assert_eq!(text(StartBpmGenerator.generate(&with_tempos(Some("abc"), &[]))), None);
    assert_eq!(text(StartBpmGenerator.generate(&with_tempos(None, &["90"]))), None);
}

#[test]
fn min_and_max_bpm_cover_all_tempos() {
    let bms = with_tempos(Some("150"), &["90", "200.5", "abc", "120"]);
    assert_eq!(text(MinBpmGenerator.generate(&bms)), Some("90".to_string()));
    assert_eq!(text(MaxBpmGenerator.generate(&bms)), Some("200.5".to_string()));
    let none = with_tempos(None, &[]);
    assert_eq!(text(MinBpmGenerator.generate(&none)), None);
    assert_eq!(text(MaxBpmGenerator.generate(&none)), None);
    // Of equal tempos, the lowest is the first and the highest the last.
    let equal = with_tempos(Some("120"), &["120.0"]);
    assert_eq!(text(MinBpmGenerator.generate(&equal)), Some("120".to_string()));
    assert_eq!(text(MaxBpmGenerator.generate(&equal)), Some("120.0".to_string()));
}
