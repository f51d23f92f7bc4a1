use soralog::message::CrashMessage;
use soralog::message::ParseError;

#[test]
fn two_reports_split_at_the_marker() {
    let text = "=CRASH REPORT A\nfoo=CRASH REPORT B\nbar";
    let got = CrashMessage::parse("crash.log".to_string(), text).unwrap();
    assert_eq!(got.len(), 2);
    assert_eq!(got[0].raw, "=CRASH REPORT A\nfoo");
    assert_eq!(got[0].path, "crash.log");
    assert_eq!(got[1].raw, "=CRASH REPORT B\nbar");
    assert_eq!(got[1].path, "crash.log");
}

#[test]
fn empty_input_yields_no_reports() {
    let got = CrashMessage::parse("crash.log".to_string(), "").unwrap();
    assert_eq!(got.len(), 0);
}

#[test]
fn input_without_the_marker_fails() {
    let r = CrashMessage::parse("crash.log".to_string(), "no marker here");
    match r {
        Err(ParseError::MissingCrashMarker { path }) => assert_eq!(path, "crash.log"),
        _ => panic!("expected the missing-marker error"),
    }
}

#[test]
fn a_single_report_is_kept_whole_and_trimmed() {
    let text = "=CRASH REPORT only one\n  body line  \n";
    let got = CrashMessage::parse("crash.log".to_string(), text).unwrap();
    assert_eq!(got.len(), 1);
    assert_eq!(got[0].raw, "=CRASH REPORT only one\n  body line");
}

#[test]
fn marker_inside_a_line_still_splits() {
    let text = "=CRASH REPORT 1 x=CRASH REPORT 2 y";
    let got = CrashMessage::parse("c".to_string(), text).unwrap();
    assert_eq!(got.len(), 2);
    assert_eq!(got[0].raw, "=CRASH REPORT 1 x");
    assert_eq!(got[1].raw, "=CRASH REPORT 2 y");
}
