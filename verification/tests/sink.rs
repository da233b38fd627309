use pretty_logging::{init, FailurePayload, Severity, SinkCell, Threshold};

#[test]
fn empty_holder_has_no_sink() {
    let cell = SinkCell::new();
    assert!(cell.get().is_none());
}

#[test]
fn first_initialization_fills_the_holder() {
    let mut cell = SinkCell::new();
    assert!(init(&mut cell, Threshold::AtLeast(Severity::Warn), vec!["app".to_string()]));
    let sink = cell.get().unwrap();
    assert_eq!(sink.threshold(), Threshold::AtLeast(Severity::Warn));
    assert!(sink.logger().enabled("app::db"));
    assert!(!sink.logger().enabled("other"));
}

#[test]
fn second_initialization_changes_nothing() {
    let mut cell = SinkCell::new();
    assert!(init(&mut cell, Threshold::AtLeast(Severity::Info), vec!["app".to_string()]));
    assert!(!init(&mut cell, Threshold::Off, vec!["other".to_string()]));
    let sink = cell.get().unwrap();
    assert_eq!(sink.threshold(), Threshold::AtLeast(Severity::Info));
    assert!(sink.logger().enabled("app"));
    assert!(sink.logger().enabled("app::db"));
    assert!(!sink.logger().enabled("other"));
}

#[test]
fn later_initializations_change_nothing_either() {
    let mut cell = SinkCell::new();
    assert!(init(&mut cell, Threshold::Off, Vec::new()));
    for _ in 0..3 {
        assert!(!init(&mut cell, Threshold::AtLeast(Severity::Trace), vec!["x".to_string()]));
    }
    let sink = cell.get().unwrap();
    assert!(sink.threshold().is_off());
    assert!(sink.logger().enabled("anything"));
}

#[test]
fn initialization_with_an_empty_filter_lets_all_through() {
    let mut cell = SinkCell::new();
    init(&mut cell, Threshold::AtLeast(Severity::Trace), Vec::new());
    assert!(cell.get().unwrap().logger().enabled("any::module"));
}

#[test]
fn payload_text_is_the_message() {
    assert_eq!(FailurePayload::StaticText("boom").message(), "boom");
    assert_eq!(FailurePayload::OwnedText("bang".to_string()).message(), "bang");
    assert_eq!(FailurePayload::StaticText("").message(), "");
}

#[test]
fn flush_does_nothing() {
    let mut cell = SinkCell::new();
    init(&mut cell, Threshold::AtLeast(Severity::Info), Vec::new());
    cell.get().unwrap().logger().flush();
    assert!(cell.get().unwrap().logger().enabled("still::there"));
}
