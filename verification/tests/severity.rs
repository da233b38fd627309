use pretty_logging::{OutputChannel, Severity, Threshold};

const ALL: [Severity; 5] =
    [Severity::Trace, Severity::Debug, Severity::Info, Severity::Warn, Severity::Error];

#[test]
fn error_goes_to_the_error_stream() {
    assert_eq!(OutputChannel::from(Severity::Error), OutputChannel::Error);
}

#[test]
fn every_other_severity_goes_to_the_standard_stream() {
    assert_eq!(OutputChannel::from(Severity::Trace), OutputChannel::Standard);
    assert_eq!(OutputChannel::from(Severity::Debug), OutputChannel::Standard);
    assert_eq!(OutputChannel::from(Severity::Info), OutputChannel::Standard);
    assert_eq!(OutputChannel::from(Severity::Warn), OutputChannel::Standard);
}

#[test]
fn channel_mapping_gives_the_same_answer_each_time() {
    for severity in ALL {
        assert_eq!(OutputChannel::from(severity), OutputChannel::from(severity));
    }
}

#[test]
fn into_follows_from() {
    let channel: OutputChannel = Severity::Error.into();
    assert_eq!(channel, OutputChannel::Error);
    let channel: OutputChannel = Severity::Info.into();
    assert_eq!(channel, OutputChannel::Standard);
}

#[test]
fn severities_are_ranked_from_trace_to_error() {
    assert_eq!(Severity::Trace.rank(), 0);
    assert_eq!(Severity::Debug.rank(), 1);
    assert_eq!(Severity::Info.rank(), 2);
    assert_eq!(Severity::Warn.rank(), 3);
    assert_eq!(Severity::Error.rank(), 4);
}

#[test]
fn severity_names_are_upper_case() {
    assert_eq!(Severity::Trace.as_str(), "TRACE");
    assert_eq!(Severity::Debug.as_str(), "DEBUG");
    assert_eq!(Severity::Info.as_str(), "INFO");
    assert_eq!(Severity::Warn.as_str(), "WARN");
    assert_eq!(Severity::Error.as_str(), "ERROR");
}

#[test]
fn off_permits_nothing() {
    for severity in ALL {
        assert!(!Threshold::Off.permits(severity));
    }
    assert!(Threshold::Off.is_off());
}

#[test]
fn threshold_permits_its_own_severity_and_above() {
    let threshold = Threshold::AtLeast(Severity::Info);
    assert!(!threshold.permits(Severity::Trace));
    assert!(!threshold.permits(Severity::Debug));
    assert!(threshold.permits(Severity::Info));
    assert!(threshold.permits(Severity::Warn));
    assert!(threshold.permits(Severity::Error));
    assert!(!threshold.is_off());
}

#[test]
fn trace_threshold_permits_everything() {
    for severity in ALL {
        assert!(Threshold::AtLeast(Severity::Trace).permits(severity));
    }
}

#[test]
fn error_threshold_permits_errors_only() {
    for severity in ALL {
        assert_eq!(
            Threshold::AtLeast(Severity::Error).permits(severity),
            severity == Severity::Error
        );
    }
}
