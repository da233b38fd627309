//! Severities, the configured threshold, and the stream each severity goes to.

use vstd::prelude::*;
use vstd::std_specs::convert::FromSpecImpl;

verus! {

/// Importance of a log event, from the least to the most severe.
#[derive(Clone, Copy, Debug, PartialEq, Eq, Structural)]
pub enum Severity {
    Trace,
    Debug,
    Info,
    Warn,
    Error,
}

/// The stream a line is written to.
#[derive(Clone, Copy, Debug, PartialEq, Eq, Structural)]
pub enum OutputChannel {
    Standard,
    Error,
}

/// The configured minimum severity; `Off` silences everything, failure
/// reports included.
#[derive(Clone, Copy, Debug, PartialEq, Eq, Structural)]
pub enum Threshold {
    Off,
    AtLeast(Severity),
}

impl Severity {
    /// Position in the total order: `Trace` is 0, `Error` is 4.
    pub open spec fn rank_spec(self) -> int {
        match self {
            Severity::Trace => 0,
            Severity::Debug => 1,
            Severity::Info => 2,
            Severity::Warn => 3,
            Severity::Error => 4,
        }
    }

    /// The upper-case name shown inside the level tag.
    pub open spec fn name_spec(self) -> Seq<char> {
        match self {
            Severity::Trace => "TRACE"@,
            Severity::Debug => "DEBUG"@,
            Severity::Info => "INFO"@,
            Severity::Warn => "WARN"@,
            Severity::Error => "ERROR"@,
        }
    }

    pub fn rank(self) -> (r: u8)
        ensures
            r == self.rank_spec(),
    {
        match self {
            Severity::Trace => 0,
            Severity::Debug => 1,
            Severity::Info => 2,
            Severity::Warn => 3,
            Severity::Error => 4,
        }
    }

    pub fn as_str(self) -> (name: &'static str)
        ensures
            name@ == self.name_spec(),
    {
        match self {
            Severity::Trace => "TRACE",
            Severity::Debug => "DEBUG",
            Severity::Info => "INFO",
            Severity::Warn => "WARN",
            Severity::Error => "ERROR",
        }
    }
}

impl OutputChannel {
    /// `Error` goes to the error stream, every other severity to the
    /// standard stream.
    pub open spec fn of(severity: Severity) -> OutputChannel {
        if severity == Severity::Error {
            OutputChannel::Error
        } else {
            OutputChannel::Standard
        }
    }
}

impl From<Severity> for OutputChannel {
    fn from(severity: Severity) -> (channel: OutputChannel) {
        match severity {
            Severity::Error => OutputChannel::Error,
            _ => OutputChannel::Standard,
        }
    }
}

impl FromSpecImpl<Severity> for OutputChannel {
    open spec fn obeys_from_spec() -> bool {
        true
    }

    open spec fn from_spec(severity: Severity) -> OutputChannel {
        OutputChannel::of(severity)
    }
}

impl Threshold {
    /// Whether an event of this severity passes the threshold.
    pub open spec fn permits_spec(self, severity: Severity) -> bool {
        match self {
            Threshold::Off => false,
            Threshold::AtLeast(minimum) => minimum.rank_spec() <= severity.rank_spec(),
        }
    }

    #[verifier::when_used_as_spec(permits_spec)]
    pub fn permits(self, severity: Severity) -> (allowed: bool)
        ensures
            allowed == self.permits_spec(severity),
    {
        match self {
            Threshold::Off => false,
            Threshold::AtLeast(minimum) => minimum.rank() <= severity.rank(),
        }
    }

    pub fn is_off(self) -> (off: bool)
        ensures
            off == (self == Threshold::Off),
    {
        match self {
            Threshold::Off => true,
            Threshold::AtLeast(_) => false,
        }
    }
}

/// The mapping from severities to streams sends `Error`, and nothing else,
/// to the error stream.
pub proof fn lemma_channel_mapping(severity: Severity)
    ensures
        OutputChannel::of(severity) == OutputChannel::Error <==> severity == Severity::Error,
        OutputChannel::of(severity) == OutputChannel::Standard <==> severity != Severity::Error,
        OutputChannel::of(Severity::Trace) == OutputChannel::Standard,
        OutputChannel::of(Severity::Debug) == OutputChannel::Standard,
        OutputChannel::of(Severity::Info) == OutputChannel::Standard,
        OutputChannel::of(Severity::Warn) == OutputChannel::Standard,
        OutputChannel::of(Severity::Error) == OutputChannel::Error,
{
}

} // verus!
