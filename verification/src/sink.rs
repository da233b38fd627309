//! The sink: what turns an event, or the report of a failure, into a queued
//! line, and the holder that keeps the one sink of a process.

use vstd::prelude::*;

use crate::filter::{admits, views_of, ModuleFilterSet};
use crate::formatter::{format_line, is_log_line, line_text};
use crate::pipeline::QueueEntry;
use crate::severity::{OutputChannel, Severity, Threshold};
use crate::style::{
    escape_free, get_formatted_level, lemma_level_names, lemma_tag_has_no_reset,
};
use crate::timestamp::get_formatted_timestamp;

verus! {

/// The receiving end for log events: holds the module filter.
pub struct Logger {
    modules: ModuleFilterSet,
}

/// The message shown for a failure whose payload is no text.
pub open spec fn fallback_message() -> Seq<char> {
    "A panic occurred! Exiting..."@
}

/// What an unrecoverable failure carries.
#[derive(Debug)]
pub enum FailurePayload {
    /// A string literal.
    StaticText(&'static str),
    /// An owned string.
    OwnedText(String),
    /// Anything else.
    Unknown,
}

impl FailurePayload {
    /// The text of the payload, or the fallback where it has none.
    pub open spec fn message_spec(&self) -> Seq<char> {
        match self {
            FailurePayload::StaticText(text) => text@,
            FailurePayload::OwnedText(text) => text@,
            FailurePayload::Unknown => fallback_message(),
        }
    }

    pub fn message(&self) -> (text: &str)
        ensures
            text@ == self.message_spec(),
    {
        match self {
            FailurePayload::StaticText(text) => text,
            FailurePayload::OwnedText(text) => text.as_str(),
            FailurePayload::Unknown => "A panic occurred! Exiting...",
        }
    }
}

/// The names of the severities, and `PANIC`, hold no escape character.
pub proof fn lemma_level_names_escape_free(severity: Severity)
    ensures
        escape_free(severity.name_spec()),
        escape_free("PANIC"@),
{
    lemma_level_names();
    reveal(escape_free);
}

/// A line for `message` at `level`, stamped with the current time.
fn stamped_line(level: &str, message: &str) -> (line: String)
    requires
        escape_free(level@),
    ensures
        is_log_line(line@, level@, message@),
{
    proof {
        lemma_tag_has_no_reset(level@);
    }
    let timestamp = get_formatted_timestamp();
    let level_tag = get_formatted_level(level);
    let line = format_line(timestamp.as_str(), level_tag.as_str(), message);
    assert(line@ == line_text(timestamp@, level_tag@, message@));
    line
}

impl Logger {
    /// The prefixes of the filter, in order.
    pub closed spec fn modules(&self) -> Seq<Seq<char>> {
        self.modules@
    }

    /// A sink for the origins that `modules` covers; for all, where it is
    /// empty.
    pub fn new(modules: Vec<String>) -> (logger: Logger)
        ensures
            logger.modules() == views_of(modules@),
    {
        Logger { modules: ModuleFilterSet::new(modules) }
    }

    /// Whether events from `origin` are let through.
    pub fn enabled(&self, origin: &str) -> (enabled: bool)
        ensures
            enabled == admits(self.modules(), origin@),
    {
        self.modules.enabled(origin)
    }

    /// Turns an event into the entry to enqueue. An event whose origin the
    /// filter does not let through gives none. Otherwise the entry is bound
    /// for the stream of the severity and holds the line for the message:
    /// the current time, the severity's tag, the message.
    pub fn log(&self, origin: &str, severity: Severity, message: &str) -> (entry: Option<QueueEntry>)
        ensures
            entry.is_some() == admits(self.modules(), origin@),
            entry matches Some(queued) ==> queued.channel == OutputChannel::of(severity)
                && is_log_line(queued.line@, severity.name_spec(), message@),
    {
        if !self.enabled(origin) {
            return None;
        }
        proof {
            lemma_level_names_escape_free(severity);
        }
        let line = stamped_line(severity.as_str(), message);
        Some(QueueEntry { channel: OutputChannel::from(severity), line })
    }

    /// Lines are flushed as they are written, so there is nothing to do.
    pub fn flush(&self) {
    }
}

/// Turns an unrecoverable failure into the entry to enqueue. With the
/// threshold `Off` there is none. Otherwise the entry is bound for the error
/// stream, whatever the module filter says, and holds the line for the
/// failure's message under the tag `PANIC`.
pub fn report_failure(threshold: Threshold, payload: &FailurePayload) -> (entry: Option<QueueEntry>)
    ensures
        entry.is_some() == (threshold != Threshold::Off),
        entry matches Some(queued) ==> queued.channel == OutputChannel::Error && is_log_line(
            queued.line@,
            "PANIC"@,
            payload.message_spec(),
        ),
{
    if threshold.is_off() {
        return None;
    }
    proof {
        lemma_level_names_escape_free(Severity::Error);
    }
    let line = stamped_line("PANIC", payload.message());
    Some(QueueEntry { channel: OutputChannel::Error, line })
}

/// The configured sink of a process: the threshold and the receiving end.
pub struct Sink {
    threshold: Threshold,
    logger: Logger,
}

/// A sink as contracts see it.
pub struct SinkView {
    pub threshold: Threshold,
    pub modules: Seq<Seq<char>>,
}

impl View for Sink {
    type V = SinkView;

    closed spec fn view(&self) -> SinkView {
        SinkView { threshold: self.threshold, modules: self.logger.modules() }
    }
}

impl Sink {
    pub fn threshold(&self) -> (threshold: Threshold)
        ensures
            threshold == self@.threshold,
    {
        self.threshold
    }

    pub fn logger(&self) -> (logger: &Logger)
        ensures
            logger.modules() == self@.modules,
    {
        &self.logger
    }
}

/// Holds the sink of a process. It starts empty, is filled once, and is
/// never emptied or refilled.
pub struct SinkCell {
    slot: Option<Sink>,
}

impl View for SinkCell {
    type V = Option<SinkView>;

    closed spec fn view(&self) -> Option<SinkView> {
        match self.slot {
            Some(sink) => Some(sink@),
            None => None,
        }
    }
}

impl SinkCell {
    /// An empty holder.
    pub fn new() -> (cell: SinkCell)
        ensures
            cell@ is None,
    {
        SinkCell { slot: None }
    }

    /// The sink, once there is one.
    pub fn get(&self) -> (sink: Option<&Sink>)
        ensures
            sink is Some == self@ is Some,
            sink matches Some(found) ==> self@ == Some(found@),
    {
        self.slot.as_ref()
    }
}

/// What a holder contains after an initialization: what it contained, if
/// anything, and the new configuration otherwise.
pub open spec fn initialized(
    before: Option<SinkView>,
    threshold: Threshold,
    modules: Seq<Seq<char>>,
) -> Option<SinkView> {
    match before {
        Some(sink) => Some(sink),
        None => Some(SinkView { threshold, modules }),
    }
}

/// Sets the sink of a process up. The first call on a holder fills it and
/// returns `true`; every later call leaves it as it is and returns `false`.
pub fn init(cell: &mut SinkCell, threshold: Threshold, modules: Vec<String>) -> (first: bool)
    ensures
        first == (old(cell)@ is None),
        final(cell)@ == initialized(old(cell)@, threshold, views_of(modules@)),
{
    if cell.slot.is_some() {
        return false;
    }
    cell.slot = Some(Sink { threshold, logger: Logger::new(modules) });
    true
}

/// Of two initializations the first governs: the second changes nothing,
/// whatever its arguments, and on an empty holder the first one's threshold
/// and filter are the ones that stay.
pub proof fn lemma_first_initialization_wins(
    before: Option<SinkView>,
    first_threshold: Threshold,
    first_modules: Seq<Seq<char>>,
    second_threshold: Threshold,
    second_modules: Seq<Seq<char>>,
)
    ensures
        initialized(
            initialized(before, first_threshold, first_modules),
            second_threshold,
            second_modules,
        ) == initialized(before, first_threshold, first_modules),
        before is None ==> initialized(
            initialized(before, first_threshold, first_modules),
            second_threshold,
            second_modules,
        ) == Some(SinkView { threshold: first_threshold, modules: first_modules }),
{
}

} // verus!
