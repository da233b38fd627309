//! A log-record sink: events are filtered by their origin module, rendered as
//! one colourised line each, and queued for a single consumer that writes them
//! to the standard or the error stream in arrival order.

pub mod filter;
pub mod formatter;
pub mod pipeline;
pub mod severity;
pub mod sink;
pub mod style;
pub mod text;
pub mod timestamp;

pub use filter::ModuleFilterSet;
pub use formatter::format_line;
pub use pipeline::{ConsumerStep, Pipeline, QueueEntry, WriteCommand};
pub use severity::{OutputChannel, Severity, Threshold};
pub use sink::{init, report_failure, FailurePayload, Logger, Sink, SinkCell};
pub use style::{get_formatted_level, TagStyle};
pub use timestamp::{get_formatted_timestamp, Timestamp};
