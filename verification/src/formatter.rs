//! The shape of a line: timestamp, level tag and message, one space apart.

use vstd::prelude::*;
use vstd::string::StringExecFns;

use crate::severity::Severity;
use crate::style::{
    lemma_known_tags, lemma_level_names, renders, style_of, tag_text, TagStyle, TAG_WIDTH,
};
use crate::timestamp::is_formatted_timestamp;

verus! {

/// A full line: `<timestamp> <level-tag> <message>`.
pub open spec fn line_text(timestamp: Seq<char>, level_tag: Seq<char>, message: Seq<char>) -> Seq<
    char,
> {
    timestamp + seq![' '] + level_tag + seq![' '] + message
}

/// Whether `line` is a line for `message` at `level`: some formatted
/// timestamp, the level's tag in the level's style, and the message.
pub open spec fn is_log_line(line: Seq<char>, level: Seq<char>, message: Seq<char>) -> bool {
    exists|timestamp: Seq<char>, level_tag: Seq<char>|
        is_formatted_timestamp(timestamp) && renders(level_tag, tag_text(level), style_of(level))
            && line == #[trigger] line_text(timestamp, level_tag, message)
}

/// The style in which the tag of each severity is shown.
pub open spec fn severity_style(severity: Severity) -> TagStyle {
    match severity {
        Severity::Trace => TagStyle::Dimmed,
        Severity::Debug => TagStyle::White,
        Severity::Info => TagStyle::Blue,
        Severity::Warn => TagStyle::Yellow,
        Severity::Error => TagStyle::BoldRed,
    }
}

/// Joins the three parts of a line.
pub fn format_line(timestamp: &str, level_tag: &str, message: &str) -> (line: String)
    ensures
        line@ == line_text(timestamp@, level_tag@, message@),
{
    proof {
        reveal_strlit(" ");
    }
    let mut line = String::from_str(timestamp);
    line.append(" ");
    line.append(level_tag);
    line.append(" ");
    line.append(message);
    assert(line@ =~= line_text(timestamp@, level_tag@, message@));
    line
}

/// Each severity is shown under its own name, in its own style, in a tag of
/// exactly `TAG_WIDTH` characters.
pub proof fn lemma_severity_tags(severity: Severity)
    ensures
        style_of(severity.name_spec()) == severity_style(severity),
        tag_text(severity.name_spec()).len() == TAG_WIDTH,
{
    lemma_known_tags();
    lemma_level_names();
}

} // verus!
