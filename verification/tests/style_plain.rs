use pretty_logging::style::paint;
use pretty_logging::timestamp::format_timestamp;
use pretty_logging::{
    format_line, get_formatted_level, get_formatted_timestamp, Logger, Severity, TagStyle,
    Timestamp,
};

fn colours_off() {
    colored::control::set_override(false);
}

#[test]
fn without_colours_the_tag_is_only_padded() {
    colours_off();
    assert_eq!(get_formatted_level("INFO"), "[INFO] ");
    assert_eq!(get_formatted_level("ERROR"), "[ERROR]");
    assert_eq!(get_formatted_level("PANIC"), "[PANIC]");
    assert_eq!(get_formatted_level("X"), "[X]    ");
}

#[test]
fn without_colours_paint_changes_nothing() {
    colours_off();
    assert_eq!(paint("text", TagStyle::BoldRed), "text");
    assert_eq!(paint("", TagStyle::Dimmed), "");
}

#[test]
fn without_colours_the_timestamp_is_plain() {
    colours_off();
    let reading = Timestamp {
        year: 1999,
        month: 12,
        day: 31,
        hour: 23,
        minute: 59,
        second: 59,
        nanosecond: 999_999_999,
    };
    assert_eq!(format_timestamp(&reading), "31/12/1999 at 23:59:59.99");
    assert_eq!(get_formatted_timestamp().chars().count(), 25);
}

#[test]
fn without_colours_a_line_is_timestamp_tag_and_message() {
    colours_off();
    let logger = Logger::new(Vec::new());
    let entry = logger.log("m", Severity::Info, "hello world").unwrap();
    let chars: Vec<char> = entry.line.chars().collect();
    assert_eq!(chars.len(), 25 + 1 + 7 + 1 + 11);
    assert!(entry.line.ends_with(" [INFO]  hello world"));
}

#[test]
fn line_parts_are_one_space_apart() {
    assert_eq!(format_line("T", "[INFO] ", "message"), "T [INFO]  message");
    assert_eq!(format_line("", "", ""), "  ");
    assert_eq!(format_line("a", "b", ""), "a b ");
    assert_eq!(
        format_line("05/03/2024 at 07:08:09.12", "[WARN] ", "slow query"),
        "05/03/2024 at 07:08:09.12 [WARN]  slow query"
    );
}

#[test]
fn message_is_kept_as_it_is() {
    assert_eq!(format_line("t", "l", "two\nlines  and spaces "), "t l two\nlines  and spaces ");
}
