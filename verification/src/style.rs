//! Terminal styling: the level tag of a line, and the escape sequences that
//! the `colored` crate wraps around a text.

use colored::Colorize;
use vstd::prelude::*;
use vstd::string::StringExecFns;

use crate::text::same_text;

verus! {

/// The looks a piece of a line can take.
#[derive(Clone, Copy, Debug, PartialEq, Eq, Structural)]
pub enum TagStyle {
    Dimmed,
    White,
    Blue,
    Yellow,
    BoldRed,
}

/// The least number of characters a level tag takes, brackets included.
pub const TAG_WIDTH: usize = 7;

/// The sequence that ends every styled text.
pub open spec fn reset_sequence() -> Seq<char> {
    seq!['\u{1b}', '[', '0', 'm']
}

/// The parameters of the sequence that switches a style on.
pub open spec fn style_codes(style: TagStyle) -> Seq<char> {
    match style {
        TagStyle::Dimmed => seq!['2'],
        TagStyle::White => seq!['3', '7'],
        TagStyle::Blue => seq!['3', '4'],
        TagStyle::Yellow => seq!['3', '3'],
        TagStyle::BoldRed => seq!['1', ';', '3', '1'],
    }
}

/// `text` between the sequence that switches `style` on and the reset
/// sequence.
pub open spec fn painted(style: TagStyle, text: Seq<char>) -> Seq<char> {
    seq!['\u{1b}', '['] + style_codes(style) + seq!['m'] + text + reset_sequence()
}

/// Whether the reset sequence occurs somewhere in `text`.
pub open spec fn has_reset(text: Seq<char>) -> bool {
    exists|i: int|
        0 <= i && i + 4 <= text.len() && #[trigger] text.subrange(i, i + 4) == reset_sequence()
}

/// Whether `text` is free of the escape character.
#[verifier::opaque]
pub open spec fn escape_free(text: Seq<char>) -> bool {
    forall|i: int| 0 <= i < text.len() ==> text[i] != '\u{1b}'
}

/// A text without the escape character holds no reset sequence.
pub proof fn lemma_escape_free_has_no_reset(text: Seq<char>)
    requires
        escape_free(text),
    ensures
        !has_reset(text),
{
    reveal(escape_free);
    assert forall|i: int| 0 <= i && i + 4 <= text.len() implies #[trigger] text.subrange(i, i + 4)
        != reset_sequence() by {
        assert(text.subrange(i, i + 4)[0] == text[i]);
    }
}

/// Joining two texts without the escape character gives another.
pub proof fn lemma_escape_free_concat(left: Seq<char>, right: Seq<char>)
    requires
        escape_free(left),
        escape_free(right),
    ensures
        escape_free(left + right),
{
    reveal(escape_free);
}

/// The names of the levels, and `PANIC`, character by character.
pub proof fn lemma_level_names()
    ensures
        "TRACE"@ == seq!['T', 'R', 'A', 'C', 'E'],
        "DEBUG"@ == seq!['D', 'E', 'B', 'U', 'G'],
        "INFO"@ == seq!['I', 'N', 'F', 'O'],
        "WARN"@ == seq!['W', 'A', 'R', 'N'],
        "ERROR"@ == seq!['E', 'R', 'R', 'O', 'R'],
        "PANIC"@ == seq!['P', 'A', 'N', 'I', 'C'],
{
    reveal_strlit("TRACE");
    reveal_strlit("DEBUG");
    reveal_strlit("INFO");
    reveal_strlit("WARN");
    reveal_strlit("ERROR");
    reveal_strlit("PANIC");
    assert("TRACE"@ =~= seq!['T', 'R', 'A', 'C', 'E']);
    assert("DEBUG"@ =~= seq!['D', 'E', 'B', 'U', 'G']);
    assert("INFO"@ =~= seq!['I', 'N', 'F', 'O']);
    assert("WARN"@ =~= seq!['W', 'A', 'R', 'N']);
    assert("ERROR"@ =~= seq!['E', 'R', 'R', 'O', 'R']);
    assert("PANIC"@ =~= seq!['P', 'A', 'N', 'I', 'C']);
}

/// What styling `text` can give. Whether colours are on is a switch of the
/// process (environment variables, whether the standard output is a terminal,
/// an override set by the program), so the text comes back either as it was
/// or painted. The switch is read more than once while a text is rendered:
/// flipped in between, it can leave the text with the reset sequence alone.
pub open spec fn renders(out: Seq<char>, text: Seq<char>, style: TagStyle) -> bool {
    ||| out == text
    ||| out == painted(style, text)
    ||| out == text + reset_sequence()
}

/// `count` spaces.
pub open spec fn spaces(count: int) -> Seq<char> {
    Seq::new(if count > 0 { count as nat } else { 0 }, |i: int| ' ')
}

/// The level between square brackets, filled up with spaces on the right to
/// `TAG_WIDTH` characters; a longer one is kept whole.
pub open spec fn tag_text(level: Seq<char>) -> Seq<char> {
    seq!['['] + level + seq![']'] + spaces(TAG_WIDTH - 2 - level.len())
}

/// The style of a level tag, by the level's name. A name that is none of the
/// known ones is shown like an error.
pub open spec fn style_of(level: Seq<char>) -> TagStyle {
    if level == "TRACE"@ {
        TagStyle::Dimmed
    } else if level == "DEBUG"@ {
        TagStyle::White
    } else if level == "INFO"@ {
        TagStyle::Blue
    } else if level == "WARN"@ {
        TagStyle::Yellow
    } else {
        TagStyle::BoldRed
    }
}

/// `colored::Colorize::dimmed` on a string slice, rendered with `to_string`.
/// The crate's `Display` writes the text unchanged where colours are off, and
/// otherwise `ESC [ 2 m`, the text and the reset sequence; `renders` lists
/// the outcomes. Inside a text that itself holds the reset sequence the crate
/// inserts more, so of such a text nothing is claimed.
#[verifier::external_body]
fn paint_dimmed(text: &str) -> (out: String)
    ensures
        !has_reset(text@) ==> renders(out@, text@, TagStyle::Dimmed),
{
    text.dimmed().to_string()
}

/// `colored::Colorize::white` on a string slice, rendered with `to_string`:
/// as `paint_dimmed`, with `ESC [ 3 7 m` in front.
#[verifier::external_body]
fn paint_white(text: &str) -> (out: String)
    ensures
        !has_reset(text@) ==> renders(out@, text@, TagStyle::White),
{
    text.white().to_string()
}

/// `colored::Colorize::blue` on a string slice, rendered with `to_string`:
/// as `paint_dimmed`, with `ESC [ 3 4 m` in front.
#[verifier::external_body]
fn paint_blue(text: &str) -> (out: String)
    ensures
        !has_reset(text@) ==> renders(out@, text@, TagStyle::Blue),
{
    text.blue().to_string()
}

/// `colored::Colorize::yellow` on a string slice, rendered with `to_string`:
/// as `paint_dimmed`, with `ESC [ 3 3 m` in front.
#[verifier::external_body]
fn paint_yellow(text: &str) -> (out: String)
    ensures
        !has_reset(text@) ==> renders(out@, text@, TagStyle::Yellow),
{
    text.yellow().to_string()
}

/// `colored::Colorize::red` and then `colored::Colorize::bold`, rendered
/// with `to_string`: as `paint_dimmed`, with `ESC [ 1 ; 3 1 m` in front (the
/// crate writes the style before the colour).
#[verifier::external_body]
fn paint_bold_red(text: &str) -> (out: String)
    ensures
        !has_reset(text@) ==> renders(out@, text@, TagStyle::BoldRed),
{
    text.red().bold().to_string()
}

/// Styles `text`. Of a text that itself holds the reset sequence nothing is
/// said.
pub fn paint(text: &str, style: TagStyle) -> (out: String)
    ensures
        !has_reset(text@) ==> renders(out@, text@, style),
{
    match style {
        TagStyle::Dimmed => paint_dimmed(text),
        TagStyle::White => paint_white(text),
        TagStyle::Blue => paint_blue(text),
        TagStyle::Yellow => paint_yellow(text),
        TagStyle::BoldRed => paint_bold_red(text),
    }
}

/// The style of the tag of `level`.
pub fn level_style(level: &str) -> (style: TagStyle)
    ensures
        style == style_of(level@),
{
    if same_text(level, "TRACE") {
        TagStyle::Dimmed
    } else if same_text(level, "DEBUG") {
        TagStyle::White
    } else if same_text(level, "INFO") {
        TagStyle::Blue
    } else if same_text(level, "WARN") {
        TagStyle::Yellow
    } else {
        TagStyle::BoldRed
    }
}

/// The unstyled tag of `level`.
pub fn level_tag(level: &str) -> (tag: String)
    ensures
        tag@ == tag_text(level@),
{
    proof {
        reveal_strlit("[");
        reveal_strlit("]");
    }
    let mut tag = String::from_str("[");
    tag.append(level);
    tag.append("]");
    let ghost bracketed = tag@;
    assert(bracketed =~= seq!['['] + level@ + seq![']']);
    let length = level.unicode_len();
    let missing: usize = if length < TAG_WIDTH - 2 {
        TAG_WIDTH - 2 - length
    } else {
        0
    };
    let mut added: usize = 0;
    while added < missing
        invariant
            tag@ == bracketed + spaces(added as int),
            added <= missing,
        decreases missing - added,
    {
        proof {
            reveal_strlit(" ");
        }
        tag.append(" ");
        added += 1;
        assert(tag@ =~= bracketed + spaces(added as int));
    }
    assert(spaces(added as int) =~= spaces(TAG_WIDTH - 2 - level@.len()));
    tag
}

/// The tag of `level` as it stands in a line: bracketed, filled up to
/// `TAG_WIDTH` characters, and styled by the level's name.
pub fn get_formatted_level(level: &str) -> (out: String)
    ensures
        !has_reset(tag_text(level@)) ==> renders(out@, tag_text(level@), style_of(level@)),
{
    let tag = level_tag(level);
    paint(tag.as_str(), level_style(level))
}

/// A tag takes `TAG_WIDTH` characters or more: the bracketed level, then
/// nothing but spaces, and none where the bracketed level fills the width.
pub proof fn lemma_tag_shape(level: Seq<char>)
    ensures
        tag_text(level).len() == if level.len() + 2 < TAG_WIDTH {
            TAG_WIDTH as int
        } else {
            level.len() as int + 2
        },
        tag_text(level)[0] == '[',
        tag_text(level).subrange(1, level.len() as int + 1) == level,
        tag_text(level)[level.len() as int + 1] == ']',
        forall|i: int| level.len() + 2 <= i < tag_text(level).len() ==> tag_text(level)[i] == ' ',
{
    assert(tag_text(level).subrange(1, level.len() as int + 1) =~= level);
}

/// The tag of a level without the escape character holds no reset sequence.
pub proof fn lemma_tag_has_no_reset(level: Seq<char>)
    requires
        escape_free(level),
    ensures
        escape_free(tag_text(level)),
        !has_reset(tag_text(level)),
{
    assert(escape_free(seq!['[']) && escape_free(seq![']']) && escape_free(
        spaces(TAG_WIDTH - 2 - level.len()),
    )) by {
        reveal(escape_free);
    }
    lemma_escape_free_concat(seq!['['], level);
    lemma_escape_free_concat(seq!['['] + level, seq![']']);
    lemma_escape_free_concat(seq!['['] + level + seq![']'], spaces(TAG_WIDTH - 2 - level.len()));
    lemma_escape_free_has_no_reset(tag_text(level));
}

/// `INFO` is shown in blue as `[INFO]` and one space; `ERROR` and `PANIC`
/// are both shown in bold red, and so is any name that is not a level's.
pub proof fn lemma_known_tags()
    ensures
        tag_text("INFO"@) == seq!['[', 'I', 'N', 'F', 'O', ']', ' '],
        style_of("TRACE"@) == TagStyle::Dimmed,
        style_of("DEBUG"@) == TagStyle::White,
        style_of("INFO"@) == TagStyle::Blue,
        style_of("WARN"@) == TagStyle::Yellow,
        style_of("ERROR"@) == TagStyle::BoldRed,
        style_of("PANIC"@) == TagStyle::BoldRed,
        forall|level: Seq<char>|
            level != "TRACE"@ && level != "DEBUG"@ && level != "INFO"@ && level != "WARN"@
                ==> #[trigger] style_of(level) == TagStyle::BoldRed,
{
    lemma_level_names();
    assert(tag_text("INFO"@) =~= seq!['[', 'I', 'N', 'F', 'O', ']', ' ']);
    assert("DEBUG"@[0] != "TRACE"@[0]);
    assert("INFO"@[0] != "TRACE"@[0] && "INFO"@[0] != "DEBUG"@[0]);
    assert("WARN"@[0] != "TRACE"@[0] && "WARN"@[0] != "DEBUG"@[0] && "WARN"@[0] != "INFO"@[0]);
    assert("ERROR"@[0] != "TRACE"@[0] && "ERROR"@[0] != "DEBUG"@[0] && "ERROR"@[0] != "INFO"@[0]
        && "ERROR"@[0] != "WARN"@[0]);
    assert("PANIC"@[0] != "TRACE"@[0] && "PANIC"@[0] != "DEBUG"@[0] && "PANIC"@[0] != "INFO"@[0]
        && "PANIC"@[0] != "WARN"@[0]);
}

} // verus!
