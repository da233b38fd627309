//! Wall-clock readings and their display form, `DD/MM/YYYY at HH:MM:SS.ss`.

use time::error::IndeterminateOffset;
use time::OffsetDateTime;
use vstd::prelude::*;
use vstd::string::StringExecFns;

use crate::style::{
    escape_free, has_reset, lemma_escape_free_concat, lemma_escape_free_has_no_reset, paint, renders,
    TagStyle,
};

verus! {

/// The character of a decimal digit.
pub open spec fn digit_char(d: int) -> char {
    if d == 0 {
        '0'
    } else if d == 1 {
        '1'
    } else if d == 2 {
        '2'
    } else if d == 3 {
        '3'
    } else if d == 4 {
        '4'
    } else if d == 5 {
        '5'
    } else if d == 6 {
        '6'
    } else if d == 7 {
        '7'
    } else if d == 8 {
        '8'
    } else {
        '9'
    }
}

/// The decimal digits of `n`, most significant first, without leading zeros.
pub open spec fn decimal(n: nat) -> Seq<char>
    decreases n,
{
    if n < 10 {
        seq![digit_char(n as int)]
    } else {
        decimal(n / 10).push(digit_char((n % 10) as int))
    }
}

/// `count` zeros.
pub open spec fn zeros(count: int) -> Seq<char> {
    Seq::new(if count > 0 { count as nat } else { 0 }, |i: int| '0')
}

/// The decimal digits of `n`, with zeros in front up to `width` characters.
pub open spec fn zero_padded(n: nat, width: nat) -> Seq<char> {
    zeros(width - decimal(n).len()) + decimal(n)
}

/// A year: at least four digits, `-` in front of a negative one and `+` in
/// front of one past 9999.
pub open spec fn year_text(year: int) -> Seq<char> {
    if year < 0 {
        seq!['-'] + zero_padded((-year) as nat, 4)
    } else if year >= 10000 {
        seq!['+'] + zero_padded(year as nat, 4)
    } else {
        zero_padded(year as nat, 4)
    }
}

/// A reading of the wall clock, field by field.
#[derive(Clone, Copy, Debug, PartialEq, Eq, Structural)]
pub struct Timestamp {
    pub year: i32,
    pub month: u8,
    pub day: u8,
    pub hour: u8,
    pub minute: u8,
    pub second: u8,
    pub nanosecond: u32,
}

impl Timestamp {
    /// The fields lie in the ranges of a calendar date and a time of day.
    pub open spec fn wf(self) -> bool {
        &&& 1 <= self.month <= 12
        &&& 1 <= self.day <= 31
        &&& self.hour < 24
        &&& self.minute < 60
        &&& self.second < 60
        &&& self.nanosecond < 1_000_000_000
    }

    /// Day, month and year between slashes.
    pub open spec fn date_text(self) -> Seq<char> {
        zero_padded(self.day as nat, 2) + seq!['/'] + zero_padded(self.month as nat, 2) + seq!['/']
            + year_text(self.year as int)
    }

    /// Hours, minutes and seconds between colons, and after a point the
    /// hundredths of the second, cut off and not rounded.
    pub open spec fn time_text(self) -> Seq<char> {
        zero_padded(self.hour as nat, 2) + seq![':'] + zero_padded(self.minute as nat, 2) + seq![
            ':',
        ] + zero_padded(self.second as nat, 2) + seq!['.'] + zero_padded(
            (self.nanosecond / 10_000_000) as nat,
            2,
        )
    }

    /// The date, the word `at`, and the time of day.
    pub open spec fn text(self) -> Seq<char> {
        self.date_text() + seq![' ', 'a', 't', ' '] + self.time_text()
    }

    /// Whether the fields are those of a calendar date and a time of day.
    pub fn is_valid(&self) -> (valid: bool)
        ensures
            valid == self.wf(),
    {
        1 <= self.month && self.month <= 12 && 1 <= self.day && self.day <= 31 && self.hour < 24
            && self.minute < 60 && self.second < 60 && self.nanosecond < 1_000_000_000
    }

    /// Appends the date.
    fn append_date(&self, out: &mut String)
        ensures
            final(out)@ == old(out)@ + self.date_text(),
    {
        proof {
            reveal_strlit("/");
            reveal_strlit("-");
            reveal_strlit("+");
        }
        append_padded(out, self.day as u32, 2);
        out.append("/");
        append_padded(out, self.month as u32, 2);
        out.append("/");
        if self.year < 0 {
            let magnitude: i64 = -(self.year as i64);
            out.append("-");
            append_padded(out, magnitude as u32, 4);
        } else {
            if self.year >= 10000 {
                out.append("+");
            }
            append_padded(out, self.year as u32, 4);
        }
        assert(out@ =~= old(out)@ + self.date_text());
    }

    /// Appends the time of day.
    fn append_time(&self, out: &mut String)
        ensures
            final(out)@ == old(out)@ + self.time_text(),
    {
        proof {
            reveal_strlit(":");
            reveal_strlit(".");
        }
        append_padded(out, self.hour as u32, 2);
        out.append(":");
        append_padded(out, self.minute as u32, 2);
        out.append(":");
        append_padded(out, self.second as u32, 2);
        out.append(".");
        append_padded(out, self.nanosecond / 10_000_000, 2);
        assert(out@ =~= old(out)@ + self.time_text());
    }

    /// The display form of the reading.
    pub fn render(&self) -> (out: String)
        ensures
            out@ == self.text(),
    {
        proof {
            reveal_strlit(" at ");
        }
        let mut out = String::new();
        self.append_date(&mut out);
        out.append(" at ");
        self.append_time(&mut out);
        assert(out@ =~= self.text());
        out
    }
}

/// The text of one decimal digit.
fn digit_text(d: u32) -> (text: &'static str)
    requires
        d < 10,
    ensures
        text@ == seq![digit_char(d as int)],
{
    proof {
        reveal_strlit("0");
        reveal_strlit("1");
        reveal_strlit("2");
        reveal_strlit("3");
        reveal_strlit("4");
        reveal_strlit("5");
        reveal_strlit("6");
        reveal_strlit("7");
        reveal_strlit("8");
        reveal_strlit("9");
    }
    let text = match d {
        0 => "0",
        1 => "1",
        2 => "2",
        3 => "3",
        4 => "4",
        5 => "5",
        6 => "6",
        7 => "7",
        8 => "8",
        _ => "9",
    };
    assert(text@ =~= seq![digit_char(d as int)]);
    text
}

/// The number of decimal digits of `n`.
fn digit_count(n: u32) -> (count: usize)
    ensures
        count == decimal(n as nat).len(),
        1 <= count <= n + 1,
    decreases n,
{
    if n < 10 {
        1
    } else {
        digit_count(n / 10) + 1
    }
}

/// Appends the decimal digits of `n`.
fn append_decimal(out: &mut String, n: u32)
    ensures
        final(out)@ == old(out)@ + decimal(n as nat),
    decreases n,
{
    if n >= 10 {
        append_decimal(out, n / 10);
    }
    out.append(digit_text(n % 10));
    assert(out@ =~= old(out)@ + decimal(n as nat));
}

/// Appends `n` in decimal, with zeros in front up to `width` characters.
pub fn append_padded(out: &mut String, n: u32, width: usize)
    ensures
        final(out)@ == old(out)@ + zero_padded(n as nat, width as nat),
{
    let count = digit_count(n);
    let mut filled: usize = count;
    while filled < width
        invariant
            count <= filled,
            filled <= width || filled == count,
            out@ == old(out)@ + zeros(filled - count),
        decreases width - filled,
    {
        proof {
            reveal_strlit("0");
        }
        out.append("0");
        filled += 1;
        assert(out@ =~= old(out)@ + zeros(filled - count));
    }
    append_decimal(out, n);
    assert(zeros(filled - count) =~= zeros(width - decimal(n as nat).len()));
    assert(out@ =~= old(out)@ + zero_padded(n as nat, width as nat));
}

/// Decimal digits hold no escape character.
proof fn lemma_decimal_escape_free(n: nat)
    ensures
        escape_free(decimal(n)),
    decreases n,
{
    reveal(escape_free);
    if n >= 10 {
        lemma_decimal_escape_free(n / 10);
    }
}

/// Nor do they with zeros in front.
proof fn lemma_zero_padded_escape_free(n: nat, width: nat)
    ensures
        escape_free(zero_padded(n, width)),
{
    lemma_decimal_escape_free(n);
    assert(escape_free(zeros(width - decimal(n).len()))) by {
        reveal(escape_free);
    }
    lemma_escape_free_concat(zeros(width - decimal(n).len()), decimal(n));
}

/// Nor does a year.
proof fn lemma_year_escape_free(year: int)
    ensures
        escape_free(year_text(year)),
{
    let magnitude = if year < 0 { (-year) as nat } else { year as nat };
    lemma_zero_padded_escape_free(magnitude, 4);
    assert(escape_free(seq!['-']) && escape_free(seq!['+'])) by {
        reveal(escape_free);
    }
    lemma_escape_free_concat(seq!['-'], zero_padded(magnitude, 4));
    lemma_escape_free_concat(seq!['+'], zero_padded(magnitude, 4));
}

/// Two texts without the escape character, joined by a character that is
/// not the escape character, give another.
proof fn lemma_escape_free_joined(left: Seq<char>, joint: char, right: Seq<char>)
    requires
        escape_free(left),
        escape_free(right),
        joint != '\u{1b}',
    ensures
        escape_free(left + seq![joint] + right),
{
    assert(escape_free(seq![joint])) by {
        reveal(escape_free);
    }
    lemma_escape_free_concat(left, seq![joint]);
    lemma_escape_free_concat(left + seq![joint], right);
}

/// The display form of a reading holds no escape character, and so no reset
/// sequence: styling it never has to touch the text itself.
pub proof fn lemma_text_has_no_reset(reading: Timestamp)
    ensures
        escape_free(reading.text()),
        !has_reset(reading.text()),
{
    let day = zero_padded(reading.day as nat, 2);
    let month = zero_padded(reading.month as nat, 2);
    let year = year_text(reading.year as int);
    lemma_zero_padded_escape_free(reading.day as nat, 2);
    lemma_zero_padded_escape_free(reading.month as nat, 2);
    lemma_year_escape_free(reading.year as int);
    lemma_escape_free_joined(day, '/', month);
    lemma_escape_free_joined(day + seq!['/'] + month, '/', year);

    let hour = zero_padded(reading.hour as nat, 2);
    let minute = zero_padded(reading.minute as nat, 2);
    let second = zero_padded(reading.second as nat, 2);
    let hundredths = zero_padded((reading.nanosecond / 10_000_000) as nat, 2);
    lemma_zero_padded_escape_free(reading.hour as nat, 2);
    lemma_zero_padded_escape_free(reading.minute as nat, 2);
    lemma_zero_padded_escape_free(reading.second as nat, 2);
    lemma_zero_padded_escape_free((reading.nanosecond / 10_000_000) as nat, 2);
    lemma_escape_free_joined(hour, ':', minute);
    lemma_escape_free_joined(hour + seq![':'] + minute, ':', second);
    lemma_escape_free_joined(hour + seq![':'] + minute + seq![':'] + second, '.', hundredths);

    assert(escape_free(seq![' ', 'a', 't', ' '])) by {
        reveal(escape_free);
    }
    lemma_escape_free_concat(reading.date_text(), seq![' ', 'a', 't', ' ']);
    lemma_escape_free_concat(reading.date_text() + seq![' ', 'a', 't', ' '], reading.time_text());
    lemma_escape_free_has_no_reset(reading.text());
}

/// Numbers below a hundred take two characters when padded to two, and
/// numbers below ten thousand four when padded to four.
pub proof fn lemma_padded_width(n: nat)
    ensures
        n < 100 ==> zero_padded(n, 2).len() == 2,
        n < 10000 ==> zero_padded(n, 4).len() == 4,
{
    reveal_with_fuel(decimal, 5);
}

/// The display form of a valid reading in the years 0 to 9999 has the shape
/// `DD/MM/YYYY at HH:MM:SS.ss`: twenty-five characters, with the separators
/// at their places.
pub proof fn lemma_text_shape(reading: Timestamp)
    requires
        reading.wf(),
        0 <= reading.year <= 9999,
    ensures
        reading.text().len() == 25,
        reading.text()[2] == '/',
        reading.text()[5] == '/',
        reading.text().subrange(10, 14) == seq![' ', 'a', 't', ' '],
        reading.text()[16] == ':',
        reading.text()[19] == ':',
        reading.text()[22] == '.',
{
    lemma_padded_width(reading.day as nat);
    lemma_padded_width(reading.month as nat);
    lemma_padded_width(reading.year as nat);
    lemma_padded_width(reading.hour as nat);
    lemma_padded_width(reading.minute as nat);
    lemma_padded_width(reading.second as nat);
    lemma_padded_width((reading.nanosecond / 10_000_000) as nat);
    assert(reading.date_text().len() == 10);
    assert(reading.time_text().len() == 11);
    assert(reading.text().subrange(10, 14) =~= seq![' ', 'a', 't', ' ']);
}

/// `time::OffsetDateTime`, a moment with its offset from universal time,
/// carried through as it is.
#[verifier::external_type_specification]
#[verifier::external_body]
pub struct ExOffsetDateTime(OffsetDateTime);

/// `time::error::IndeterminateOffset`, the error of a time zone that cannot
/// be determined.
#[verifier::external_type_specification]
#[verifier::external_body]
pub struct ExIndeterminateOffset(IndeterminateOffset);

/// `time::OffsetDateTime::now_local`: the current moment in the machine's
/// time zone, or an error where the zone cannot be determined. Nothing is
/// claimed of a moment read from the clock. The crate panics where the
/// system clock lies outside the years it can hold.
pub assume_specification[ OffsetDateTime::now_local ]() -> (moment: Result<
    OffsetDateTime,
    IndeterminateOffset,
>)
;

/// `time::OffsetDateTime::now_utc`: the current moment in universal time.
/// Nothing is claimed of it either, and the crate panics on the same clocks.
pub assume_specification[ OffsetDateTime::now_utc ]() -> (moment: OffsetDateTime)
;

/// The calendar and clock fields of a moment, read with the getters `year`,
/// `month`, `day`, `hour`, `minute`, `second` and `nanosecond` of
/// `time::OffsetDateTime`. The crate documents the month as one of the
/// twelve of its enum, numbered from 1, and the other ranges on each getter.
#[verifier::external_body]
fn reading_of(moment: &OffsetDateTime) -> (reading: Timestamp)
    ensures
        reading.wf(),
{
    Timestamp {
        year: moment.year(),
        month: u8::from(moment.month()),
        day: moment.day(),
        hour: moment.hour(),
        minute: moment.minute(),
        second: moment.second(),
        nanosecond: moment.nanosecond(),
    }
}

/// Reads the clock: local time where the time zone can be determined,
/// universal time otherwise.
pub fn now() -> (reading: Timestamp)
    ensures
        reading.wf(),
{
    let moment = match OffsetDateTime::now_local() {
        Ok(local) => local,
        Err(_) => OffsetDateTime::now_utc(),
    };
    reading_of(&moment)
}

/// Whether `out` is the dimmed display form of some valid reading.
pub open spec fn is_formatted_timestamp(out: Seq<char>) -> bool {
    exists|reading: Timestamp|
        reading.wf() && #[trigger] renders(out, reading.text(), TagStyle::Dimmed)
}

/// Styles the display form of a reading as timestamps are shown: dimmed.
pub fn format_timestamp(reading: &Timestamp) -> (out: String)
    ensures
        renders(out@, reading.text(), TagStyle::Dimmed),
{
    proof {
        lemma_text_has_no_reset(*reading);
    }
    let text = reading.render();
    paint(text.as_str(), TagStyle::Dimmed)
}

/// The current time as it stands at the head of a line.
pub fn get_formatted_timestamp() -> (out: String)
    ensures
        is_formatted_timestamp(out@),
{
    let reading = now();
    format_timestamp(&reading)
}

} // verus!
