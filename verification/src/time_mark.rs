//! The time mark of a snapshot: a local date and time of day at second
//! resolution, and its text `DD.MM.YYYY HH-MM-SS`, which names the snapshot's
//! directory and from which the mark is read back.

use crate::calendar::{is_valid_date, is_valid_time, valid_date, valid_time};
use vstd::prelude::*;
use vstd::string::*;

verus! {

/// A local date and time of day at second resolution.
#[derive(Clone, Copy, Debug, PartialEq, Eq, Structural)]
pub struct TimeMark {
    pub year: u16,
    pub month: u8,
    pub day: u8,
    pub hour: u8,
    pub minute: u8,
    pub second: u8,
}

impl TimeMark {
    /// The mark names an existing day of a year from 0 to 9999 and a time of
    /// that day.
    pub open spec fn wf(&self) -> bool {
        &&& valid_date(self.year as int, self.month as int, self.day as int)
        &&& valid_time(self.hour as int, self.minute as int, self.second as int)
    }

    /// Whether the mark is well-formed.
    pub fn is_well_formed(&self) -> (valid: bool)
        ensures
            valid == self.wf(),
    {
        is_valid_date(self.year, self.month, self.day) && is_valid_time(
            self.hour,
            self.minute,
            self.second,
        )
    }

    /// The mark with these fields; `None` where they name no day that exists,
    /// no time of day, or a year outside 0 to 9999.
    pub fn new(year: i32, month: u32, day: u32, hour: u32, minute: u32, second: u32) -> (mark:
        Option<TimeMark>)
        ensures
            mark == (if valid_date(year as int, month as int, day as int) && valid_time(
                hour as int,
                minute as int,
                second as int,
            ) {
                Some(
                    TimeMark {
                        year: year as u16,
                        month: month as u8,
                        day: day as u8,
                        hour: hour as u8,
                        minute: minute as u8,
                        second: second as u8,
                    },
                )
            } else {
                None
            }),
    {
        if year < 0 || year > 9999 || month > 12 || day > 31 || hour > 23 || minute > 59 || second
            > 59 {
            return None;
        }
        let mark = TimeMark {
            year: year as u16,
            month: month as u8,
            day: day as u8,
            hour: hour as u8,
            minute: minute as u8,
            second: second as u8,
        };
        if is_valid_date(mark.year, mark.month, mark.day) && is_valid_time(
            mark.hour,
            mark.minute,
            mark.second,
        ) {
            Some(mark)
        } else {
            None
        }
    }
}

/// The character of the decimal digit `d`.
pub open spec fn digit_char(d: int) -> char {
    (d + '0' as int) as char
}

/// Whether `c` is one of the ten decimal digits.
pub open spec fn is_digit(c: char) -> bool {
    '0' <= c <= '9'
}

/// The value of the decimal digit `c`.
pub open spec fn digit_value(c: char) -> int {
    c as int - '0' as int
}

/// The two decimal digits of `n`, for `n` from 0 to 99.
pub open spec fn two_digits(n: int) -> Seq<char> {
    seq![digit_char(n / 10), digit_char(n % 10)]
}

/// The four decimal digits of `n`, for `n` from 0 to 9999.
pub open spec fn four_digits(n: int) -> Seq<char> {
    seq![
        digit_char(n / 1000),
        digit_char(n / 100 % 10),
        digit_char(n / 10 % 10),
        digit_char(n % 10),
    ]
}

/// The text of a mark: day, month and four-digit year parted by dots, a
/// space, then hour, minute and second parted by hyphens, each field padded
/// with zeros to its width.
pub open spec fn time_mark_text(mark: TimeMark) -> Seq<char> {
    two_digits(mark.day as int) + seq!['.'] + two_digits(mark.month as int) + seq!['.']
        + four_digits(mark.year as int) + seq![' '] + two_digits(mark.hour as int) + seq!['-']
        + two_digits(mark.minute as int) + seq!['-'] + two_digits(mark.second as int)
}

/// The number written by the two digits of `text` that start at `at`; `None`
/// where one of the two characters is no digit.
pub open spec fn pair_at(text: Seq<char>, at: int) -> Option<int> {
    if is_digit(text[at]) && is_digit(text[at + 1]) {
        Some(10 * digit_value(text[at]) + digit_value(text[at + 1]))
    } else {
        None
    }
}

/// The number written by the four digits of `text` that start at `at`; `None`
/// where one of the four characters is no digit.
pub open spec fn quad_at(text: Seq<char>, at: int) -> Option<int> {
    match (pair_at(text, at), pair_at(text, at + 2)) {
        (Some(high), Some(low)) => Some(100 * high + low),
        _ => None,
    }
}

/// The mark that `text` writes; `None` where `text` is not the text of a
/// well-formed mark.
pub open spec fn parsed_text(text: Seq<char>) -> Option<TimeMark> {
    if text.len() == 19 && text[2] == '.' && text[5] == '.' && text[10] == ' ' && text[13] == '-'
        && text[16] == '-' {
        match (
            pair_at(text, 0),
            pair_at(text, 3),
            quad_at(text, 6),
            pair_at(text, 11),
            pair_at(text, 14),
            pair_at(text, 17),
        ) {
            (Some(day), Some(month), Some(year), Some(hour), Some(minute), Some(second)) => {
                if valid_date(year, month, day) && valid_time(hour, minute, second) {
                    Some(
                        TimeMark {
                            year: year as u16,
                            month: month as u8,
                            day: day as u8,
                            hour: hour as u8,
                            minute: minute as u8,
                            second: second as u8,
                        },
                    )
                } else {
                    None
                }
            },
            _ => None,
        }
    } else {
        None
    }
}

/// Whether `text` holds, place by place, the digits of `mark`'s fields and
/// the separators between them.
spec fn laid_out(text: Seq<char>, mark: TimeMark) -> bool {
    &&& text.len() == 19
    &&& text[0] == digit_char(mark.day as int / 10)
    &&& text[1] == digit_char(mark.day as int % 10)
    &&& text[2] == '.'
    &&& text[3] == digit_char(mark.month as int / 10)
    &&& text[4] == digit_char(mark.month as int % 10)
    &&& text[5] == '.'
    &&& text[6] == digit_char(mark.year as int / 1000)
    &&& text[7] == digit_char(mark.year as int / 100 % 10)
    &&& text[8] == digit_char(mark.year as int / 10 % 10)
    &&& text[9] == digit_char(mark.year as int % 10)
    &&& text[10] == ' '
    &&& text[11] == digit_char(mark.hour as int / 10)
    &&& text[12] == digit_char(mark.hour as int % 10)
    &&& text[13] == '-'
    &&& text[14] == digit_char(mark.minute as int / 10)
    &&& text[15] == digit_char(mark.minute as int % 10)
    &&& text[16] == '-'
    &&& text[17] == digit_char(mark.second as int / 10)
    &&& text[18] == digit_char(mark.second as int % 10)
}

/// The text of a mark is laid out as `laid_out` says, and nothing else is.
proof fn lemma_text_layout(text: Seq<char>, mark: TimeMark)
    ensures
        laid_out(text, mark) <==> text == time_mark_text(mark),
{
    let made = time_mark_text(mark);
    assert(laid_out(made, mark));
    if laid_out(text, mark) {
        assert(text =~= made);
    }
}

/// Two digits written for a number below 100 are read as that number.
proof fn lemma_pair_reads(text: Seq<char>, at: int, n: int)
    requires
        0 <= n <= 99,
        text[at] == digit_char(n / 10),
        text[at + 1] == digit_char(n % 10),
    ensures
        pair_at(text, at) == Some(n),
{
}

/// Four digits written for a number below 10000 are read as that number.
proof fn lemma_quad_reads(text: Seq<char>, at: int, n: int)
    requires
        0 <= n <= 9999,
        text[at] == digit_char(n / 1000),
        text[at + 1] == digit_char(n / 100 % 10),
        text[at + 2] == digit_char(n / 10 % 10),
        text[at + 3] == digit_char(n % 10),
    ensures
        quad_at(text, at) == Some(n),
{
    let high = n / 100;
    let low = n % 100;
    assert(n / 1000 == high / 10 && n / 100 % 10 == high % 10);
    assert(n / 10 % 10 == low / 10 && n % 10 == low % 10);
    lemma_pair_reads(text, at, high);
    lemma_pair_reads(text, at + 2, low);
}

/// A text laid out for a well-formed mark parses to that mark.
proof fn lemma_layout_parses(text: Seq<char>, mark: TimeMark)
    requires
        mark.wf(),
        laid_out(text, mark),
    ensures
        parsed_text(text) == Some(mark),
{
    lemma_pair_reads(text, 0, mark.day as int);
    lemma_pair_reads(text, 3, mark.month as int);
    lemma_quad_reads(text, 6, mark.year as int);
    lemma_pair_reads(text, 11, mark.hour as int);
    lemma_pair_reads(text, 14, mark.minute as int);
    lemma_pair_reads(text, 17, mark.second as int);
}

/// Formatting and then parsing gives the mark back: every well-formed mark
/// is what its own text parses to.
pub proof fn lemma_text_parses(mark: TimeMark)
    requires
        mark.wf(),
    ensures
        time_mark_text(mark).len() == 19,
        parsed_text(time_mark_text(mark)) == Some(mark),
{
    lemma_text_layout(time_mark_text(mark), mark);
    lemma_layout_parses(time_mark_text(mark), mark);
}

/// Two digits read at `at` are the two digits of the number they write.
proof fn lemma_pair_digits(text: Seq<char>, at: int)
    requires
        pair_at(text, at) is Some,
    ensures
        0 <= pair_at(text, at)->0 <= 99,
        text[at] == digit_char(pair_at(text, at)->0 / 10),
        text[at + 1] == digit_char(pair_at(text, at)->0 % 10),
{
    let n = pair_at(text, at)->0;
    assert(n / 10 == digit_value(text[at]));
    assert(n % 10 == digit_value(text[at + 1]));
}

/// The decimal digits of a number below 10000 are the digits it was put
/// together from.
proof fn lemma_decimal(a: int, b: int, c: int, d: int)
    requires
        0 <= a <= 9,
        0 <= b <= 9,
        0 <= c <= 9,
        0 <= d <= 9,
    ensures
        (1000 * a + 100 * b + 10 * c + d) / 1000 == a,
        (1000 * a + 100 * b + 10 * c + d) / 100 % 10 == b,
        (1000 * a + 100 * b + 10 * c + d) / 10 % 10 == c,
        (1000 * a + 100 * b + 10 * c + d) % 10 == d,
{
    let n = 1000 * a + 100 * b + 10 * c + d;
    assert(n / 100 == 10 * a + b);
    assert(n / 10 == 100 * a + 10 * b + c);
}

/// Four digits read at `at` are the four digits of the number they write.
proof fn lemma_quad_digits(text: Seq<char>, at: int)
    requires
        quad_at(text, at) is Some,
    ensures
        0 <= quad_at(text, at)->0 <= 9999,
        text[at] == digit_char(quad_at(text, at)->0 / 1000),
        text[at + 1] == digit_char(quad_at(text, at)->0 / 100 % 10),
        text[at + 2] == digit_char(quad_at(text, at)->0 / 10 % 10),
        text[at + 3] == digit_char(quad_at(text, at)->0 % 10),
{
    let n = quad_at(text, at)->0;
    let a = digit_value(text[at]);
    let b = digit_value(text[at + 1]);
    let c = digit_value(text[at + 2]);
    let d = digit_value(text[at + 3]);
    assert(n == 1000 * a + 100 * b + 10 * c + d);
    lemma_decimal(a, b, c, d);
}

/// A text that parses is laid out for the mark it parses to.
proof fn lemma_parsed_layout(text: Seq<char>)
    requires
        parsed_text(text) is Some,
    ensures
        parsed_text(text)->0.wf(),
        laid_out(text, parsed_text(text)->0),
{
    lemma_pair_digits(text, 0);
    lemma_pair_digits(text, 3);
    lemma_quad_digits(text, 6);
    lemma_pair_digits(text, 11);
    lemma_pair_digits(text, 14);
    lemma_pair_digits(text, 17);
}

/// Parsing and then formatting gives the text back: a text parses only to a
/// well-formed mark, and only to the one whose text it is.
pub proof fn lemma_parsed_text_formats(text: Seq<char>)
    requires
        parsed_text(text) is Some,
    ensures
        parsed_text(text)->0.wf(),
        time_mark_text(parsed_text(text)->0) == text,
{
    lemma_parsed_layout(text);
    lemma_text_layout(text, parsed_text(text)->0);
}

/// Two well-formed marks with the same text are the same mark.
pub proof fn lemma_text_injective(first: TimeMark, second: TimeMark)
    requires
        first.wf(),
        second.wf(),
        time_mark_text(first) == time_mark_text(second),
    ensures
        first == second,
{
    lemma_text_parses(first);
    lemma_text_parses(second);
}

/// The pattern of a mark's text in `strftime` notation.
pub fn get_time_mark_format() -> (pattern: &'static str)
    ensures
        pattern@ == "%d.%m.%Y %H-%M-%S"@,
{
    "%d.%m.%Y %H-%M-%S"
}

fn digit_text(d: u8) -> (text: &'static str)
    requires
        d <= 9,
    ensures
        text@ == seq![digit_char(d as int)],
{
    proof {
        reveal_strlit("0");
        reveal_strlit("1");
        reveal_strlit("2");
        reveal_strlit("3");
        reveal_strlit("4");
        reveal_strlit("5");
        reveal_strlit("6");
        reveal_strlit("7");
        reveal_strlit("8");
        reveal_strlit("9");
    }
    let text = match d {
        0 => "0",
        1 => "1",
        2 => "2",
        3 => "3",
        4 => "4",
        5 => "5",
        6 => "6",
        7 => "7",
        8 => "8",
        _ => "9",
    };
    assert(text@ =~= seq![digit_char(d as int)]);
    text
}

fn push_two_digits(text: &mut String, n: u8)
    requires
        n <= 99,
    ensures
        final(text)@ == old(text)@ + two_digits(n as int),
{
    text.append(digit_text(n / 10));
    text.append(digit_text(n % 10));
    assert(text@ =~= old(text)@ + two_digits(n as int));
}

fn push_four_digits(text: &mut String, n: u16)
    requires
        n <= 9999,
    ensures
        final(text)@ == old(text)@ + four_digits(n as int),
{
    text.append(digit_text((n / 1000) as u8));
    text.append(digit_text((n / 100 % 10) as u8));
    text.append(digit_text((n / 10 % 10) as u8));
    text.append(digit_text((n % 10) as u8));
    assert(text@ =~= old(text)@ + four_digits(n as int));
}

/// Writes a mark as `DD.MM.YYYY HH-MM-SS`.
pub fn format_time_mark(mark: &TimeMark) -> (text: String)
    requires
        mark.wf(),
    ensures
        text@ == time_mark_text(*mark),
{
    proof {
        reveal_strlit(".");
        reveal_strlit(" ");
        reveal_strlit("-");
    }
    let mut text = String::new();
    push_two_digits(&mut text, mark.day);
    text.append(".");
    push_two_digits(&mut text, mark.month);
    text.append(".");
    push_four_digits(&mut text, mark.year);
    text.append(" ");
    push_two_digits(&mut text, mark.hour);
    text.append("-");
    push_two_digits(&mut text, mark.minute);
    text.append("-");
    push_two_digits(&mut text, mark.second);
    assert(text@ =~= time_mark_text(*mark));
    text
}

fn read_pair(text: &str, at: usize) -> (number: Option<u8>)
    requires
        at < usize::MAX,
        at + 1 < text@.len(),
    ensures
        number.is_some() == pair_at(text@, at as int).is_some(),
        number is Some ==> pair_at(text@, at as int) == Some(number->0 as int),
{
    let high: char = text.get_char(at);
    let low: char = text.get_char(at + 1);
    if '0' <= high && high <= '9' && '0' <= low && low <= '9' {
        let tens: u8 = (high as u32 - '0' as u32) as u8;
        let ones: u8 = (low as u32 - '0' as u32) as u8;
        Some(10 * tens + ones)
    } else {
        None
    }
}

/// Reads a mark back from its text; `None` for any other text.
pub fn parse_time_mark(text: &str) -> (mark: Option<TimeMark>)
    ensures
        mark == parsed_text(text@),
{
    if text.unicode_len() != 19 {
        return None;
    }
    if text.get_char(2) != '.' || text.get_char(5) != '.' || text.get_char(10) != ' '
        || text.get_char(13) != '-' || text.get_char(16) != '-' {
        return None;
    }
    let day = read_pair(text, 0);
    let month = read_pair(text, 3);
    let century = read_pair(text, 6);
    let years = read_pair(text, 8);
    let hour = read_pair(text, 11);
    let minute = read_pair(text, 14);
    let second = read_pair(text, 17);
    match (day, month, century, years, hour, minute, second) {
        (
            Some(day),
            Some(month),
            Some(century),
            Some(years),
            Some(hour),
            Some(minute),
            Some(second),
        ) => {
            let year: u16 = 100 * (century as u16) + years as u16;
            if is_valid_date(year, month, day) && is_valid_time(hour, minute, second) {
                Some(TimeMark { year, month, day, hour, minute, second })
            } else {
                None
            }
        },
        _ => None,
    }
}

} // verus!
