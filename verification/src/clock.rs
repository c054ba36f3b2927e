//! The time of day, as `chrono` tells it.
use crate::text::ascii_digit;
use vstd::prelude::*;

verus! {

/// The format of a date with hyphens.
pub const DATE_FORMAT: &'static str = "%Y-%m-%d";

/// The format of a date without hyphens.
pub const COMPACT_DATE_FORMAT: &'static str = "%Y%m%d";

/// Whether a text is a year: at least four digits, or a sign and at least that many
/// characters in all.
pub open spec fn year_text(text: Seq<char>) -> bool {
    text.len() >= 4 && forall|i: int|
        0 <= i < text.len() ==> ascii_digit(#[trigger] text[i]) || (i == 0 && (text[i] == '+'
            || text[i] == '-'))
}

/// Whether a text is a month or a day: two digits.
pub open spec fn two_digits(text: Seq<char>) -> bool {
    text.len() == 2 && ascii_digit(text[0]) && ascii_digit(text[1])
}

/// Whether a text is a year, a month and a day, with hyphens between them.
pub open spec fn date_text(text: Seq<char>) -> bool {
    let year = text.len() - 6;
    &&& year >= 4
    &&& year_text(text.take(year))
    &&& text[year] == '-'
    &&& two_digits(text.subrange(year + 1, year + 3))
    &&& text[year + 3] == '-'
    &&& two_digits(text.subrange(year + 4, year + 6))
}

/// Whether a text is a year, a month and a day, with nothing between them.
pub open spec fn compact_date_text(text: Seq<char>) -> bool {
    let year = text.len() - 4;
    &&& year >= 4
    &&& year_text(text.take(year))
    &&& two_digits(text.subrange(year, year + 2))
    &&& two_digits(text.subrange(year + 2, year + 4))
}

/// The two forms of a date: with hyphens in the text of a clip, and without in its name.
pub proof fn law_forms_of_dates()
    ensures
        DATE_FORMAT@ == "%Y-%m-%d"@,
        COMPACT_DATE_FORMAT@ == "%Y%m%d"@,
{
}

/// `timestamp_millis` of `chrono::Local::now`: the milliseconds since the start of 1970.
/// Nothing is said of the number, which depends on the clock. The call panics where the clock
/// stands before that.
#[verifier::external_body]
pub(crate) fn now_millis() -> (millis: i64) {
    chrono::Local::now().timestamp_millis()
}

/// `chrono::Local::now`, formatted as a date: a year, filled up to four digits and with a sign
/// where it takes more or is negative, then the month and the day, of two digits each.
/// Which day it is depends on the clock and on the time zone. The call panics where the clock
/// stands before 1970.
#[verifier::external_body]
pub(crate) fn today(format: &str) -> (date: String)
    requires
        format@ == DATE_FORMAT@ || format@ == COMPACT_DATE_FORMAT@,
    ensures
        format@ == DATE_FORMAT@ ==> date_text(date@),
        format@ == COMPACT_DATE_FORMAT@ ==> compact_date_text(date@),
{
    chrono::Local::now().format(format).to_string()
}

} // verus!
