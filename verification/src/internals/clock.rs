//! The wall clock, as text.

use vstd::prelude::*;

verus! {

/// Whether `c` is a decimal digit.
pub open spec fn is_digit(c: char) -> bool {
    48 <= (c as u32) <= 57
}

/// Whether every character of `text` is a decimal digit.
pub open spec fn all_digits(text: Seq<char>) -> bool {
    forall|i: int| 0 <= i < text.len() ==> is_digit(#[trigger] text[i])
}

/// A year as RFC 3339 text writes it: four digits, or a sign and at least four digits
/// for a year outside 0..=9999.
pub open spec fn is_year_text(year: Seq<char>) -> bool {
    ||| year.len() == 4 && all_digits(year)
    ||| year.len() >= 5 && (year[0] == '+' || year[0] == '-') && all_digits(year.drop_first())
}

/// The part after the year: `-MM-DDTHH:MM:SS`, each field two digits.
pub open spec fn is_date_time_text(t: Seq<char>) -> bool {
    &&& t.len() == 15
    &&& t[0] == '-' && is_digit(t[1]) && is_digit(t[2])
    &&& t[3] == '-' && is_digit(t[4]) && is_digit(t[5])
    &&& t[6] == 'T' && is_digit(t[7]) && is_digit(t[8])
    &&& t[9] == ':' && is_digit(t[10]) && is_digit(t[11])
    &&& t[12] == ':' && is_digit(t[13]) && is_digit(t[14])
}

/// The fraction of a second: none, or a point and three, six or nine digits.
pub open spec fn is_fraction_text(f: Seq<char>) -> bool {
    ||| f.len() == 0
    ||| (f.len() == 4 || f.len() == 7 || f.len() == 10) && f[0] == '.' && all_digits(f.drop_first())
}

/// Whether `text` is an RFC 3339 date-time in UTC as `DateTime::to_rfc3339` writes it:
/// year, `-MM-DDTHH:MM:SS`, an optional fraction of a second, and the offset `+00:00`.
pub open spec fn is_rfc3339_utc(text: Seq<char>) -> bool {
    exists|year: Seq<char>, date_time: Seq<char>, fraction: Seq<char>|
        is_year_text(year) && is_date_time_text(date_time) && is_fraction_text(fraction) && text
            == year + date_time + fraction + "+00:00"@
}

/// Wraps `chrono::Utc::now` followed by `DateTime::to_rfc3339`: the current time in UTC
/// as RFC 3339 text of the form `is_rfc3339_utc` describes (`write_rfc3339` writes the
/// year with four digits, or signed where it is outside 0..=9999, two digits for each
/// other field, a fraction of 3, 6 or 9 digits only where it is not zero, and the UTC
/// offset as `+00:00`). Which time it is depends on the clock and is not stated.
#[verifier::external_body]
pub(crate) fn now_rfc3339() -> (text: String)
    ensures
        is_rfc3339_utc(text@),
{
    chrono::Utc::now().to_rfc3339()
}

} // verus!
