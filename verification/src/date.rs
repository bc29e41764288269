//! A calendar date held as plain year / month / day values, with the
//! Gregorian validity rule, ordering, and parsing of `YYYY-MM-DD` text.

use vstd::prelude::*;
use crate::numeric::{
    all_digits,
    digits_val,
    is_digit_char,
    lemma_digits_val2,
    lemma_digits_val4,
    lemma_digits_val_len_bound,
};

verus! {

/// A calendar date. A value is meaningful when [`date_valid`] holds of it;
/// the constructors in this module only produce such values.
#[derive(Debug, Clone, Copy, PartialEq, Eq, Structural)]
pub struct Date {
    pub year: u16,
    pub month: u8,
    pub day: u8,
}

impl View for Date {
    type V = Date;

    open spec fn view(&self) -> Date {
        *self
    }
}

impl DeepView for Date {
    type V = Date;

    open spec fn deep_view(&self) -> Date {
        *self
    }
}

/// Whether `y` is a leap year in the Gregorian calendar.
pub open spec fn spec_is_leap_year(y: int) -> bool {
    (y % 4 == 0 && y % 100 != 0) || y % 400 == 0
}

/// The number of days in month `m` of year `y`.
pub open spec fn spec_days_in_month(y: int, m: int) -> int {
    if m == 2 {
        if spec_is_leap_year(y) {
            29
        } else {
            28
        }
    } else if m == 4 || m == 6 || m == 9 || m == 11 {
        30
    } else {
        31
    }
}

/// Whether `d` denotes an existing calendar date with a four-digit year.
pub open spec fn date_valid(d: Date) -> bool {
    &&& d.year <= 9999
    &&& 1 <= d.month <= 12
    &&& 1 <= d.day <= spec_days_in_month(d.year as int, d.month as int)
}

/// Strict calendar order: by year, then month, then day.
pub open spec fn date_before(a: Date, b: Date) -> bool {
    ||| a.year < b.year
    ||| (a.year == b.year && a.month < b.month)
    ||| (a.year == b.year && a.month == b.month && a.day < b.day)
}

/// Whether `s` is shaped like `YYYY-MM-DD`: ten characters, dashes in the
/// middle, digits everywhere else.
pub open spec fn date_text_shaped(s: Seq<char>) -> bool {
    &&& s.len() == 10
    &&& s[4] == '-'
    &&& s[7] == '-'
    &&& all_digits(s.subrange(0, 4))
    &&& all_digits(s.subrange(5, 7))
    &&& all_digits(s.subrange(8, 10))
}

/// The date denoted by well-shaped `YYYY-MM-DD` text (meaningful only then).
pub open spec fn date_of_text(s: Seq<char>) -> Date {
    Date {
        year: digits_val(s.subrange(0, 4)) as u16,
        month: digits_val(s.subrange(5, 7)) as u8,
        day: digits_val(s.subrange(8, 10)) as u8,
    }
}

/// What parsing `s` as a date yields: the denoted date when the text is well
/// shaped and the date exists, nothing otherwise.
pub open spec fn spec_parse_date(s: Seq<char>) -> Option<Date> {
    if date_text_shaped(s) && date_valid(date_of_text(s)) {
        Some(date_of_text(s))
    } else {
        None
    }
}

impl Date {
    /// Builds the date if it exists in the calendar.
    pub fn new(year: u16, month: u8, day: u8) -> (r: Option<Date>)
        ensures
            date_valid(Date { year, month, day }) ==> r == Some(Date { year, month, day }),
            !date_valid(Date { year, month, day }) ==> r is None,
    {
        let d = Date { year, month, day };
        if d.valid() {
            Some(d)
        } else {
            None
        }
    }

    /// Whether this value denotes an existing calendar date.
    pub fn valid(&self) -> (r: bool)
        ensures
            r == date_valid(*self),
    {
        self.year <= 9999 && 1 <= self.month && self.month <= 12 && 1 <= self.day
            && self.day <= days_in_month(self.year, self.month)
    }

    /// Strict calendar order: by year, then month, then day.
    pub fn before(&self, other: &Date) -> (r: bool)
        ensures
            r == date_before(*self, *other),
    {
        self.year < other.year || (self.year == other.year && self.month < other.month) || (
        self.year == other.year && self.month == other.month && self.day < other.day)
    }
}

/// Whether `y` is a leap year in the Gregorian calendar.
pub fn is_leap_year(y: u16) -> (r: bool)
    ensures
        r == spec_is_leap_year(y as int),
{
    (y % 4 == 0 && y % 100 != 0) || y % 400 == 0
}

/// The number of days in month `m` of year `y`.
pub fn days_in_month(y: u16, m: u8) -> (r: u8)
    ensures
        r == spec_days_in_month(y as int, m as int),
{
    if m == 2 {
        if is_leap_year(y) {
            29
        } else {
            28
        }
    } else if m == 4 || m == 6 || m == 9 || m == 11 {
        30
    } else {
        31
    }
}

/// Reads the two-digit value at positions `at` and `at + 1`.
fn two_digits(s: &str, at: usize) -> (r: Option<u8>)
    requires
        at <= 8,
        at + 2 <= s@.len(),
    ensures
        match r {
            Some(v) => all_digits(s@.subrange(at as int, at + 2)) && v == digits_val(
                s@.subrange(at as int, at + 2),
            ),
            None => !all_digits(s@.subrange(at as int, at + 2)),
        },
{
    let ghost piece = s@.subrange(at as int, at + 2);
    proof {
        assert(piece.len() == 2);
        assert(piece[0] == s@[at as int]);
        assert(piece[1] == s@[at + 1]);
        lemma_digits_val2(piece);
    }
    let c0 = s.get_char(at);
    let c1 = s.get_char(at + 1);
    let v0 = c0 as u32;
    let v1 = c1 as u32;
    if v0 < 48 || v0 > 57 || v1 < 48 || v1 > 57 {
        proof {
            assert(!is_digit_char(piece[0]) || !is_digit_char(piece[1]));
        }
        return None;
    }
    assert(forall|i: int| 0 <= i < 2 ==> is_digit_char(#[trigger] piece[i]));
    Some(((v0 - 48) * 10 + (v1 - 48)) as u8)
}

/// Parses `YYYY-MM-DD` text into the calendar date it denotes, exactly when
/// [`spec_parse_date`] says it denotes one.
pub fn parse_date(s: &str) -> (r: Option<Date>)
    ensures
        r == spec_parse_date(s@),
{
    if s.unicode_len() != 10 {
        return None;
    }
    if s.get_char(4) != '-' || s.get_char(7) != '-' {
        return None;
    }
    let ghost ypart = s@.subrange(0, 4);
    let ghost ahead = s@.subrange(0, 2);
    let ghost atail = s@.subrange(2, 4);
    proof {
        assert(forall|i: int| 0 <= i < 2 ==> ypart[i] == #[trigger] ahead[i]);
        assert(forall|i: int| 0 <= i < 2 ==> ypart[i + 2] == #[trigger] atail[i]);
        assert(forall|i: int| 0 <= i < 4 ==> ypart[i] == s@[i]);
    }
    let y01 = match two_digits(s, 0) {
        Some(v) => v,
        None => {
            proof {
                let k = choose|i: int| 0 <= i < 2 && !is_digit_char(#[trigger] ahead[i]);
                assert(!is_digit_char(ypart[k]));
            }
            return None;
        },
    };
    let y23 = match two_digits(s, 2) {
        Some(v) => v,
        None => {
            proof {
                let k = choose|i: int| 0 <= i < 2 && !is_digit_char(#[trigger] atail[i]);
                assert(!is_digit_char(ypart[k + 2]));
            }
            return None;
        },
    };
    let month = match two_digits(s, 5) {
        Some(v) => v,
        None => {
            return None;
        },
    };
    let day = match two_digits(s, 8) {
        Some(v) => v,
        None => {
            return None;
        },
    };
    proof {
        assert forall|i: int| 0 <= i < 4 implies is_digit_char(#[trigger] ypart[i]) by {
            if i < 2 {
                assert(ypart[i] == ahead[i]);
                assert(is_digit_char(ahead[i]));
            } else {
                assert(ypart[i] == atail[i - 2]);
                assert(is_digit_char(atail[i - 2]));
            }
        }
        assert(all_digits(ypart));
        lemma_digits_val4(ypart);
        lemma_digits_val2(ahead);
        lemma_digits_val2(atail);
        assert(digits_val(ypart) == digits_val(ahead) * 100 + digits_val(atail));
        lemma_digits_val_len_bound(ahead);
        lemma_digits_val_len_bound(atail);
        lemma_digits_val_len_bound(s@.subrange(5, 7));
        lemma_digits_val_len_bound(s@.subrange(8, 10));
    }
    let year: u16 = (y01 as u16) * 100 + (y23 as u16);
    proof {
        assert(year == digits_val(ypart));
        assert(date_text_shaped(s@));
        assert(date_of_text(s@) == Date { year, month, day });
    }
    let d = Date { year, month, day };
    if d.valid() {
        Some(d)
    } else {
        None
    }
}

} // verus!
