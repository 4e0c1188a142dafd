//! Normalization of the raw year/date string of a document header into
//! the `(date, datefrom, dateto)` triple of the korp_mono format.
//!
//! Three forms are recognized: `YYYY`, `YYYY-YYYY` and a dotted date of
//! shape `NN.NN.YYYY` whose two leading numbers are disambiguated as day
//! and month. Anything else maps to the sentinel triple
//! `("0000-00-00", "00000000", "00000000")`.

use vstd::prelude::*;

verus! {

/// Is `c` a decimal digit?
pub open spec fn is_digit(c: char) -> bool {
    48 <= c as u32 && c as u32 <= 57
}

/// The numeric value of a digit character.
pub open spec fn digit_val(c: char) -> int {
    c as u32 - 48
}

/// All characters of `s` in `[from, to)` are decimal digits.
pub open spec fn all_digits_range(s: Seq<char>, from: int, to: int) -> bool {
    forall|i: int| from <= i < to ==> is_digit(#[trigger] s[i])
}

/// The value of the two-digit number at position `i`.
pub open spec fn two_digit_val(s: Seq<char>, i: int) -> int {
    digit_val(s[i]) * 10 + digit_val(s[i + 1])
}

/// `YYYY`: exactly four digits.
pub open spec fn is_year4(s: Seq<char>) -> bool {
    s.len() == 4 && all_digits_range(s, 0, 4)
}

/// `YYYY-YYYY`: four digits, a dash, four digits.
pub open spec fn is_year_range(s: Seq<char>) -> bool {
    s.len() == 9 && s[4] == '-' && all_digits_range(s, 0, 4) && all_digits_range(s, 5, 9)
}

/// `NN.NN.YYYY`: two digits, a dot, two digits, a dot, four digits.
pub open spec fn is_dotted_date(s: Seq<char>) -> bool {
    s.len() == 10 && s[2] == '.' && s[5] == '.' && all_digits_range(s, 0, 2)
        && all_digits_range(s, 3, 5) && all_digits_range(s, 6, 10)
}

/// The sentinel triple for unrecognized input.
pub open spec fn sentinel() -> (Seq<char>, Seq<char>, Seq<char>) {
    ("0000-00-00"@, "00000000"@, "00000000"@)
}

/// The triple for a single date: iso `Y-M-D` plus the compact form
/// `YMD` for both `datefrom` and `dateto`.
pub open spec fn single_date(y: Seq<char>, m: Seq<char>, d: Seq<char>) -> (
    Seq<char>,
    Seq<char>,
    Seq<char>,
) {
    (y + "-"@ + m + "-"@ + d, y + m + d, y + m + d)
}

/// The normalized triple for a dotted date `AA.BB.YYYY`, following the
/// disambiguation policy: a zero number is invalid; if both numbers fit a
/// month, the first is the day; otherwise whichever fits a month is the
/// month, provided the other fits a day; anything else is invalid.
pub open spec fn dotted_date_triple(s: Seq<char>) -> (Seq<char>, Seq<char>, Seq<char>) {
    let a = two_digit_val(s, 0);
    let b = two_digit_val(s, 3);
    let y = s.subrange(6, 10);
    let first = s.subrange(0, 2);
    let second = s.subrange(3, 5);
    if a == 0 || b == 0 {
        sentinel()
    } else if a <= 12 && b <= 12 {
        single_date(y, second, first)
    } else if a <= 12 && b <= 31 {
        single_date(y, first, second)
    } else if a <= 31 && b <= 12 {
        single_date(y, second, first)
    } else {
        sentinel()
    }
}

/// What the year normalizer returns for one raw string.
pub open spec fn spec_parse_year_str(s: Seq<char>) -> (Seq<char>, Seq<char>, Seq<char>) {
    if is_year4(s) {
        (s + "-01-01"@, s + "0101"@, s + "0101"@)
    } else if is_year_range(s) {
        (
            s.subrange(0, 4) + "-01-01"@,
            s.subrange(0, 4) + "0101"@,
            s.subrange(5, 9) + "0101"@,
        )
    } else if is_dotted_date(s) {
        dotted_date_triple(s)
    } else {
        sentinel()
    }
}

/// What the year normalizer returns, absent input mapping to the sentinel.
pub open spec fn spec_parse_year(y: Option<Seq<char>>) -> (Seq<char>, Seq<char>, Seq<char>) {
    match y {
        None => sentinel(),
        Some(s) => spec_parse_year_str(s),
    }
}

/// The view of the optional raw string.
pub open spec fn opt_str_view(y: Option<&str>) -> Option<Seq<char>> {
    match y {
        None => None,
        Some(s) => Some(s@),
    }
}

/// The sentinel triple.
fn zero_output() -> (r: (String, String, String))
    ensures
        (r.0@, r.1@, r.2@) == sentinel(),
{
    (
        "0000-00-00".to_owned(),
        "00000000".to_owned(),
        "00000000".to_owned(),
    )
}

/// Are the characters of `s` in `[from, to)` all decimal digits?
fn digits_in(s: &str, from: usize, to: usize) -> (b: bool)
    requires
        from <= to <= s@.len(),
    ensures
        b == all_digits_range(s@, from as int, to as int),
{
    let mut i = from;
    while i < to
        invariant
            from <= i <= to <= s@.len(),
            forall|j: int| from <= j < i ==> is_digit(#[trigger] s@[j]),
        decreases to - i,
    {
        let c = s.get_char(i);
        let v = c as u32;
        if v < 48 || v > 57 {
            return false;
        }
        i += 1;
    }
    true
}

/// The value of the two-digit number at position `i` of `s`.
fn two_digits(s: &str, i: usize) -> (v: u32)
    requires
        i < usize::MAX,
        i + 1 < s@.len(),
        is_digit(s@[i as int]),
        is_digit(s@[i as int + 1]),
    ensures
        v == two_digit_val(s@, i as int),
        v <= 99,
{
    let c0 = s.get_char(i) as u32;
    let c1 = s.get_char(i + 1) as u32;
    (c0 - 48) * 10 + (c1 - 48)
}

/// Build the triple for a single date from its year, month and day parts.
fn single_date_output(y: &str, m: &str, d: &str) -> (r: (String, String, String))
    ensures
        (r.0@, r.1@, r.2@) == single_date(y@, m@, d@),
{
    let mut iso = y.to_owned();
    iso.append("-");
    iso.append(m);
    iso.append("-");
    iso.append(d);
    let mut compact = y.to_owned();
    compact.append(m);
    compact.append(d);
    let compact_to = compact.clone();
    (iso, compact, compact_to)
}

/// Normalize the raw year/date string of a document header into the
/// `(date, datefrom, dateto)` triple. Never fails: unrecognized input
/// maps to the sentinel triple.
pub fn parse_year(year: Option<&str>) -> (r: (String, String, String))
    ensures
        (r.0@, r.1@, r.2@) == spec_parse_year(opt_str_view(year)),
{
    match year {
        None => zero_output(),
        Some(s) => {
            let n = s.unicode_len();
            if n == 4 {
                if digits_in(s, 0, 4) {
                    let mut a = s.to_owned();
                    a.append("-01-01");
                    let mut b = s.to_owned();
                    b.append("0101");
                    let mut c = s.to_owned();
                    c.append("0101");
                    (a, b, c)
                } else {
                    zero_output()
                }
            } else if n == 9 {
                if s.get_char(4) == '-' && digits_in(s, 0, 4) && digits_in(s, 5, 9) {
                    let year_from = s.substring_char(0, 4);
                    let year_to = s.substring_char(5, 9);
                    let mut a = year_from.to_owned();
                    a.append("-01-01");
                    let mut b = year_from.to_owned();
                    b.append("0101");
                    let mut c = year_to.to_owned();
                    c.append("0101");
                    (a, b, c)
                } else {
                    zero_output()
                }
            } else if n == 10 {
                if s.get_char(2) == '.' && s.get_char(5) == '.' && digits_in(s, 0, 2)
                    && digits_in(s, 3, 5) && digits_in(s, 6, 10) {
                    let a_val = two_digits(s, 0);
                    let b_val = two_digits(s, 3);
                    let y = s.substring_char(6, 10);
                    let first = s.substring_char(0, 2);
                    let second = s.substring_char(3, 5);
                    if a_val == 0 || b_val == 0 {
                        zero_output()
                    } else if a_val <= 12 && b_val <= 12 {
                        single_date_output(y, second, first)
                    } else if a_val <= 12 && b_val <= 31 {
                        single_date_output(y, first, second)
                    } else if a_val <= 31 && b_val <= 12 {
                        single_date_output(y, second, first)
                    } else {
                        zero_output()
                    }
                } else {
                    zero_output()
                }
            } else {
                zero_output()
            }
        },
    }
}

/// For every four-digit year string `Y`, normalization yields exactly
/// `(Y + "-01-01", Y + "0101", Y + "0101")`.
pub proof fn lemma_year4_form(s: Seq<char>)
    requires
        s.len() == 4,
        all_digits_range(s, 0, 4),
    ensures
        spec_parse_year(Some(s)) == (s + "-01-01"@, s + "0101"@, s + "0101"@),
{
}

/// For every input that is not a year range, `datefrom` equals `dateto`:
/// only a range can make the two compact fields differ.
pub proof fn lemma_single_date_from_equals_to(y: Option<Seq<char>>)
    requires
        match y {
            Some(s) => !is_year_range(s),
            None => true,
        },
    ensures
        spec_parse_year(y).1 == spec_parse_year(y).2,
{
}

} // verus!
