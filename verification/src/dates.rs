//! Calendar days as coded integers. A date string `YYYY-MM-DD` (a slash form
//! is normalized first) is coded as `year * 10000 + month * 100 + day`, the
//! form the ledger store keeps and the year/month report filters read.

use vstd::prelude::*;
use crate::amount::{all_digits, digits_val, is_digit, is_digit_char, digit_char_val, digit_char, digit_char_of};

verus! {

/// `s` spells a date as `YYYY-MM-DD` with a plausible month and day.
pub open spec fn valid_date(s: Seq<char>) -> bool {
    &&& s.len() == 10
    &&& all_digits(s.subrange(0, 4))
    &&& s[4] == '-'
    &&& all_digits(s.subrange(5, 7))
    &&& s[7] == '-'
    &&& all_digits(s.subrange(8, 10))
    &&& 1 <= digits_val(s.subrange(5, 7)) <= 12
    &&& 1 <= digits_val(s.subrange(8, 10)) <= 31
}

/// The coded day of a well-formed date string.
pub open spec fn date_code_of(s: Seq<char>) -> int {
    digits_val(s.subrange(0, 4)) * 10000 + digits_val(s.subrange(5, 7)) * 100 + digits_val(
        s.subrange(8, 10),
    )
}

/// Year carried by a coded day.
pub open spec fn year_of_code(c: int) -> int {
    c / 10000
}

/// Month carried by a coded day.
pub open spec fn month_of_code(c: int) -> int {
    (c / 100) % 100
}

/// Whether a coded day passes an optional year filter and an optional month
/// filter.
pub open spec fn date_matches(c: int, year: Option<u32>, month: Option<u32>) -> bool {
    &&& (year matches Some(y) ==> year_of_code(c) == y)
    &&& (month matches Some(m) ==> month_of_code(c) == m)
}

/// Read the run of digits `s[at..at+len]` as a number. `None` when any of
/// the characters is not a digit.
fn read_digits(s: &str, at: usize, len: usize) -> (r: Option<u32>)
    requires
        at + len <= s@.len(),
        len <= 4,
    ensures
        r is Some <==> all_digits(s@.subrange(at as int, at + len)),
        r is Some ==> r == Some(digits_val(s@.subrange(at as int, at + len)) as u32)
            && 0 <= digits_val(s@.subrange(at as int, at + len)) <= 9999,
{
    let ghost run = s@.subrange(at as int, at + len);
    let total = s.unicode_len();
    let mut i: usize = 0;
    let mut v: u32 = 0;
    while i < len
        invariant
            i <= len <= 4,
            at + len <= s@.len(),
            total == s@.len(),
            run == s@.subrange(at as int, at + len),
            all_digits(run.subrange(0, i as int)),
            v == digits_val(run.subrange(0, i as int)),
            0 <= v < if i == 0 {
                1u32
            } else if i == 1 {
                10u32
            } else if i == 2 {
                100u32
            } else if i == 3 {
                1000u32
            } else {
                10000u32
            },
        decreases len - i,
    {
        let c = s.get_char(at + i);
        if !is_digit_char(c) {
            proof {
                assert(run[i as int] == s@[at + i]);
            }
            return None;
        }
        let d = digit_char_val(c);
        proof {
            let prev = run.subrange(0, i as int);
            let cur = run.subrange(0, i + 1);
            assert(cur.drop_last() =~= prev);
            assert(cur.last() == s@[at + i]);
            assert(all_digits(cur)) by {
                assert(forall|m: int| 0 <= m < prev.len() ==> cur[m] == #[trigger] prev[m]);
            }
        }
        v = v * 10 + d;
        i += 1;
    }
    proof {
        assert(run.subrange(0, len as int) =~= run);
    }
    Some(v)
}

/// A run of at most four digits reads as a value below ten thousand.
proof fn lemma_digits_val_small(s: Seq<char>)
    requires
        all_digits(s),
        s.len() <= 4,
    ensures
        0 <= digits_val(s) < if s.len() == 0 {
            1int
        } else if s.len() == 1 {
            10int
        } else if s.len() == 2 {
            100int
        } else if s.len() == 3 {
            1000int
        } else {
            10000int
        },
    decreases s.len(),
{
    if s.len() > 0 {
        assert(all_digits(s.drop_last())) by {
            assert(forall|i: int|
                0 <= i < s.drop_last().len() ==> #[trigger] s.drop_last()[i] == s[i]);
        }
        lemma_digits_val_small(s.drop_last());
        assert(is_digit(s[s.len() - 1]));
    }
}

/// A well-formed date codes into the `YYYYMMDD` range.
pub proof fn lemma_date_code_bounds(s: Seq<char>)
    requires
        valid_date(s),
    ensures
        0 <= date_code_of(s) <= 99999999,
{
    lemma_digits_val_small(s.subrange(0, 4));
    lemma_digits_val_small(s.subrange(5, 7));
    lemma_digits_val_small(s.subrange(8, 10));
}

/// Code a `YYYY-MM-DD` date string as `year * 10000 + month * 100 + day`.
/// `None` exactly when the string is not a well-formed date.
pub fn code_date(s: &str) -> (r: Option<u32>)
    ensures
        r is Some <==> valid_date(s@),
        r is Some ==> r == Some(date_code_of(s@) as u32) && 0 <= date_code_of(s@) <= 99999999,
{
    proof {
        if valid_date(s@) {
            lemma_date_code_bounds(s@);
        }
    }
    let n = s.unicode_len();
    if n != 10 {
        return None;
    }
    if s.get_char(4) != '-' || s.get_char(7) != '-' {
        return None;
    }
    let year = match read_digits(s, 0, 4) {
        None => {
            return None;
        },
        Some(y) => y,
    };
    let month = match read_digits(s, 5, 2) {
        None => {
            return None;
        },
        Some(m) => m,
    };
    let day = match read_digits(s, 8, 2) {
        None => {
            return None;
        },
        Some(d) => d,
    };
    if month < 1 || month > 12 || day < 1 || day > 31 {
        return None;
    }
    Some(year * 10000 + month * 100 + day)
}

/// Year carried by a coded day.
pub fn year_of(c: u32) -> (r: u32)
    ensures
        r == year_of_code(c as int),
{
    c / 10000
}

/// Month carried by a coded day.
pub fn month_of(c: u32) -> (r: u32)
    ensures
        r == month_of_code(c as int),
{
    (c / 100) % 100
}

/// A coded day rendered back as `YYYY-MM-DD`, each part zero-padded.
pub open spec fn date_string_of(c: int) -> Seq<char> {
    seq![
        digit_char((c / 10000000) % 10),
        digit_char((c / 1000000) % 10),
        digit_char((c / 100000) % 10),
        digit_char((c / 10000) % 10),
        '-',
        digit_char((c / 1000) % 10),
        digit_char((c / 100) % 10),
        '-',
        digit_char((c / 10) % 10),
        digit_char(c % 10),
    ]
}

/// Render a coded day as `YYYY-MM-DD`.
pub fn format_date(c: u32) -> (r: String)
    requires
        c <= 99999999,
    ensures
        r@ == date_string_of(c as int),
{
    let mut out = String::new();
    crate::text::push_char(&mut out, digit_char_of((c / 10000000) % 10));
    crate::text::push_char(&mut out, digit_char_of((c / 1000000) % 10));
    crate::text::push_char(&mut out, digit_char_of((c / 100000) % 10));
    crate::text::push_char(&mut out, digit_char_of((c / 10000) % 10));
    crate::text::push_char(&mut out, '-');
    crate::text::push_char(&mut out, digit_char_of((c / 1000) % 10));
    crate::text::push_char(&mut out, digit_char_of((c / 100) % 10));
    crate::text::push_char(&mut out, '-');
    crate::text::push_char(&mut out, digit_char_of((c / 10) % 10));
    crate::text::push_char(&mut out, digit_char_of(c % 10));
    proof {
        assert(out@ =~= date_string_of(c as int));
    }
    out
}

/// Whether a coded day passes the optional year and month filters.
pub fn matches_filter(c: u32, year: Option<u32>, month: Option<u32>) -> (r: bool)
    ensures
        r == date_matches(c as int, year, month),
{
    let year_ok = match year {
        Some(y) => year_of(c) == y,
        None => true,
    };
    let month_ok = match month {
        Some(m) => month_of(c) == m,
        None => true,
    };
    year_ok && month_ok
}

} // verus!
