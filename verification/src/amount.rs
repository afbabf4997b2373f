//! Monetary amounts as fixed-point cents: parsing decimal strings (with a
//! period or, after normalization, a decimal comma) into cents, and
//! formatting cents back into two-decimal strings.

use vstd::prelude::*;
use crate::aggregate::MAX_AMOUNT_CENTS;
use crate::text::push_char;

verus! {

/// `c` is one of the ten decimal digit characters.
pub open spec fn is_digit(c: char) -> bool {
    '0' <= c && c <= '9'
}

/// Numeric value of a digit character.
pub open spec fn digit_val(c: char) -> int {
    c as int - 48
}

/// Every character of `s` is a decimal digit.
pub open spec fn all_digits(s: Seq<char>) -> bool {
    forall|i: int| 0 <= i < s.len() ==> is_digit(#[trigger] s[i])
}

/// Value of a digit string read in base ten; 0 for the empty string.
pub open spec fn digits_val(s: Seq<char>) -> int
    decreases s.len(),
{
    if s.len() == 0 {
        0
    } else {
        digits_val(s.drop_last()) * 10 + digit_val(s.last())
    }
}

/// `s` is an unsigned amount split after `intlen` digits: a non-empty run of
/// digits, optionally followed by a period and one or two fraction digits.
pub open spec fn amount_shape(s: Seq<char>, intlen: int) -> bool {
    &&& 1 <= intlen <= s.len()
    &&& all_digits(s.subrange(0, intlen))
    &&& (intlen == s.len() || {
        &&& s[intlen] == '.'
        &&& 1 <= s.len() - intlen - 1 <= 2
        &&& all_digits(s.subrange(intlen + 1, s.len() as int))
    })
}

/// `s` is a well-formed unsigned decimal amount.
pub open spec fn valid_unsigned_amount(s: Seq<char>) -> bool {
    exists|d: int| amount_shape(s, d)
}

/// `s` is a well-formed decimal amount, optionally carrying a leading minus.
pub open spec fn valid_amount(s: Seq<char>) -> bool {
    if s.len() > 0 && s[0] == '-' {
        valid_unsigned_amount(s.subrange(1, s.len() as int))
    } else {
        valid_unsigned_amount(s)
    }
}

/// Cent value of a well-formed unsigned amount: the integer part scaled by
/// one hundred plus the fraction digits scaled to cents.
pub open spec fn unsigned_amount_cents(s: Seq<char>) -> int {
    let d = choose|d: int| amount_shape(s, d);
    let whole = digits_val(s.subrange(0, d));
    if d == s.len() {
        whole * 100
    } else {
        let frac = s.subrange(d + 1, s.len() as int);
        whole * 100 + if frac.len() == 1 {
            digits_val(frac) * 10
        } else {
            digits_val(frac)
        }
    }
}

/// Cent value of a well-formed amount, sign included.
pub open spec fn amount_cents(s: Seq<char>) -> int {
    if s.len() > 0 && s[0] == '-' {
        -unsigned_amount_cents(s.subrange(1, s.len() as int))
    } else {
        unsigned_amount_cents(s)
    }
}

/// The split of a well-formed amount is unique: the integer part ends at the
/// first character that is not a digit.
proof fn lemma_shape_unique(s: Seq<char>, d1: int, d2: int)
    requires
        amount_shape(s, d1),
        amount_shape(s, d2),
    ensures
        d1 == d2,
{
    if d1 < d2 {
        assert(is_digit(s.subrange(0, d2)[d1]));
        assert(s[d1] == '.');
    }
    if d2 < d1 {
        assert(is_digit(s.subrange(0, d1)[d2]));
        assert(s[d2] == '.');
    }
}

proof fn lemma_digits_val_nonneg(s: Seq<char>)
    requires
        all_digits(s),
    ensures
        digits_val(s) >= 0,
    decreases s.len(),
{
    if s.len() > 0 {
        assert(all_digits(s.drop_last())) by {
            assert(forall|i: int|
                0 <= i < s.drop_last().len() ==> #[trigger] s.drop_last()[i] == s[i]);
        }
        lemma_digits_val_nonneg(s.drop_last());
        assert(is_digit(s[s.len() - 1]));
    }
}

/// Appending digits never shrinks the value of a digit string.
proof fn lemma_digits_val_prefix_grows(s: Seq<char>, i: int)
    requires
        all_digits(s),
        0 <= i <= s.len(),
    ensures
        digits_val(s.subrange(0, i)) <= digits_val(s),
    decreases s.len() - i,
{
    if i < s.len() {
        let t = s.subrange(0, i + 1);
        assert(t.drop_last() =~= s.subrange(0, i));
        assert(all_digits(t.drop_last()));
        lemma_digits_val_nonneg(t.drop_last());
        assert(is_digit(s[i]));
        assert(digits_val(t) == digits_val(s.subrange(0, i)) * 10 + digit_val(s[i]));
        assert(digits_val(s.subrange(0, i)) <= digits_val(s.subrange(0, i)) * 10) by {
            lemma_digits_val_nonneg(s.subrange(0, i));
        }
        lemma_digits_val_prefix_grows(s, i + 1);
        assert(s.subrange(0, s.len() as int) =~= s);
    } else {
        assert(s.subrange(0, i) =~= s);
    }
}

/// Parse a decimal amount into cents. The result is `Some` exactly when the
/// string is a well-formed amount (`-?digits(.digits{1,2})?`) whose cent
/// value is at most [`MAX_AMOUNT_CENTS`] in magnitude, and then carries that
/// value.
pub fn parse_amount(s: &str) -> (r: Option<i64>)
    ensures
        r is Some <==> valid_amount(s@) && -MAX_AMOUNT_CENTS <= amount_cents(s@)
            <= MAX_AMOUNT_CENTS,
        r is Some ==> r == Some(amount_cents(s@) as i64),
{
    let n = s.unicode_len();
    let neg = n > 0 && s.get_char(0) == '-';
    let start: usize = if neg {
        1
    } else {
        0
    };
    let ghost body = s@.subrange(start as int, n as int);
    match parse_unsigned_amount_cents(s, start) {
        None => {
            proof {
                if neg {
                    assert(s@.subrange(1, s@.len() as int) == body);
                } else {
                    assert(s@.subrange(0, n as int) =~= s@);
                }
            }
            None
        },
        Some(v) => {
            proof {
                if neg {
                    assert(s@.subrange(1, s@.len() as int) == body);
                } else {
                    assert(s@.subrange(0, n as int) =~= s@);
                }
            }
            if v > MAX_AMOUNT_CENTS {
                None
            } else if neg {
                Some(-v)
            } else {
                Some(v)
            }
        },
    }
}

/// Parse the unsigned amount that starts at character `start`, reaching to
/// the end of the string. Returns its cent value unless the shape is wrong
/// or the value does not fit.
fn parse_unsigned_amount_cents(s: &str, start: usize) -> (r: Option<i64>)
    requires
        start <= s@.len(),
    ensures
        ({
            let body = s@.subrange(start as int, s@.len() as int);
            &&& (r is Some <==> valid_unsigned_amount(body) && unsigned_amount_cents(body)
                <= 0x7fff_ffff_ffff_ffff)
            &&& (r is Some ==> r == Some(unsigned_amount_cents(body) as i64)
                && unsigned_amount_cents(body) >= 0)
        }),
{
    let ghost body = s@.subrange(start as int, s@.len() as int);
    let n = s.unicode_len();
    let mut i: usize = start;
    let mut whole: i64 = 0;
    while i < n && is_digit_char(s.get_char(i)) && whole < 92233720368547759
        invariant
            start <= i <= n == s@.len(),
            body == s@.subrange(start as int, n as int),
            all_digits(body.subrange(0, i - start)),
            whole == digits_val(body.subrange(0, i - start)),
            0 <= whole <= 92233720368547758 * 10 + 9,
        decreases n - i,
    {
        let c = s.get_char(i);
        let d = digit_char_val(c);
        proof {
            let prev = body.subrange(0, i - start);
            let cur = body.subrange(0, i + 1 - start);
            assert(cur.drop_last() =~= prev);
            assert(cur.last() == s@[i as int]);
            assert(all_digits(cur)) by {
                assert(forall|m: int| 0 <= m < prev.len() ==> cur[m] == #[trigger] prev[m]);
            }
        }
        whole = whole * 10 + (d as i64);
        i += 1;
    }
    let intlen = i - start;
    if intlen == 0 {
        proof {
            assert forall|d: int| !amount_shape(body, d) by {
                if amount_shape(body, d) {
                    assert(is_digit(body.subrange(0, d)[0]));
                    assert(body[0] == s@[start as int]);
                }
            }
        }
        return None;
    }
    if whole >= 92233720368547759 {
        // The scanned digits alone already put the value past an i64.
        proof {
            lemma_unsigned_too_large(body, intlen as int);
        }
        return None;
    }
    if i == n {
        proof {
            assert(body.subrange(0, intlen as int) =~= body);
            assert(amount_shape(body, intlen as int));
            let d = choose|d: int| amount_shape(body, d);
            lemma_shape_unique(body, d, intlen as int);
        }
        let cents: i128 = (whole as i128) * 100;
        if cents > 0x7fff_ffff_ffff_ffff {
            return None;
        }
        return Some(cents as i64);
    }
    if s.get_char(i) != '.' {
        proof {
            assert(!is_digit(body[i - start]));
            assert forall|d: int| !amount_shape(body, d) by {
                if amount_shape(body, d) {
                    lemma_shape_no_other_split(body, d, intlen as int);
                }
            }
        }
        return None;
    }
    // A period: one or two fraction digits must close the string.
    let fraclen = n - i - 1;
    if fraclen < 1 || fraclen > 2 {
        proof {
            assert(body[i - start] == '.');
            assert forall|d: int| !amount_shape(body, d) by {
                if amount_shape(body, d) {
                    lemma_shape_no_other_split(body, d, intlen as int);
                }
            }
        }
        return None;
    }
    let c1 = s.get_char(i + 1);
    if !is_digit_char(c1) {
        proof {
            assert(body[i - start] == '.');
            assert forall|d: int| !amount_shape(body, d) by {
                if amount_shape(body, d) {
                    lemma_shape_no_other_split(body, d, intlen as int);
                    assert(is_digit(body.subrange(d + 1, body.len() as int)[0]));
                }
            }
        }
        return None;
    }
    let d1 = digit_char_val(c1);
    let frac: i64;
    if fraclen == 2 {
        let c2 = s.get_char(i + 2);
        if !is_digit_char(c2) {
            proof {
                assert(body[i - start] == '.');
                assert forall|d: int| !amount_shape(body, d) by {
                    if amount_shape(body, d) {
                        lemma_shape_no_other_split(body, d, intlen as int);
                        assert(is_digit(body.subrange(d + 1, body.len() as int)[1]));
                    }
                }
            }
            return None;
        }
        let d2 = digit_char_val(c2);
        frac = (d1 as i64) * 10 + (d2 as i64);
        proof {
            let fs = body.subrange(intlen + 1, body.len() as int);
            assert(fs.len() == 2);
            assert(fs.drop_last() =~= fs.subrange(0, 1));
            assert(fs.subrange(0, 1).drop_last() =~= Seq::<char>::empty());
            assert(fs[0] == s@[i + 1]);
            assert(fs[1] == s@[i + 2]);
            assert(digits_val(Seq::<char>::empty()) == 0);
            assert(digits_val(fs.subrange(0, 1)) == digit_val(fs[0]));
            assert(digits_val(fs) == digit_val(fs[0]) * 10 + digit_val(fs[1]));
        }
    } else {
        frac = (d1 as i64) * 10;
        proof {
            let fs = body.subrange(intlen + 1, body.len() as int);
            assert(fs.len() == 1);
            assert(fs.drop_last() =~= Seq::<char>::empty());
            assert(fs[0] == s@[i + 1]);
            assert(digits_val(Seq::<char>::empty()) == 0);
            assert(digits_val(fs) == digit_val(fs[0]));
        }
    }
    proof {
        assert(body[i - start] == '.');
        assert(all_digits(body.subrange(intlen + 1, body.len() as int))) by {
            let fs = body.subrange(intlen + 1, body.len() as int);
            assert(forall|m: int| 0 <= m < fs.len() ==> #[trigger] fs[m] == s@[i + 1 + m]);
        }
        assert(amount_shape(body, intlen as int));
        let d = choose|d: int| amount_shape(body, d);
        lemma_shape_unique(body, d, intlen as int);
    }
    let cents: i128 = (whole as i128) * 100 + (frac as i128);
    if cents > 0x7fff_ffff_ffff_ffff {
        return None;
    }
    Some(cents as i64)
}

/// A shape split elsewhere than at the scanned digit run is impossible: the
/// digits reach exactly to `intlen` and the split must sit there.
proof fn lemma_shape_no_other_split(s: Seq<char>, d: int, intlen: int)
    requires
        amount_shape(s, d),
        0 <= intlen <= s.len(),
        all_digits(s.subrange(0, intlen)),
        intlen < s.len() ==> !is_digit(s[intlen]),
    ensures
        d == intlen,
{
    if d < intlen {
        assert(is_digit(s.subrange(0, intlen)[d]));
        assert(s[d] == '.');
    }
    if d > intlen {
        assert(is_digit(s.subrange(0, d)[intlen]));
    }
}

/// A digit run whose scanned prefix is already past the representable range
/// keeps the whole amount out of range, whatever follows it.
proof fn lemma_unsigned_too_large(s: Seq<char>, intlen: int)
    requires
        0 < intlen <= s.len(),
        all_digits(s.subrange(0, intlen)),
        digits_val(s.subrange(0, intlen)) >= 92233720368547759,
    ensures
        valid_unsigned_amount(s) ==> unsigned_amount_cents(s) > 0x7fff_ffff_ffff_ffff,
{
    if valid_unsigned_amount(s) {
        let d = choose|d: int| amount_shape(s, d);
        assert(d >= intlen) by {
            if d < intlen {
                assert(is_digit(s.subrange(0, intlen)[d]));
                assert(s[d] == '.');
            }
        }
        let ip = s.subrange(0, d);
        assert(ip.subrange(0, intlen) =~= s.subrange(0, intlen));
        lemma_digits_val_prefix_grows(ip, intlen);
        assert(digits_val(ip) * 100 >= 92233720368547759 * 100);
        if d < s.len() {
            let frac = s.subrange(d + 1, s.len() as int);
            lemma_digits_val_nonneg(frac);
        }
    }
}

/// Whether a character is a decimal digit, usable in contracts through
/// [`is_digit`].
pub fn is_digit_char(c: char) -> (r: bool)
    ensures
        r == is_digit(c),
{
    c >= '0' && c <= '9'
}

/// Numeric value of a digit character.
pub(crate) fn digit_char_val(c: char) -> (r: u32)
    requires
        is_digit(c),
    ensures
        r == digit_val(c),
        r <= 9,
{
    (c as u32) - 48
}

/// Decimal digit character for a value between 0 and 9.
pub open spec fn digit_char(d: int) -> char {
    if d == 0 {
        '0'
    } else if d == 1 {
        '1'
    } else if d == 2 {
        '2'
    } else if d == 3 {
        '3'
    } else if d == 4 {
        '4'
    } else if d == 5 {
        '5'
    } else if d == 6 {
        '6'
    } else if d == 7 {
        '7'
    } else if d == 8 {
        '8'
    } else {
        '9'
    }
}

/// Decimal rendering of a non-negative number, most significant digit first,
/// without leading zeroes (a single `'0'` for zero).
pub open spec fn dec_digits(n: nat) -> Seq<char>
    decreases n,
{
    if n < 10 {
        seq![digit_char(n as int)]
    } else {
        dec_digits(n / 10).push(digit_char((n % 10) as int))
    }
}

/// Decimal rendering of a signed number: a minus sign where negative,
/// then the digits of its magnitude.
pub open spec fn int_digits(v: int) -> Seq<char> {
    if v < 0 {
        seq!['-'] + dec_digits((-v) as nat)
    } else {
        dec_digits(v as nat)
    }
}

/// Rendering of a cent count as a plain decimal: sign, the whole units,
/// a period, and exactly two fraction digits.
pub open spec fn cents_digits(c: int) -> Seq<char> {
    let m = if c < 0 {
        -c
    } else {
        c
    };
    let sign: Seq<char> = if c < 0 {
        seq!['-']
    } else {
        Seq::empty()
    };
    sign + dec_digits((m / 100) as nat) + seq!['.', digit_char((m % 100) / 10), digit_char(m % 10)]
}

/// The digit character for a digit value.
pub fn digit_char_of(d: u32) -> (r: char)
    requires
        d <= 9,
    ensures
        r == digit_char(d as int),
{
    match d {
        0 => '0',
        1 => '1',
        2 => '2',
        3 => '3',
        4 => '4',
        5 => '5',
        6 => '6',
        7 => '7',
        8 => '8',
        _ => '9',
    }
}

/// Append the decimal rendering of `n` to `out`.
fn append_dec_digits(out: &mut String, n: u64)
    ensures
        final(out)@ == old(out)@ + dec_digits(n as nat),
    decreases n,
{
    if n < 10 {
        push_char(out, digit_char_of(n as u32));
        assert(final(out)@ =~= old(out)@ + dec_digits(n as nat));
    } else {
        append_dec_digits(out, n / 10);
        push_char(out, digit_char_of((n % 10) as u32));
        assert(final(out)@ =~= old(out)@ + dec_digits(n as nat));
    }
}

/// Render a signed count of cents as a decimal string with a period and two
/// fraction digits, the shape the reports print amounts in.
pub fn format_cents(c: i64) -> (r: String)
    ensures
        r@ == cents_digits(c as int),
{
    let m: u64 = if c < 0 {
        (-(c as i128)) as u64
    } else {
        c as u64
    };
    let mut out = String::new();
    if c < 0 {
        push_char(&mut out, '-');
    }
    append_dec_digits(&mut out, m / 100);
    push_char(&mut out, '.');
    push_char(&mut out, digit_char_of(((m % 100) / 10) as u32));
    push_char(&mut out, digit_char_of((m % 10) as u32));
    proof {
        assert((m % 100) / 10 == ((m as int) % 100) / 10);
        assert(out@ =~= cents_digits(c as int));
    }
    out
}

/// Render a signed integer as a decimal string.
pub fn format_int(v: i64) -> (r: String)
    ensures
        r@ == int_digits(v as int),
{
    let m: u64 = if v < 0 {
        (-(v as i128)) as u64
    } else {
        v as u64
    };
    let mut out = String::new();
    if v < 0 {
        push_char(&mut out, '-');
    }
    append_dec_digits(&mut out, m);
    proof {
        assert(out@ =~= int_digits(v as int));
    }
    out
}

/// Render an unsigned count as a decimal string.
pub fn format_u64(v: u64) -> (r: String)
    ensures
        r@ == dec_digits(v as nat),
{
    let mut out = String::new();
    append_dec_digits(&mut out, v);
    proof {
        assert(out@ =~= dec_digits(v as nat));
    }
    out
}

/// Rendering of an id the way the per-group report rows show it: zero-padded
/// to two digits when it is a single digit.
pub open spec fn id_digits(v: int) -> Seq<char> {
    if 0 <= v < 10 {
        seq!['0'] + dec_digits(v as nat)
    } else {
        int_digits(v)
    }
}

/// Render an id zero-padded to width two.
pub fn format_id(v: i32) -> (r: String)
    ensures
        r@ == id_digits(v as int),
{
    let mut out = String::new();
    if v >= 0 && v < 10 {
        push_char(&mut out, '0');
        push_char(&mut out, digit_char_of(v as u32));
        proof {
            assert(out@ =~= id_digits(v as int));
        }
        out
    } else {
        let r = format_int(v as i64);
        proof {
            assert(r@ =~= id_digits(v as int));
        }
        r
    }
}

/// `s` with every occurrence of `from` replaced by `to`.
pub open spec fn replaced(s: Seq<char>, from: char, to: char) -> Seq<char> {
    s.map_values(
        |c: char|
            if c == from {
                to
            } else {
                c
            },
    )
}

/// Replace every occurrence of one character by another: decimal commas
/// become periods and date slashes become dashes before parsing.
pub fn replace_char(s: &str, from: char, to: char) -> (r: String)
    ensures
        r@ == replaced(s@, from, to),
{
    let n = s.unicode_len();
    let mut out = String::new();
    let mut i: usize = 0;
    while i < n
        invariant
            i <= n == s@.len(),
            out@ == replaced(s@.subrange(0, i as int), from, to),
        decreases n - i,
    {
        let c = s.get_char(i);
        if c == from {
            push_char(&mut out, to);
        } else {
            push_char(&mut out, c);
        }
        proof {
            assert(replaced(s@.subrange(0, i + 1), from, to) =~= replaced(
                s@.subrange(0, i as int),
                from,
                to,
            ).push(
                if s@[i as int] == from {
                    to
                } else {
                    s@[i as int]
                },
            ));
        }
        i += 1;
    }
    proof {
        assert(s@.subrange(0, n as int) =~= s@);
    }
    out
}

} // verus!

