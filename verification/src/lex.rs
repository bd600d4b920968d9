//! Lexical classification of database cell text.
//!
//! The underlying storage exposes columns as untyped, text-representable
//! cells.  The codec recovers a best-guess native type by classifying the
//! cell's text: an integer lexeme, a decimal-number lexeme, a boolean
//! lexeme, or plain text.  This module defines those lexeme classes over
//! `Seq<char>` and provides verified classifiers and printers.

use vstd::prelude::*;
use vstd::utf8::is_ascii_chars;

verus! {

/// A decimal digit.
pub open spec fn is_digit_char(c: char) -> bool {
    '0' <= c <= '9'
}

/// The numeric value of a decimal digit.
pub open spec fn digit_val(c: char) -> int {
    c as int - '0' as int
}

/// The digit standing for `d`, for `d < 10`.
pub open spec fn digit_char(d: int) -> char {
    if d == 0 {
        '0'
    } else if d == 1 {
        '1'
    } else if d == 2 {
        '2'
    } else if d == 3 {
        '3'
    } else if d == 4 {
        '4'
    } else if d == 5 {
        '5'
    } else if d == 6 {
        '6'
    } else if d == 7 {
        '7'
    } else if d == 8 {
        '8'
    } else {
        '9'
    }
}

/// Every character of `s` is a decimal digit.
pub open spec fn all_digits(s: Seq<char>) -> bool {
    forall|i: int| 0 <= i < s.len() ==> is_digit_char(#[trigger] s[i])
}

/// A non-empty run of decimal digits.
pub open spec fn is_uint_lexeme(s: Seq<char>) -> bool {
    s.len() > 0 && all_digits(s)
}

/// An optional leading minus sign followed by a non-empty digit run.
pub open spec fn is_int_lexeme(s: Seq<char>) -> bool {
    if s.len() > 0 && s[0] == '-' {
        is_uint_lexeme(s.drop_first())
    } else {
        is_uint_lexeme(s)
    }
}

/// The value of a digit run, most significant digit first.
pub open spec fn digits_val(s: Seq<char>) -> int
    decreases s.len(),
{
    if s.len() == 0 {
        0
    } else {
        digits_val(s.drop_last()) * 10 + digit_val(s.last())
    }
}

/// The value of an integer lexeme.
pub open spec fn int_lex_val(s: Seq<char>) -> int {
    if s.len() > 0 && s[0] == '-' {
        -digits_val(s.drop_first())
    } else {
        digits_val(s)
    }
}

/// An integer lexeme whose value fits a signed 64-bit integer.
pub open spec fn is_i64_lexeme(s: Seq<char>) -> bool {
    is_int_lexeme(s) && i64::MIN <= int_lex_val(s) <= i64::MAX
}

/// The length of the longest digit prefix of `s`.
pub open spec fn leading_digits(s: Seq<char>) -> int
    decreases s.len(),
{
    if s.len() == 0 || !is_digit_char(s[0]) {
        0
    } else {
        1 + leading_digits(s.drop_first())
    }
}

/// A digit run optionally followed by a decimal point and a second digit
/// run: the decimal-number lexemes this codec recognizes, sign excluded.
pub open spec fn is_unsigned_float_lexeme(s: Seq<char>) -> bool {
    let d = leading_digits(s);
    d > 0 && (d == s.len() || (s[d] == '.' && d + 1 < s.len() && all_digits(
        s.subrange(d + 1, s.len() as int),
    )))
}

/// An optional leading minus sign followed by an unsigned decimal-number
/// lexeme.  Every integer lexeme is also a decimal-number lexeme; the
/// codec tries the integer reading first.
pub open spec fn is_float_lexeme(s: Seq<char>) -> bool {
    if s.len() > 0 && s[0] == '-' {
        is_unsigned_float_lexeme(s.drop_first())
    } else {
        is_unsigned_float_lexeme(s)
    }
}

/// The decimal representation of `n`, without sign or leading zeros.
pub open spec fn dec_rep(n: int) -> Seq<char>
    decreases n,
{
    if n < 10 {
        seq![digit_char(n)]
    } else {
        dec_rep(n / 10) + seq![digit_char(n % 10)]
    }
}

/// The decimal representation of `n`, with a minus sign if negative.
pub open spec fn int_rep(n: int) -> Seq<char> {
    if n < 0 {
        seq!['-'] + dec_rep(-n)
    } else {
        dec_rep(n)
    }
}

/// The digit standing for `d`, as a one-character string slice.
fn digit_str(d: u64) -> (r: &'static str)
    requires
        d < 10,
    ensures
        r@ =~= seq![digit_char(d as int)],
        r.is_ascii(),
{
    proof {
        reveal_strlit("0");
        reveal_strlit("1");
        reveal_strlit("2");
        reveal_strlit("3");
        reveal_strlit("4");
        reveal_strlit("5");
        reveal_strlit("6");
        reveal_strlit("7");
        reveal_strlit("8");
        reveal_strlit("9");
    }
    match d {
        0 => "0",
        1 => "1",
        2 => "2",
        3 => "3",
        4 => "4",
        5 => "5",
        6 => "6",
        7 => "7",
        8 => "8",
        _ => "9",
    }
}

/// Print an unsigned 64-bit integer in decimal.
pub fn u64_to_dec(n: u64) -> (r: String)
    ensures
        r@ == dec_rep(n as int),
    decreases n,
{
    if n < 10 {
        String::from_str(digit_str(n))
    } else {
        let mut s = u64_to_dec(n / 10);
        s.append(digit_str(n % 10));
        s
    }
}

/// Print an unsigned machine-size integer in decimal.
pub fn usize_to_dec(n: usize) -> (r: String)
    ensures
        r@ == dec_rep(n as int),
{
    u64_to_dec(n as u64)
}

/// Print a signed 64-bit integer in decimal, minus sign included.
pub fn i64_to_dec(n: i64) -> (r: String)
    ensures
        r@ == int_rep(n as int),
{
    if n >= 0 {
        u64_to_dec(n as u64)
    } else {
        let m: u64 = if n == i64::MIN {
            9223372036854775808u64
        } else {
            (-n) as u64
        };
        let mut s = String::from_str("-");
        proof {
            reveal_strlit("-");
        }
        s.append(u64_to_dec(m).as_str());
        proof {
            assert(s@ =~= seq!['-'] + dec_rep(-(n as int)));
        }
        s
    }
}

/// A digit run has a non-negative value.
pub proof fn lemma_digits_val_nonneg(s: Seq<char>)
    requires
        all_digits(s),
    ensures
        digits_val(s) >= 0,
    decreases s.len(),
{
    if s.len() > 0 {
        assert(forall|i: int| 0 <= i < s.len() - 1 ==> s.drop_last()[i] == s[i]);
        lemma_digits_val_nonneg(s.drop_last());
    }
}

/// Extending a digit prefix by one digit multiplies its value by ten and
/// adds the digit.
pub proof fn lemma_digits_val_take_step(s: Seq<char>, i: int)
    requires
        0 <= i < s.len(),
    ensures
        digits_val(s.take(i + 1)) == digits_val(s.take(i)) * 10 + digit_val(s[i]),
{
    assert(s.take(i + 1).drop_last() =~= s.take(i));
    assert(s.take(i + 1).last() == s[i]);
}

/// The value of a digit run is at least the value of any of its prefixes.
pub proof fn lemma_digits_val_prefix_le(s: Seq<char>, i: int)
    requires
        all_digits(s),
        0 <= i <= s.len(),
    ensures
        digits_val(s.take(i)) <= digits_val(s),
    decreases s.len(),
{
    if i == s.len() {
        assert(s.take(i) =~= s);
    } else {
        assert(forall|j: int| 0 <= j < s.len() - 1 ==> s.drop_last()[j] == s[j]);
        lemma_digits_val_prefix_le(s.drop_last(), i);
        assert(s.drop_last().take(i) =~= s.take(i));
        lemma_digits_val_nonneg(s.drop_last());
        assert(digits_val(s.drop_last()) * 10 >= digits_val(s.drop_last()));
        assert(digit_val(s.last()) >= 0);
    }
}

/// An integer lexeme consists of ASCII characters only.
pub proof fn lemma_int_lexeme_ascii(s: Seq<char>)
    ensures
        is_int_lexeme(s) ==> is_ascii_chars(s),
{
    if is_int_lexeme(s) {
        assert forall|i: int| 0 <= i < s.len() implies '\0' <= #[trigger] s[i] <= '\u{7f}' by {
            if s[0] == '-' {
                if i > 0 {
                    assert(s.drop_first()[i - 1] == s[i]);
                    assert(is_digit_char(s[i]));
                }
            } else {
                assert(is_digit_char(s[i]));
            }
        }
    }
}

/// Parse a signed 64-bit integer lexeme: an optional minus sign followed
/// by a non-empty digit run whose value fits the type.
pub fn parse_i64(s: &str) -> (r: Option<i64>)
    ensures
        match r {
            Some(v) => is_i64_lexeme(s@) && v as int == int_lex_val(s@),
            None => !is_i64_lexeme(s@),
        },
{
    if !s.is_ascii() {
        proof {
            lemma_int_lexeme_ascii(s@);
        }
        return None;
    }
    let len = s.unicode_len();
    if len == 0 {
        return None;
    }
    let neg = s.get_ascii(0) == 45;
    proof {
        assert(('-' as int) == 45);
        assert((s@[0] as int) < 128);
    }
    let start: usize = if neg {
        1
    } else {
        0
    };
    if start == len {
        return None;
    }
    let limit: u64 = if neg {
        9223372036854775808u64
    } else {
        9223372036854775807u64
    };
    let ghost digits = s@.subrange(start as int, len as int);
    let mut m: u64 = 0;
    proof {
        assert(digits.take(0) =~= Seq::empty());
    }
    for i in start..len
        invariant
            s.is_ascii(),
            len == s@.len(),
            start <= i <= len,
            start < len,
            start == if neg {
                1int
            } else {
                0int
            },
            neg <==> s@[0] == '-',
            limit == if neg {
                9223372036854775808u64
            } else {
                9223372036854775807u64
            },
            digits == s@.subrange(start as int, len as int),
            all_digits(digits.take(i - start)),
            m as int == digits_val(digits.take(i - start)),
            m <= limit,
    {
        let b = s.get_ascii(i);
        proof {
            assert((s@[i as int] as int) < 128);
        }
        if b < 48 || b > 57 {
            proof {
                assert(!is_digit_char(s@[i as int]));
                if is_int_lexeme(s@) {
                    if neg {
                        assert(s@.drop_first()[i - 1] == s@[i as int]);
                    }
                    assert(is_digit_char(s@[i as int]));
                }
            }
            return None;
        }
        let d: u64 = (b - 48) as u64;
        proof {
            assert(is_digit_char(s@[i as int]));
            assert(digit_val(s@[i as int]) == d as int);
            assert(digits[i - start] == s@[i as int]);
        }
        if m > (limit - d) / 10 {
            proof {
                let k = i - start;
                assert(m as int * 10 + d as int > limit as int) by (nonlinear_arith)
                    requires
                        m as int > (limit as int - d as int) / 10,
                        0 <= d as int <= 9,
                        0 <= limit as int,
                        m as int >= 0,
                ;
                lemma_digits_val_take_step(digits, k);
                assert(digits_val(digits.take(k + 1)) > limit as int);
                if is_int_lexeme(s@) {
                    lemma_int_lexeme_digits_val(s@, neg, digits);
                    lemma_digits_val_prefix_le(digits, k + 1);
                }
            }
            return None;
        }
        proof {
            assert(m as int * 10 + d as int <= limit as int) by (nonlinear_arith)
                requires
                    m as int <= (limit as int - d as int) / 10,
                    0 <= d as int <= 9,
                    0 <= limit as int,
                    m as int >= 0,
            ;
            lemma_digits_val_take_step(digits, i - start);
            assert(digits.take(i - start + 1).drop_last() =~= digits.take(i - start));
        }
        m = m * 10 + d;
        proof {
            assert(all_digits(digits.take(i + 1 - start)));
        }
    }
    proof {
        assert(digits.take(len - start) =~= digits);
        lemma_int_lexeme_digits_val(s@, neg, digits);
    }
    if neg {
        if m == 9223372036854775808u64 {
            Some(i64::MIN)
        } else {
            Some(-(m as i64))
        }
    } else {
        Some(m as i64)
    }
}

/// Bounds and content of the longest digit prefix.
pub proof fn lemma_leading_digits_bounds(s: Seq<char>)
    ensures
        0 <= leading_digits(s) <= s.len(),
        forall|i: int| 0 <= i < leading_digits(s) ==> is_digit_char(#[trigger] s[i]),
        leading_digits(s) < s.len() ==> !is_digit_char(s[leading_digits(s)]),
    decreases s.len(),
{
    if s.len() == 0 || !is_digit_char(s[0]) {
    } else {
        lemma_leading_digits_bounds(s.drop_first());
        assert forall|i: int| 0 <= i < leading_digits(s) implies is_digit_char(#[trigger] s[i]) by {
            if i > 0 {
                assert(s.drop_first()[i - 1] == s[i]);
            }
        }
        if leading_digits(s) < s.len() {
            assert(s.drop_first()[leading_digits(s) - 1] == s[leading_digits(s)]);
        }
    }
}

/// A decimal-number lexeme consists of ASCII characters only.
pub proof fn lemma_float_lexeme_ascii(s: Seq<char>)
    ensures
        is_float_lexeme(s) ==> is_ascii_chars(s),
{
    if is_float_lexeme(s) {
        assert(s.len() > 0);
        let off: int = if s[0] == '-' {
            1
        } else {
            0
        };
        let u = s.subrange(off, s.len() as int);
        if s[0] == '-' {
            assert(u =~= s.drop_first());
        } else {
            assert(u =~= s);
        }
        assert(is_unsigned_float_lexeme(u));
        lemma_leading_digits_bounds(u);
        assert forall|i: int| 0 <= i < s.len() implies '\0' <= #[trigger] s[i] <= '\u{7f}' by {
            if i >= off {
                let d = leading_digits(u);
                assert(u[i - off] == s[i]);
                if i - off < d {
                    assert(is_digit_char(u[i - off]));
                } else if i - off == d {
                } else {
                    assert(all_digits(u.subrange(d + 1, u.len() as int)));
                    assert(u.subrange(d + 1, u.len() as int)[i - off - d - 1] == u[i - off]);
                    assert(is_digit_char(u[i - off]));
                }
            }
        }
    }
}

/// Decide whether `s` is a decimal-number lexeme: an optional minus sign,
/// a non-empty digit run, and optionally a decimal point followed by a
/// second non-empty digit run.
pub fn is_float_text(s: &str) -> (r: bool)
    ensures
        r == is_float_lexeme(s@),
{
    if !s.is_ascii() {
        proof {
            lemma_float_lexeme_ascii(s@);
        }
        return false;
    }
    let len = s.unicode_len();
    if len == 0 {
        return false;
    }
    let neg = s.get_ascii(0) == 45;
    proof {
        assert(('-' as int) == 45);
        assert((s@[0] as int) < 128);
    }
    let start: usize = if neg {
        1
    } else {
        0
    };
    let ghost u = s@.subrange(start as int, len as int);
    proof {
        if neg {
            assert(u =~= s@.drop_first());
        } else {
            assert(u =~= s@);
        }
        assert(is_float_lexeme(s@) == is_unsigned_float_lexeme(u));
    }
    let mut i: usize = start;
    let mut stopped = false;
    while i < len && !stopped
        invariant
            s.is_ascii(),
            len == s@.len(),
            start <= i <= len,
            start == if neg {
                1int
            } else {
                0int
            },
            len > 0,
            neg <==> s@[0] == '-',
            u == s@.subrange(start as int, len as int),
            is_float_lexeme(s@) == is_unsigned_float_lexeme(u),
            forall|j: int| 0 <= j < i - start ==> is_digit_char(#[trigger] u[j]),
            stopped ==> i < len && !is_digit_char(u[i - start]),
        decreases len - i + if stopped {
            0int
        } else {
            1int
        },
    {
        let b = s.get_ascii(i);
        proof {
            assert((s@[i as int] as int) < 128);
            assert(u[i - start] == s@[i as int]);
        }
        if b >= 48 && b <= 57 {
            i = i + 1;
        } else {
            stopped = true;
        }
    }
    proof {
        lemma_leading_digits_bounds(u);
        let d = leading_digits(u);
        let c = i - start;
        if d < c {
            assert(is_digit_char(u[d]));
            assert(false);
        }
        if d > c {
            assert(is_digit_char(u[c]));
            assert(false);
        }
        assert(d == c);
    }
    if i == start {
        return false;
    }
    if i == len {
        return true;
    }
    let b = s.get_ascii(i);
    proof {
        assert(('.' as int) == 46);
        assert((s@[i as int] as int) < 128);
        assert(u[i - start] == s@[i as int]);
    }
    if b != 46 {
        return false;
    }
    if i + 1 == len {
        return false;
    }
    let frac_start: usize = i + 1;
    let ghost frac = u.subrange(i - start + 1, u.len() as int);
    let mut k: usize = frac_start;
    while k < len
        invariant
            s.is_ascii(),
            len == s@.len(),
            frac_start <= k <= len,
            start + 1 <= frac_start < len,
            u == s@.subrange(start as int, len as int),
            is_float_lexeme(s@) == is_unsigned_float_lexeme(u),
            frac == u.subrange(frac_start - start, u.len() as int),
            frac_start - start - 1 == leading_digits(u),
            u[frac_start - start - 1] == '.',
            forall|j: int| 0 <= j < k - frac_start ==> is_digit_char(#[trigger] frac[j]),
        decreases len - k,
    {
        let b2 = s.get_ascii(k);
        proof {
            assert((s@[k as int] as int) < 128);
            assert(frac[k - frac_start] == s@[k as int]);
        }
        if b2 < 48 || b2 > 57 {
            proof {
                assert(!is_digit_char(frac[k - frac_start]));
            }
            return false;
        }
        k = k + 1;
    }
    proof {
        assert(all_digits(frac));
        assert(frac.len() > 0);
    }
    true
}

/// Decide whether `s` is one of the boolean lexemes `true` and `false`.
pub fn parse_bool(s: &str) -> (r: Option<bool>)
    ensures
        match r {
            Some(b) => s@ == if b {
                "true"@
            } else {
                "false"@
            },
            None => s@ != "true"@ && s@ != "false"@,
        },
{
    proof {
        reveal_strlit("true");
        reveal_strlit("false");
    }
    let len = s.unicode_len();
    if len == 4 {
        if s.get_char(0) == 't' && s.get_char(1) == 'r' && s.get_char(2) == 'u' && s.get_char(3)
            == 'e' {
            proof {
                assert(s@ =~= "true"@);
            }
            Some(true)
        } else {
            None
        }
    } else if len == 5 {
        if s.get_char(0) == 'f' && s.get_char(1) == 'a' && s.get_char(2) == 'l' && s.get_char(3)
            == 's' && s.get_char(4) == 'e' {
            proof {
                assert(s@ =~= "false"@);
            }
            Some(false)
        } else {
            None
        }
    } else {
        None
    }
}

/// The decimal representation of a non-negative integer is a digit run
/// with that value.
pub proof fn lemma_dec_rep_value(n: int)
    requires
        n >= 0,
    ensures
        is_uint_lexeme(dec_rep(n)),
        digits_val(dec_rep(n)) == n,
    decreases n,
{
    if n < 10 {
        assert(dec_rep(n).drop_last() =~= Seq::<char>::empty());
        assert(digits_val(Seq::<char>::empty()) == 0);
        assert(dec_rep(n).last() == digit_char(n));
        assert(digit_val(digit_char(n)) == n);
    } else {
        lemma_dec_rep_value(n / 10);
        let a = dec_rep(n / 10);
        let c = digit_char(n % 10);
        assert((a + seq![c]).drop_last() =~= a);
        assert((a + seq![c]).last() == c);
        assert(digit_val(c) == n % 10);
        assert(forall|i: int| 0 <= i < a.len() ==> (a + seq![c])[i] == a[i]);
    }
}

/// The signed decimal representation of a 64-bit integer is an integer
/// lexeme with that value.
pub proof fn lemma_int_rep_i64(n: int)
    requires
        i64::MIN <= n <= i64::MAX,
    ensures
        is_i64_lexeme(int_rep(n)),
        int_lex_val(int_rep(n)) == n,
{
    if n >= 0 {
        lemma_dec_rep_value(n);
        assert(is_digit_char(dec_rep(n)[0]));
    } else {
        lemma_dec_rep_value(-n);
        let s = seq!['-'] + dec_rep(-n);
        assert(s[0] == '-');
        assert(s.drop_first() =~= dec_rep(-n));
    }
}

/// Relates a signed integer lexeme to the value of its digit run.
proof fn lemma_int_lexeme_digits_val(s: Seq<char>, neg: bool, digits: Seq<char>)
    requires
        s.len() > 0,
        neg <==> s[0] == '-',
        digits == s.subrange(if neg { 1int } else { 0int }, s.len() as int),
        digits.len() > 0,
    ensures
        is_int_lexeme(s) <==> all_digits(digits),
        is_int_lexeme(s) ==> int_lex_val(s) == if neg {
            -digits_val(digits)
        } else {
            digits_val(digits)
        },
{
    if neg {
        assert(s.drop_first() =~= digits);
    } else {
        assert(s =~= digits);
    }
}

} // verus!
