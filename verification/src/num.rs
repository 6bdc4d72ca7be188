use vstd::prelude::*;

verus! {

pub open spec fn is_digit(c: char) -> bool {
    48 <= c as u32 <= 57
}

pub open spec fn digit_val(c: char) -> int {
    c as u32 - 48
}

/// The decimal digit character for `d`, meaningful for `0 <= d <= 9`.
pub open spec fn digit_char(d: int) -> char {
    if d == 0 {
        '0'
    } else if d == 1 {
        '1'
    } else if d == 2 {
        '2'
    } else if d == 3 {
        '3'
    } else if d == 4 {
        '4'
    } else if d == 5 {
        '5'
    } else if d == 6 {
        '6'
    } else if d == 7 {
        '7'
    } else if d == 8 {
        '8'
    } else {
        '9'
    }
}

/// The decimal digit sequence of a nonnegative integer, no sign, no leading
/// zeros (except for the single digit of zero itself).
pub open spec fn nat_decimal(n: int) -> Seq<char>
    decreases n,
{
    if n < 10 {
        seq![digit_char(n)]
    } else {
        nat_decimal(n / 10).push(digit_char(n % 10))
    }
}

/// The canonical decimal rendering of an integer: an optional leading minus
/// sign followed by the digits of its magnitude.
pub open spec fn int_decimal(i: int) -> Seq<char> {
    if i < 0 {
        seq!['-'] + nat_decimal(-i)
    } else {
        nat_decimal(i)
    }
}

/// A nonempty run of decimal digits.
pub open spec fn all_digits(s: Seq<char>) -> bool {
    forall|i: int| 0 <= i < s.len() ==> is_digit(s[i])
}

pub open spec fn is_digit_run(s: Seq<char>) -> bool {
    s.len() > 0 && all_digits(s)
}

/// `s` without one leading `+` or `-` sign, if present.
pub open spec fn strip_sign(s: Seq<char>) -> Seq<char> {
    if s.len() > 0 && (s[0] == '+' || s[0] == '-') {
        s.drop_first()
    } else {
        s
    }
}

/// The integer value of a nonempty digit run.
pub open spec fn digits_value(s: Seq<char>) -> int
    decreases s.len(),
{
    if s.len() == 0 {
        0
    } else {
        digits_value(s.drop_last()) * 10 + digit_val(s.last())
    }
}

/// Whether `s` is an optionally signed, nonempty decimal digit run, the
/// shape accepted when parsing an integer from text.
pub open spec fn is_int_text(s: Seq<char>) -> bool {
    is_digit_run(strip_sign(s))
}

/// The signed value of integer text, meaningful when `is_int_text(s)`.
pub open spec fn int_text_value(s: Seq<char>) -> int {
    if s.len() > 0 && s[0] == '-' {
        -digits_value(s.drop_first())
    } else {
        digits_value(strip_sign(s))
    }
}

/// Integer text whose value fits in an `i64`.
pub open spec fn is_i64_text(s: Seq<char>) -> bool {
    is_int_text(s) && i64::MIN <= int_text_value(s) <= i64::MAX
}

/// A mantissa: a nonempty digit run, optionally with one decimal point
/// before, inside, or after the digits.
pub open spec fn is_mantissa(s: Seq<char>) -> bool {
    ||| is_digit_run(s)
    ||| exists|d: int|
        0 <= d < s.len() && #[trigger] s[d] == '.' && all_digits(s.subrange(0, d)) && all_digits(
            s.subrange(d + 1, s.len() as int),
        ) && (d > 0 || s.len() > d + 1)
}

/// An optionally signed, nonempty digit run, as allowed after an exponent
/// marker.
pub open spec fn is_signed_digits(s: Seq<char>) -> bool {
    is_digit_run(strip_sign(s))
}

/// Float literal text: an optional sign, then a mantissa, then optionally an
/// exponent marker `e`/`E` with an optionally signed digit run. This is the
/// digit-based literal grammar; keyword forms for infinities and the not-a-
/// number value are not literals of this grammar.
pub open spec fn is_float_text(s: Seq<char>) -> bool {
    let b = strip_sign(s);
    ||| is_mantissa(b)
    ||| exists|e: int|
        0 <= e < b.len() && (#[trigger] b[e] == 'e' || b[e] == 'E') && is_mantissa(
            b.subrange(0, e),
        ) && is_signed_digits(b.subrange(e + 1, b.len() as int))
}

/// A mantissa holds only digits and points.
pub proof fn lemma_mantissa_chars(s: Seq<char>)
    requires
        is_mantissa(s),
    ensures
        forall|j: int| 0 <= j < s.len() ==> is_digit(s[j]) || s[j] == '.',
{
    if !is_digit_run(s) {
        let d = choose|d: int|
            0 <= d < s.len() && #[trigger] s[d] == '.' && all_digits(s.subrange(0, d))
                && all_digits(s.subrange(d + 1, s.len() as int)) && (d > 0 || s.len() > d + 1);
        assert forall|j: int| 0 <= j < s.len() implies is_digit(s[j]) || s[j] == '.' by {
            if j < d {
                assert(s.subrange(0, d)[j] == s[j]);
            } else if j > d {
                assert(s.subrange(d + 1, s.len() as int)[j - d - 1] == s[j]);
            }
        }
    }
}

/// Whether every character of `s@` between `lo` and `hi` is a decimal digit.
fn check_all_digits(s: &str, lo: usize, hi: usize) -> (r: bool)
    requires
        lo <= hi <= s@.len(),
    ensures
        r == all_digits(s@.subrange(lo as int, hi as int)),
{
    let mut i = lo;
    while i < hi
        invariant
            lo <= i <= hi <= s@.len(),
            forall|j: int| lo <= j < i ==> is_digit(s@[j]),
        decreases hi - i,
    {
        let c = s.get_char(i);
        let u = c as u32;
        if u < 48 || u > 57 {
            proof {
                assert(s@.subrange(lo as int, hi as int)[i - lo] == s@[i as int]);
            }
            return false;
        }
        i = i + 1;
    }
    proof {
        assert forall|j: int| 0 <= j < hi - lo implies is_digit(
            s@.subrange(lo as int, hi as int)[j],
        ) by {
            assert(s@.subrange(lo as int, hi as int)[j] == s@[j + lo]);
        }
    }
    true
}

/// Whether `s@` between `lo` and `hi` is a nonempty digit run.
fn check_digit_run(s: &str, lo: usize, hi: usize) -> (r: bool)
    requires
        lo <= hi <= s@.len(),
    ensures
        r == is_digit_run(s@.subrange(lo as int, hi as int)),
{
    if lo == hi {
        return false;
    }
    check_all_digits(s, lo, hi)
}

/// The position of the first occurrence of `a` or `b2` in `s@` between `lo`
/// and `hi`, or `hi` when neither occurs there.
fn find_char_in(s: &str, lo: usize, hi: usize, a: char, b2: char) -> (r: usize)
    requires
        lo <= hi <= s@.len(),
    ensures
        lo <= r <= hi,
        r < hi ==> (s@[r as int] == a || s@[r as int] == b2),
        forall|j: int| lo <= j < r ==> s@[j] != a && s@[j] != b2,
{
    let mut i = lo;
    while i < hi
        invariant
            lo <= i <= hi <= s@.len(),
            forall|j: int| lo <= j < i ==> s@[j] != a && s@[j] != b2,
        decreases hi - i,
    {
        let c = s.get_char(i);
        if c == a || c == b2 {
            return i;
        }
        i = i + 1;
    }
    i
}

/// Whether `s@` between `lo` and `hi` is a mantissa.
#[verifier::rlimit(30)]
fn check_mantissa(s: &str, lo: usize, hi: usize) -> (r: bool)
    requires
        lo <= hi <= s@.len(),
    ensures
        r == is_mantissa(s@.subrange(lo as int, hi as int)),
{
    let ghost sub = s@.subrange(lo as int, hi as int);
    let i = find_char_in(s, lo, hi, '.', '.');
    proof {
        assert forall|j: int| 0 <= j < i - lo implies sub[j] != '.' by {
            assert(sub[j] == s@[j + lo]);
        }
    }
    if i == hi {
        // no point anywhere: only the digit-run branch can apply
        let r = check_digit_run(s, lo, hi);
        proof {
            if !r {
                assert forall|d: int|
                    0 <= d < sub.len() implies !(#[trigger] sub[d] == '.' && all_digits(
                    sub.subrange(0, d),
                ) && all_digits(sub.subrange(d + 1, sub.len() as int)) && (d > 0 || sub.len() > d
                    + 1)) by {
                    assert(sub[d] != '.');
                }
            }
        }
        return r;
    }
    // first point sits at i
    let ghost d0 = i - lo;
    let pre = check_all_digits(s, lo, i);
    let post = check_all_digits(s, i + 1, hi);
    let nonempty = i > lo || hi > i + 1;
    let r = pre && post && nonempty;
    proof {
        assert(sub[d0] == s@[i as int]);
        assert(sub.subrange(0, d0) =~= s@.subrange(lo as int, i as int));
        assert(sub.subrange(d0 + 1, sub.len() as int) =~= s@.subrange(i + 1, hi as int));
        if r {
            assert(0 <= d0 < sub.len() && sub[d0] == '.' && all_digits(sub.subrange(0, d0))
                && all_digits(sub.subrange(d0 + 1, sub.len() as int)) && (d0 > 0 || sub.len() > d0
                + 1));
            assert(is_mantissa(sub));
        } else {
            // a witness would have to be the first point
            assert forall|d: int|
                0 <= d < sub.len() && #[trigger] sub[d] == '.' && all_digits(sub.subrange(0, d))
                    && all_digits(sub.subrange(d + 1, sub.len() as int)) implies !(d > 0
                || sub.len() > d + 1) by {
                if d != d0 {
                    assert(d > d0);
                    assert(sub.subrange(0, d)[d0] == sub[d0]);
                    assert(!is_digit(sub[d0]));
                } else {
                    assert(!r);
                }
            }
            if is_digit_run(sub) {
                assert(is_digit(sub[d0]));
            }
            assert(!is_mantissa(sub));
        }
    }
    r
}

/// Whether `s@` between `lo` and `hi` is an optionally signed digit run.
fn check_signed_digits(s: &str, lo: usize, hi: usize) -> (r: bool)
    requires
        lo <= hi <= s@.len(),
    ensures
        r == is_signed_digits(s@.subrange(lo as int, hi as int)),
{
    let ghost sub = s@.subrange(lo as int, hi as int);
    let start = if lo < hi {
        let c = s.get_char(lo);
        if c == '+' || c == '-' {
            lo + 1
        } else {
            lo
        }
    } else {
        lo
    };
    proof {
        assert(strip_sign(sub) =~= s@.subrange(start as int, hi as int));
    }
    check_digit_run(s, start, hi)
}

/// Whether the whole of `s` is float literal text.
#[verifier::rlimit(30)]
pub fn check_float_text(s: &str) -> (r: bool)
    ensures
        r == is_float_text(s@),
{
    let n = s.unicode_len();
    let start = if n > 0 {
        let c = s.get_char(0);
        if c == '+' || c == '-' {
            1
        } else {
            0
        }
    } else {
        0
    };
    let ghost b = strip_sign(s@);
    proof {
        assert(b =~= s@.subrange(start as int, n as int));
    }
    // find the first exponent marker
    let i = find_char_in(s, start, n, 'e', 'E');
    proof {
        assert forall|j: int| 0 <= j < i - start implies b[j] != 'e' && b[j] != 'E' by {
            assert(b[j] == s@[j + start]);
        }
    }
    if i == n {
        // no exponent marker: only the bare-mantissa branch can apply
        let r = check_mantissa(s, start, n);
        proof {
            if !r {
                assert forall|e: int|
                    0 <= e < b.len() implies !((#[trigger] b[e] == 'e' || b[e] == 'E')
                    && is_mantissa(b.subrange(0, e)) && is_signed_digits(
                    b.subrange(e + 1, b.len() as int),
                )) by {
                    assert(b[e] != 'e' && b[e] != 'E');
                }
            }
        }
        return r;
    }
    let ghost e0 = i - start;
    let m = check_mantissa(s, start, i);
    let x = check_signed_digits(s, i + 1, n);
    let r = m && x;
    proof {
        assert(b[e0] == s@[i as int]);
        assert(b.subrange(0, e0) =~= s@.subrange(start as int, i as int));
        assert(b.subrange(e0 + 1, b.len() as int) =~= s@.subrange(i + 1, n as int));
        if r {
            assert(0 <= e0 < b.len() && (b[e0] == 'e' || b[e0] == 'E') && is_mantissa(
                b.subrange(0, e0),
            ) && is_signed_digits(b.subrange(e0 + 1, b.len() as int)));
            assert(is_float_text(s@));
        } else {
            // a witness split would have to sit at the first marker
            assert forall|e: int|
                0 <= e < b.len() && (#[trigger] b[e] == 'e' || b[e] == 'E') && is_mantissa(
                b.subrange(0, e),
            ) implies !is_signed_digits(b.subrange(e + 1, b.len() as int)) by {
                if e != e0 {
                    assert(e > e0);
                    lemma_mantissa_chars(b.subrange(0, e));
                    assert(b.subrange(0, e)[e0] == b[e0]);
                    assert(!is_digit(b[e0]) && b[e0] != '.');
                } else {
                    assert(!r);
                }
            }
            if is_mantissa(b) {
                lemma_mantissa_chars(b);
                assert(!is_digit(b[e0]) && b[e0] != '.');
            }
            assert(!is_float_text(s@));
        }
    }
    r
}

/// Relies on `str::parse::<i64>` (the standard `FromStr` for `i64`): it
/// accepts exactly an optional sign followed by one or more decimal digits,
/// with the value in range, and returns that value.
#[verifier::external_body]
pub fn parse_i64_text(s: &str) -> (r: Option<i64>)
    ensures
        r is Some <==> is_i64_text(s@),
        r matches Some(v) ==> v as int == int_text_value(s@),
{
    s.parse::<i64>().ok()
}

/// Relies on `i128`'s `Display` (via `to_string`): it renders the value in
/// decimal, with a leading `-` for negative values and no other characters.
#[verifier::external_body]
pub fn i128_decimal(i: i128) -> (r: String)
    ensures
        r@ == int_decimal(i as int),
{
    i.to_string()
}

} // verus!
