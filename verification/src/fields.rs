//! How optional request fields are read: an empty string counts as absent,
//! and numeric fields are read as signed decimal 32-bit integers.

use vstd::prelude::*;

verus! {

/// `opt` with an empty string taken as absent.
pub open spec fn blank_as_none(opt: Option<Seq<char>>) -> Option<Seq<char>> {
    match opt {
        Some(s) => if s.len() == 0 {
            None
        } else {
            Some(s)
        },
        None => None,
    }
}

/// The view of an optional string.
pub open spec fn opt_view(opt: Option<String>) -> Option<Seq<char>> {
    match opt {
        Some(s) => Some(s@),
        None => None,
    }
}

/// An optional field whose value is an empty string is read as absent; any
/// other value is kept.
pub fn empty_string_as_none(opt: Option<String>) -> (r: Option<String>)
    ensures
        opt_view(r) == blank_as_none(opt_view(opt)),
{
    match opt {
        Some(s) => {
            if s.as_str().is_empty() {
                None
            } else {
                Some(s)
            }
        },
        None => None,
    }
}

/// Reading a field twice as "empty is absent" is reading it once, and the
/// result is never an empty string.
pub proof fn lemma_blank_as_none_idempotent(opt: Option<Seq<char>>)
    ensures
        blank_as_none(blank_as_none(opt)) == blank_as_none(opt),
        blank_as_none(opt) matches Some(s) ==> s.len() > 0,
        blank_as_none(opt) is None <==> (opt is None || opt->0.len() == 0),
{
}

/// Why a string is not a 32-bit signed decimal integer.
#[derive(Debug, Clone, Copy, PartialEq, Eq, Structural)]
pub enum IntParseError {
    /// The string is empty.
    Empty,
    /// A character is not a decimal digit, or a sign stands alone.
    InvalidDigit,
    /// The value is above `i32::MAX`.
    PosOverflow,
    /// The value is below `i32::MIN`.
    NegOverflow,
}

impl IntParseError {
    /// The sentence that describes the error.
    pub fn message(&self) -> (m: &'static str)
        ensures
            m@ == self.spec_message(),
    {
        match self {
            IntParseError::Empty => "cannot parse integer from empty string",
            IntParseError::InvalidDigit => "invalid digit found in string",
            IntParseError::PosOverflow => "number too large to fit in target type",
            IntParseError::NegOverflow => "number too small to fit in target type",
        }
    }

    pub open spec fn spec_message(self) -> Seq<char> {
        match self {
            IntParseError::Empty => "cannot parse integer from empty string"@,
            IntParseError::InvalidDigit => "invalid digit found in string"@,
            IntParseError::PosOverflow => "number too large to fit in target type"@,
            IntParseError::NegOverflow => "number too small to fit in target type"@,
        }
    }
}

pub open spec fn is_decimal_digit(c: char) -> bool {
    '0' <= c && c <= '9'
}

pub open spec fn digit_value(c: char) -> int {
    c as int - '0' as int
}

/// The value of a string of decimal digits, most significant first.
pub open spec fn decimal_value(d: Seq<char>) -> int
    decreases d.len(),
{
    if d.len() == 0 {
        0
    } else {
        decimal_value(d.drop_last()) * 10 + digit_value(d.last())
    }
}

/// The signed value of the first `i` digits of `d`.
pub open spec fn signed_prefix(d: Seq<char>, i: int, neg: bool) -> int {
    if neg {
        -decimal_value(d.take(i))
    } else {
        decimal_value(d.take(i))
    }
}

/// Reads the digits `d` from position `i` on, left to right: the first
/// position that holds no digit, or after which the value read so far leaves
/// the range of `i32`, decides the error; otherwise the value of all digits.
pub open spec fn scan_digits(d: Seq<char>, i: int, neg: bool) -> Result<int, IntParseError>
    decreases d.len() - i,
{
    if i >= d.len() {
        Ok(signed_prefix(d, d.len() as int, neg))
    } else if !is_decimal_digit(d[i]) {
        Err(IntParseError::InvalidDigit)
    } else if signed_prefix(d, i + 1, neg) > i32::MAX {
        Err(IntParseError::PosOverflow)
    } else if signed_prefix(d, i + 1, neg) < i32::MIN {
        Err(IntParseError::NegOverflow)
    } else {
        scan_digits(d, i + 1, neg)
    }
}

/// A 32-bit signed decimal integer: an optional `+` or `-`, then one or more
/// decimal digits, nothing else.
pub open spec fn spec_parse_i32(s: Seq<char>) -> Result<int, IntParseError> {
    if s.len() == 0 {
        Err(IntParseError::Empty)
    } else if (s[0] == '+' || s[0] == '-') && s.len() == 1 {
        Err(IntParseError::InvalidDigit)
    } else if s[0] == '+' {
        scan_digits(s.drop_first(), 0, false)
    } else if s[0] == '-' {
        scan_digits(s.drop_first(), 0, true)
    } else {
        scan_digits(s, 0, false)
    }
}

proof fn lemma_take_step(d: Seq<char>, i: int)
    requires
        0 <= i < d.len(),
    ensures
        decimal_value(d.take(i + 1)) == decimal_value(d.take(i)) * 10 + digit_value(d[i]),
{
    assert(d.take(i + 1).drop_last() =~= d.take(i));
}

proof fn lemma_decimal_nonneg(d: Seq<char>)
    requires
        forall|i: int| 0 <= i < d.len() ==> #[trigger] is_decimal_digit(d[i]),
    ensures
        decimal_value(d) >= 0,
    decreases d.len(),
{
    if d.len() > 0 {
        let p = d.drop_last();
        assert forall|k: int| 0 <= k < p.len() implies #[trigger] is_decimal_digit(p[k]) by {
            assert(p[k] == d[k]);
        }
        lemma_decimal_nonneg(p);
        assert(is_decimal_digit(d[d.len() - 1]));
    }
}

/// The values of the prefixes of a string of digits grow with the prefix.
proof fn lemma_decimal_prefix_monotone(d: Seq<char>, i: int, j: int)
    requires
        0 <= i <= j <= d.len(),
        forall|k: int| 0 <= k < d.len() ==> #[trigger] is_decimal_digit(d[k]),
    ensures
        decimal_value(d.take(i)) <= decimal_value(d.take(j)),
    decreases j - i,
{
    if i < j {
        lemma_decimal_prefix_monotone(d, i, j - 1);
        lemma_take_step(d, j - 1);
        let p = d.take(j - 1);
        assert forall|k: int| 0 <= k < p.len() implies #[trigger] is_decimal_digit(p[k]) by {
            assert(p[k] == d[k]);
        }
        lemma_decimal_nonneg(p);
        assert(is_decimal_digit(d[j - 1]));
    }
}

/// A string of decimal digits whose value fits below the bound is read
/// without error from any position on.
proof fn lemma_scan_in_range(d: Seq<char>, i: int, neg: bool)
    requires
        0 <= i <= d.len(),
        forall|k: int| 0 <= k < d.len() ==> #[trigger] is_decimal_digit(d[k]),
        i32::MIN <= signed_prefix(d, d.len() as int, neg) <= i32::MAX,
    ensures
        scan_digits(d, i, neg) == Ok::<int, IntParseError>(signed_prefix(d, d.len() as int, neg)),
    decreases d.len() - i,
{
    if i < d.len() {
        lemma_decimal_prefix_monotone(d, i + 1, d.len() as int);
        let p = d.take(i + 1);
        assert forall|k: int| 0 <= k < p.len() implies #[trigger] is_decimal_digit(p[k]) by {
            assert(p[k] == d[k]);
        }
        lemma_decimal_nonneg(p);
        lemma_scan_in_range(d, i + 1, neg);
    }
}

/// A value that is read is the signed value of its digits; and a nonempty
/// string of digits, with or without a leading `-`, whose signed value fits
/// in `i32` is read as that value.
pub proof fn lemma_parse_i32_value(s: Seq<char>)
    ensures
        spec_parse_i32(s) matches Ok(v) ==> {
            &&& i32::MIN <= v <= i32::MAX
            &&& s[0] == '-' ==> v == -decimal_value(s.drop_first())
            &&& s[0] == '+' ==> v == decimal_value(s.drop_first())
            &&& (s[0] != '-' && s[0] != '+') ==> v == decimal_value(s)
        },
        (s.len() > 0 && (forall|k: int| 0 <= k < s.len() ==> #[trigger] is_decimal_digit(s[k]))
            && decimal_value(s) <= i32::MAX) ==> spec_parse_i32(s) == Ok::<int, IntParseError>(
            decimal_value(s)),
        (s.len() > 1 && s[0] == '-' && (forall|k: int|
            1 <= k < s.len() ==> #[trigger] is_decimal_digit(s[k])) && -decimal_value(
            s.drop_first()) >= i32::MIN) ==> spec_parse_i32(s) == Ok::<int, IntParseError>(
            -decimal_value(s.drop_first())),
{
    if s.len() > 0 {
        let d = if s[0] == '+' || s[0] == '-' {
            s.drop_first()
        } else {
            s
        };
        let neg = s[0] == '-';
        assert(d.take(d.len() as int) =~= d);
        lemma_scan_result(d, 0, neg);
        if (forall|k: int| 0 <= k < s.len() ==> #[trigger] is_decimal_digit(s[k]))
            && decimal_value(s) <= i32::MAX {
            assert(!is_decimal_digit('+') && !is_decimal_digit('-'));
            assert(is_decimal_digit(s[0]));
            lemma_decimal_nonneg(s);
            lemma_scan_in_range(s, 0, false);
        }
        if s.len() > 1 && s[0] == '-' && (forall|k: int|
            1 <= k < s.len() ==> #[trigger] is_decimal_digit(s[k])) && -decimal_value(
            s.drop_first()) >= i32::MIN {
            assert forall|k: int| 0 <= k < d.len() implies #[trigger] is_decimal_digit(d[k]) by {
                assert(d[k] == s[k + 1]);
            }
            lemma_decimal_nonneg(d);
            lemma_scan_in_range(d, 0, true);
        }
    }
}

/// Whatever a scan reads lies in the range of `i32` and is the signed value
/// of all digits.
proof fn lemma_scan_result(d: Seq<char>, i: int, neg: bool)
    requires
        0 <= i,
    ensures
        scan_digits(d, i, neg) matches Ok(v) ==> v == signed_prefix(d, d.len() as int, neg) && (i
            >= d.len() || (i32::MIN <= v <= i32::MAX)),
    decreases d.len() - i,
{
    if i < d.len() && is_decimal_digit(d[i]) && i32::MIN <= signed_prefix(d, i + 1, neg)
        <= i32::MAX {
        lemma_scan_result(d, i + 1, neg);
        if i + 1 >= d.len() {
            assert(i + 1 == d.len());
        }
    }
}

/// The length of the sign at the front of `s`: one for a leading `+` or
/// `-`, else zero.
pub open spec fn sign_len(s: Seq<char>) -> int {
    if s.len() > 0 && (s[0] == '+' || s[0] == '-') {
        1
    } else {
        0
    }
}

/// The characters of `s` after its sign.
pub open spec fn unsigned_part(s: Seq<char>) -> Seq<char> {
    s.subrange(sign_len(s), s.len() as int)
}

/// `s` is a decimal numeral: at most one leading `+` or `-`, then one or more
/// ASCII decimal digits and nothing else.
pub open spec fn is_decimal_numeral(s: Seq<char>) -> bool {
    &&& unsigned_part(s).len() > 0
    &&& forall|i: int|
        0 <= i < unsigned_part(s).len() ==> #[trigger] is_decimal_digit(unsigned_part(s)[i])
}

/// The value that a decimal numeral denotes: the value of its digits, negated
/// after a leading `-`.
pub open spec fn numeral_value(s: Seq<char>) -> int {
    if s.len() > 0 && s[0] == '-' {
        -decimal_value(unsigned_part(s))
    } else {
        decimal_value(unsigned_part(s))
    }
}

/// A scan that succeeds has read only decimal digits.
proof fn lemma_scan_ok_digits(d: Seq<char>, i: int, neg: bool)
    requires
        0 <= i,
        scan_digits(d, i, neg) is Ok,
    ensures
        forall|j: int| i <= j < d.len() ==> #[trigger] is_decimal_digit(d[j]),
    decreases d.len() - i,
{
    if i < d.len() {
        lemma_scan_ok_digits(d, i + 1, neg);
        assert forall|j: int| i <= j < d.len() implies #[trigger] is_decimal_digit(d[j]) by {
            if j > i {
                assert(i + 1 <= j);
            }
        }
    }
}

/// Digits whose signed value leaves the range of `i32` are refused for the
/// overflow, in the direction of the sign.
proof fn lemma_scan_overflow(d: Seq<char>, i: int, neg: bool)
    requires
        0 <= i < d.len(),
        forall|k: int| 0 <= k < d.len() ==> #[trigger] is_decimal_digit(d[k]),
        !(i32::MIN <= signed_prefix(d, d.len() as int, neg) <= i32::MAX),
    ensures
        scan_digits(d, i, neg) == Err::<int, IntParseError>(
            if neg {
                IntParseError::NegOverflow
            } else {
                IntParseError::PosOverflow
            },
        ),
    decreases d.len() - i,
{
    let p = d.take(i + 1);
    assert forall|k: int| 0 <= k < p.len() implies #[trigger] is_decimal_digit(p[k]) by {
        assert(p[k] == d[k]);
    }
    lemma_decimal_nonneg(p);
    if i32::MIN <= signed_prefix(d, i + 1, neg) <= i32::MAX {
        if i + 1 == d.len() {
            assert(d.take(d.len() as int) =~= d.take(i + 1));
        }
        lemma_scan_overflow(d, i + 1, neg);
    }
}

/// A non-digit at position `k`, after digits whose signed value stays in the
/// range of `i32`, is refused as an invalid digit.
proof fn lemma_scan_invalid(d: Seq<char>, i: int, k: int, neg: bool)
    requires
        0 <= i <= k < d.len(),
        forall|j: int| 0 <= j < k ==> #[trigger] is_decimal_digit(d[j]),
        !is_decimal_digit(d[k]),
        i32::MIN <= signed_prefix(d, k, neg) <= i32::MAX,
    ensures
        scan_digits(d, i, neg) == Err::<int, IntParseError>(IntParseError::InvalidDigit),
    decreases k - i,
{
    if i < k {
        let q = d.take(k);
        assert forall|j: int| 0 <= j < q.len() implies #[trigger] is_decimal_digit(q[j]) by {
            assert(q[j] == d[j]);
        }
        lemma_decimal_prefix_monotone(q, i + 1, k);
        assert(q.take(i + 1) =~= d.take(i + 1));
        assert(q.take(k) =~= q);
        let p = d.take(i + 1);
        assert forall|j: int| 0 <= j < p.len() implies #[trigger] is_decimal_digit(p[j]) by {
            assert(p[j] == d[j]);
        }
        lemma_decimal_nonneg(p);
        lemma_scan_invalid(d, i + 1, k, neg);
    }
}

/// What reading a 32-bit integer means, without reference to how it reads:
/// a string is accepted exactly when it is a decimal numeral (an optional
/// `+` or `-`, then one or more ASCII digits, nothing else) whose value lies
/// in the range of `i32`, and then the value read is the numeral's value.
/// An empty string is refused as empty; a numeral out of range is refused as
/// an overflow in the direction of its sign; and a character that is not a
/// digit, where the digits before it stay in range, is refused as an invalid
/// digit, as is a lone sign.
pub proof fn lemma_parse_i32_meaning(s: Seq<char>)
    ensures
        spec_parse_i32(s) is Ok <==> (is_decimal_numeral(s) && i32::MIN <= numeral_value(s)
            <= i32::MAX),
        spec_parse_i32(s) matches Ok(v) ==> v == numeral_value(s),
        s.len() == 0 ==> spec_parse_i32(s) == Err::<int, IntParseError>(IntParseError::Empty),
        (s.len() > 0 && unsigned_part(s).len() == 0) ==> spec_parse_i32(s) == Err::<
            int,
            IntParseError,
        >(IntParseError::InvalidDigit),
        (is_decimal_numeral(s) && numeral_value(s) > i32::MAX) ==> spec_parse_i32(s) == Err::<
            int,
            IntParseError,
        >(IntParseError::PosOverflow),
        (is_decimal_numeral(s) && numeral_value(s) < i32::MIN) ==> spec_parse_i32(s) == Err::<
            int,
            IntParseError,
        >(IntParseError::NegOverflow),
        forall|k: int|
            #![trigger unsigned_part(s)[k]]
            0 <= k < unsigned_part(s).len() && !is_decimal_digit(unsigned_part(s)[k]) && (forall|
                j: int,
            | 0 <= j < k ==> #[trigger] is_decimal_digit(unsigned_part(s)[j])) && i32::MIN
                <= (if s[0] == '-' {
                -decimal_value(unsigned_part(s).take(k))
            } else {
                decimal_value(unsigned_part(s).take(k))
            }) <= i32::MAX ==> spec_parse_i32(s) == Err::<int, IntParseError>(
                IntParseError::InvalidDigit,
            ),
{
    if s.len() > 0 {
        let d = unsigned_part(s);
        let neg = s[0] == '-';
        if s[0] == '+' || s[0] == '-' {
            assert(d =~= s.drop_first());
        } else {
            assert(d =~= s);
        }
        assert(d.take(d.len() as int) =~= d);
        if d.len() > 0 {
            assert(spec_parse_i32(s) == scan_digits(d, 0, neg));
            assert(signed_prefix(d, d.len() as int, neg) == numeral_value(s));
            lemma_scan_result(d, 0, neg);
            if spec_parse_i32(s) is Ok {
                lemma_scan_ok_digits(d, 0, neg);
            }
            if is_decimal_numeral(s) {
                if i32::MIN <= numeral_value(s) <= i32::MAX {
                    lemma_scan_in_range(d, 0, neg);
                } else {
                    lemma_decimal_nonneg(d);
                    lemma_scan_overflow(d, 0, neg);
                }
            }
            assert forall|k: int|
                #![trigger unsigned_part(s)[k]]
                0 <= k < unsigned_part(s).len() && !is_decimal_digit(unsigned_part(s)[k])
                    && (forall|j: int|
                    0 <= j < k ==> #[trigger] is_decimal_digit(unsigned_part(s)[j])) && i32::MIN
                    <= (if s[0] == '-' {
                    -decimal_value(unsigned_part(s).take(k))
                } else {
                    decimal_value(unsigned_part(s).take(k))
                }) <= i32::MAX implies spec_parse_i32(s) == Err::<int, IntParseError>(
                IntParseError::InvalidDigit,
            ) by {
                lemma_scan_invalid(d, 0, k, neg);
            }
        }
    }
}

/// Reads `s` as a 32-bit signed decimal integer: an optional `+` or `-`, then
/// decimal digits and nothing else.
pub fn parse_i32(s: &str) -> (r: Result<i32, IntParseError>)
    ensures
        match r {
            Ok(v) => spec_parse_i32(s@) == Ok::<int, IntParseError>(v as int),
            Err(e) => spec_parse_i32(s@) == Err::<int, IntParseError>(e),
        },
        r is Ok <==> (is_decimal_numeral(s@) && i32::MIN <= numeral_value(s@) <= i32::MAX),
        r matches Ok(v) ==> v == numeral_value(s@),
{
    proof {
        lemma_parse_i32_meaning(s@);
    }
    let n = s.unicode_len();
    if n == 0 {
        return Err(IntParseError::Empty);
    }
    let first = s.get_char(0);
    if (first == '+' || first == '-') && n == 1 {
        return Err(IntParseError::InvalidDigit);
    }
    let neg = first == '-';
    let start: usize = if first == '+' || first == '-' {
        1
    } else {
        0
    };
    let ghost d = s@.subrange(start as int, n as int);
    assert(start == 1 ==> d =~= s@.drop_first());
    assert(start == 0 ==> d =~= s@);
    assert(spec_parse_i32(s@) == scan_digits(d, 0, neg));
    let mut acc: i64 = 0;
    let mut i: usize = start;
    while i < n
        invariant
            n == s@.len(),
            start <= i <= n,
            start <= 1,
            d == s@.subrange(start as int, n as int),
            acc == signed_prefix(d, i - start, neg),
            i32::MIN <= acc <= i32::MAX,
            scan_digits(d, 0, neg) == scan_digits(d, i - start, neg),
            spec_parse_i32(s@) == scan_digits(d, 0, neg),
            spec_parse_i32(s@) is Ok <==> (is_decimal_numeral(s@) && i32::MIN <= numeral_value(
                s@,
            ) <= i32::MAX),
            spec_parse_i32(s@) matches Ok(v) ==> v == numeral_value(s@),
        decreases n - i,
    {
        let c = s.get_char(i);
        let code = c as u32;
        proof {
            assert(d[i - start] == c);
        }
        if code < 48 || code > 57 {
            assert(!is_decimal_digit(c));
            assert(scan_digits(d, i - start, neg) == Err::<int, IntParseError>(
                IntParseError::InvalidDigit));
            return Err(IntParseError::InvalidDigit);
        }
        let digit = (code - 48) as i64;
        proof {
            lemma_take_step(d, i - start);
            assert(d[i - start] == c);
            assert(digit == digit_value(c));
        }
        let next = if neg {
            acc * 10 - digit
        } else {
            acc * 10 + digit
        };
        assert(next == signed_prefix(d, i - start + 1, neg));
        if next > 2147483647 {
            return Err(IntParseError::PosOverflow);
        }
        if next < -2147483648 {
            return Err(IntParseError::NegOverflow);
        }
        acc = next;
        i = i + 1;
    }
    proof {
        assert(i - start == d.len());
    }
    Ok(acc as i32)
}

/// A numeric optional field: absent when missing or empty, otherwise read as
/// a 32-bit signed decimal integer.
pub fn optional_i32(opt: Option<String>) -> (r: Result<Option<i32>, IntParseError>)
    ensures
        match blank_as_none(opt_view(opt)) {
            None => r == Ok::<Option<i32>, IntParseError>(None),
            Some(s) => match spec_parse_i32(s) {
                Ok(v) => r == Ok::<Option<i32>, IntParseError>(Some(v as i32)),
                Err(e) => r == Err::<Option<i32>, IntParseError>(e),
            },
        },
        r matches Ok(Some(v)) ==> (opt is Some && is_decimal_numeral(opt->0@) && v == numeral_value(
            opt->0@,
        )),
        (opt is Some && is_decimal_numeral(opt->0@) && i32::MIN <= numeral_value(opt->0@)
            <= i32::MAX) ==> r == Ok::<Option<i32>, IntParseError>(
            Some(numeral_value(opt->0@) as i32),
        ),
{
    match empty_string_as_none(opt) {
        None => Ok(None),
        Some(s) => match parse_i32(s.as_str()) {
            Ok(v) => Ok(Some(v)),
            Err(e) => Err(e),
        },
    }
}

} // verus!
