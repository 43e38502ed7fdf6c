//! The text-parsing capability of target types.
//!
//! A target type implements [`FromText`]: it can be produced from the text of
//! one normalized line, or fails with its own typed error.  The grammar of a
//! type is pinned down by a specification function, and the parse error for
//! text outside the grammar by a second one, so the behaviour of a parse is
//! fixed for every input.
//!
//! Integer targets share one decimal grammar: an optional sign (a leading
//! `'+'`, or `'-'` for the signed types) followed by one or more decimal
//! digits, with the value required to fit the target type.

use vstd::arithmetic::div_mod::lemma_fundamental_div_mod;
use vstd::prelude::*;
use vstd::string::{StrSliceExecFns, StringExecFns};

verus! {

/// The capability of being produced from line text.
///
/// `spec_parse` gives the meaning (as a deep view) of every text in the
/// type's grammar, and `spec_parse_err` the error value reported for every
/// text outside it; `from_text` is the executable parser, bound to both.
pub trait FromText: Sized + DeepView {
    /// The type's own parse-error value, preserved verbatim for callers.
    type ParseError;

    /// The value encoded by `s`, if `s` is in the type's grammar.
    spec fn spec_parse(s: Seq<char>) -> Option<<Self as DeepView>::V>;

    /// The error reported when `s` is not in the type's grammar.
    spec fn spec_parse_err(s: Seq<char>) -> Self::ParseError;

    /// Parse the text `s`, exactly as given, into a value of the type.
    fn from_text(s: &str) -> (r: Result<Self, Self::ParseError>)
        ensures
            (match Self::spec_parse(s@) {
                Some(m) => r matches Ok(v) && v.deep_view() == m,
                None => r matches Err(e) && e == Self::spec_parse_err(s@),
            }),
    ;
}

/// The error of the integer targets' shared decimal grammar.
#[derive(Debug, PartialEq, Eq, Structural)]
pub enum IntParseError {
    /// The text was empty.
    Empty,
    /// A character was not a decimal digit (or a sign stood alone or in the
    /// wrong place).
    InvalidDigit,
    /// The text was a well-formed number, but out of the target's range.
    Overflow,
}

/// The error type of targets whose parse cannot fail.
#[derive(Debug, PartialEq, Eq, Structural)]
pub struct NoError;

pub open spec fn is_digit(c: char) -> bool {
    48 <= c as u32 <= 57
}

pub open spec fn digit_val(c: char) -> nat
    recommends
        is_digit(c),
{
    (c as u32 - 48) as nat
}

pub open spec fn all_digits(s: Seq<char>) -> bool {
    forall|i: int| 0 <= i < s.len() ==> is_digit(#[trigger] s[i])
}

/// The value of a digit string, most significant digit first.
pub open spec fn digits_val(s: Seq<char>) -> nat
    recommends
        all_digits(s),
    decreases s.len(),
{
    if s.len() == 0 {
        0
    } else {
        digits_val(s.drop_last()) * 10 + digit_val(s.last())
    }
}

/// The value of unsigned decimal text: an optional leading `'+'` followed by
/// one or more digits.
pub open spec fn unsigned_text_value(s: Seq<char>) -> Option<int> {
    let body = if s.len() > 0 && s[0] == '+' {
        s.skip(1)
    } else {
        s
    };
    if body.len() > 0 && all_digits(body) {
        Some(digits_val(body) as int)
    } else {
        None
    }
}

/// The value of signed decimal text: an optional leading `'+'` or `'-'`
/// followed by one or more digits.
pub open spec fn signed_text_value(s: Seq<char>) -> Option<int> {
    if s.len() > 0 && s[0] == '-' {
        let body = s.skip(1);
        if body.len() > 0 && all_digits(body) {
            Some(-(digits_val(body) as int))
        } else {
            None
        }
    } else {
        unsigned_text_value(s)
    }
}

/// The error reported for unsigned decimal text; meaningful where
/// `unsigned_text_value` is `None` or the value is out of the target's range.
pub open spec fn unsigned_text_error(s: Seq<char>) -> IntParseError {
    if s.len() == 0 {
        IntParseError::Empty
    } else {
        let body = if s[0] == '+' {
            s.skip(1)
        } else {
            s
        };
        if body.len() == 0 || !all_digits(body) {
            IntParseError::InvalidDigit
        } else {
            IntParseError::Overflow
        }
    }
}

/// The error reported for signed decimal text, as `unsigned_text_error`.
pub open spec fn signed_text_error(s: Seq<char>) -> IntParseError {
    if s.len() == 0 {
        IntParseError::Empty
    } else {
        let body = if s[0] == '+' || s[0] == '-' {
            s.skip(1)
        } else {
            s
        };
        if body.len() == 0 || !all_digits(body) {
            IntParseError::InvalidDigit
        } else {
            IntParseError::Overflow
        }
    }
}

/// A digit string is worth at least as much as any of its prefixes.
proof fn lemma_digits_val_prefix(s: Seq<char>, k: int)
    requires
        0 <= k <= s.len(),
    ensures
        digits_val(s.take(k)) <= digits_val(s),
    decreases s.len(),
{
    if k < s.len() {
        assert(s.take(k) =~= s.drop_last().take(k));
        lemma_digits_val_prefix(s.drop_last(), k);
        assert(digits_val(s.drop_last()) * 10 >= digits_val(s.drop_last()));
    } else {
        assert(s.take(k) =~= s);
    }
}

/// Accumulate the decimal digits of `s` from position `start` on: the shared
/// core of the integer targets.  Reports `Empty` when no text remains,
/// `InvalidDigit` when any remaining character is not a digit, `Overflow`
/// when the digits are well formed but their value does not fit a `u64`.
fn parse_magnitude(s: &str, start: usize) -> (r: Result<u64, IntParseError>)
    requires
        start as int <= s@.len(),
    ensures
        (({
            let body = s@.skip(start as int);
            &&& body.len() == 0 ==> r == Err::<u64, IntParseError>(IntParseError::Empty)
            &&& body.len() > 0 && !all_digits(body) ==> r == Err::<u64, IntParseError>(
                IntParseError::InvalidDigit,
            )
            &&& body.len() > 0 && all_digits(body) && digits_val(body) > u64::MAX ==> r
                == Err::<u64, IntParseError>(IntParseError::Overflow)
            &&& body.len() > 0 && all_digits(body) && digits_val(body) <= u64::MAX ==> r
                == Ok::<u64, IntParseError>((digits_val(body) as u64))
        })),
{
    let ghost body = s@.skip(start as int);
    let n = s.unicode_len();
    if start == n {
        return Err(IntParseError::Empty);
    }
    let mut i: usize = start;
    while i < n
        invariant
            start <= i <= n,
            n == s@.len(),
            body == s@.skip(start as int),
            forall|j: int| start <= j < i ==> is_digit(#[trigger] s@[j]),
        decreases n - i,
    {
        let c = s.get_char(i);
        let d = c as u32;
        if d < 48 || d > 57 {
            proof {
                assert(body[i as int - start as int] == s@[i as int]);
                assert(!is_digit(body[i as int - start as int]));
                assert(!all_digits(body));
            }
            return Err(IntParseError::InvalidDigit);
        }
        i += 1;
    }
    proof {
        assert forall|j: int| 0 <= j < body.len() implies is_digit(#[trigger] body[j]) by {
            assert(body[j] == s@[j + start as int]);
        }
        assert(all_digits(body));
    }
    let mut acc: u64 = 0;
    let mut i: usize = start;
    while i < n
        invariant
            start <= i <= n,
            n == s@.len(),
            all_digits(body),
            body == s@.skip(start as int),
            forall|j: int| start <= j < n ==> is_digit(#[trigger] s@[j]),
            acc as nat == digits_val(s@.subrange(start as int, i as int)),
        decreases n - i,
    {
        let c = s.get_char(i);
        let d = (c as u32 - 48) as u64;
        let ghost pre = s@.subrange(start as int, i as int);
        let ghost pre1 = s@.subrange(start as int, i as int + 1);
        proof {
            assert(pre1.drop_last() =~= pre);
            assert(pre1.last() == s@[i as int]);
            assert(digits_val(pre1) == digits_val(pre) * 10 + digit_val(s@[i as int]));
            lemma_fundamental_div_mod((u64::MAX - d) as int, 10);
        }
        if acc > (u64::MAX - d) / 10 {
            proof {
                assert(acc as int * 10 + d as int > u64::MAX);
                assert(digits_val(pre1) > u64::MAX);
                assert(body.take(i as int + 1 - start as int) =~= pre1);
                lemma_digits_val_prefix(body, i as int + 1 - start as int);
                assert(digits_val(body) > u64::MAX);
            }
            return Err(IntParseError::Overflow);
        }
        proof {
            assert(acc as int * 10 + d as int <= u64::MAX);
        }
        acc = acc * 10 + d;
        i += 1;
        proof {
            assert(acc as nat == digits_val(pre1));
        }
    }
    proof {
        assert(s@.subrange(start as int, n as int) =~= body);
    }
    Ok(acc)
}

impl FromText for u64 {
    type ParseError = IntParseError;

    open spec fn spec_parse(s: Seq<char>) -> Option<u64> {
        match unsigned_text_value(s) {
            Some(v) => if v <= u64::MAX {
                Some(v as u64)
            } else {
                None
            },
            None => None,
        }
    }

    open spec fn spec_parse_err(s: Seq<char>) -> IntParseError {
        unsigned_text_error(s)
    }

    fn from_text(s: &str) -> (r: Result<u64, IntParseError>) {
        let n = s.unicode_len();
        if n == 0 {
            return Err(IntParseError::Empty);
        }
        let start: usize = if s.get_char(0) == '+' {
            1
        } else {
            0
        };
        proof {
            if start == 0 {
                assert(s@.skip(0) =~= s@);
            }
        }
        match parse_magnitude(s, start) {
            Ok(v) => Ok(v),
            // Only a sign with no digits after it leaves the magnitude empty.
            Err(IntParseError::Empty) => Err(IntParseError::InvalidDigit),
            Err(e) => Err(e),
        }
    }
}

impl FromText for u32 {
    type ParseError = IntParseError;

    open spec fn spec_parse(s: Seq<char>) -> Option<u32> {
        match unsigned_text_value(s) {
            Some(v) => if v <= u32::MAX {
                Some(v as u32)
            } else {
                None
            },
            None => None,
        }
    }

    open spec fn spec_parse_err(s: Seq<char>) -> IntParseError {
        unsigned_text_error(s)
    }

    fn from_text(s: &str) -> (r: Result<u32, IntParseError>) {
        match <u64 as FromText>::from_text(s) {
            Ok(v) => if v <= u32::MAX as u64 {
                Ok(v as u32)
            } else {
                Err(IntParseError::Overflow)
            },
            Err(e) => Err(e),
        }
    }
}

impl FromText for i64 {
    type ParseError = IntParseError;

    open spec fn spec_parse(s: Seq<char>) -> Option<i64> {
        match signed_text_value(s) {
            Some(v) => if i64::MIN <= v <= i64::MAX {
                Some(v as i64)
            } else {
                None
            },
            None => None,
        }
    }

    open spec fn spec_parse_err(s: Seq<char>) -> IntParseError {
        signed_text_error(s)
    }

    fn from_text(s: &str) -> (r: Result<i64, IntParseError>) {
        let n = s.unicode_len();
        if n == 0 {
            return Err(IntParseError::Empty);
        }
        let c0 = s.get_char(0);
        let neg = c0 == '-';
        let start: usize = if neg || c0 == '+' {
            1
        } else {
            0
        };
        proof {
            if start == 0 {
                assert(s@.skip(0) =~= s@);
            }
        }
        let m = match parse_magnitude(s, start) {
            Ok(m) => m,
            // Only a sign with no digits after it leaves the magnitude empty.
            Err(IntParseError::Empty) => {
                return Err(IntParseError::InvalidDigit);
            },
            Err(e) => {
                return Err(e);
            },
        };
        if neg {
            if m <= 9223372036854775807u64 {
                Ok(-(m as i64))
            } else if m == 9223372036854775808u64 {
                Ok(i64::MIN)
            } else {
                Err(IntParseError::Overflow)
            }
        } else {
            if m <= 9223372036854775807u64 {
                Ok(m as i64)
            } else {
                Err(IntParseError::Overflow)
            }
        }
    }
}

impl FromText for i32 {
    type ParseError = IntParseError;

    open spec fn spec_parse(s: Seq<char>) -> Option<i32> {
        match signed_text_value(s) {
            Some(v) => if i32::MIN <= v <= i32::MAX {
                Some(v as i32)
            } else {
                None
            },
            None => None,
        }
    }

    open spec fn spec_parse_err(s: Seq<char>) -> IntParseError {
        signed_text_error(s)
    }

    fn from_text(s: &str) -> (r: Result<i32, IntParseError>) {
        match <i64 as FromText>::from_text(s) {
            Ok(v) => if i32::MIN as i64 <= v && v <= i32::MAX as i64 {
                Ok(v as i32)
            } else {
                Err(IntParseError::Overflow)
            },
            Err(e) => Err(e),
        }
    }
}

impl FromText for String {
    type ParseError = NoError;

    open spec fn spec_parse(s: Seq<char>) -> Option<Seq<char>> {
        Some(s)
    }

    open spec fn spec_parse_err(s: Seq<char>) -> NoError {
        NoError
    }

    fn from_text(s: &str) -> (r: Result<String, NoError>) {
        Ok(String::from_str(s))
    }
}

} // verus!
