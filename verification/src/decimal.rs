//! Base-10 text of signed 64-bit integers: reading it and writing it.
//!
//! An integer is written as an optional sign (`-` or `+`) followed by one or
//! more ASCII digits. Leading zeros are allowed when reading and never
//! produced when writing.

use vstd::prelude::*;
use vstd::std_specs::iter::IteratorSpec;

verus! {

/// Why a text is not the decimal form of a signed 64-bit integer.
#[derive(Clone, Copy, Debug, PartialEq, Eq, Structural)]
pub enum ParseError {
    /// The text has no characters at all.
    Empty,
    /// A character that is not a digit stands where a digit is needed, or
    /// no digit follows the sign.
    InvalidDigit,
    /// The digits denote a number above `i64::MAX`.
    PosOverflow,
    /// The digits denote a number below `i64::MIN`.
    NegOverflow,
}

impl ParseError {
    /// What was wrong with the text, in words.
    pub open spec fn message(self) -> Seq<char> {
        match self {
            ParseError::Empty => "cannot parse integer from empty string"@,
            ParseError::InvalidDigit => "invalid digit found in string"@,
            ParseError::PosOverflow => "number too large to fit in target type"@,
            ParseError::NegOverflow => "number too small to fit in target type"@,
        }
    }

    /// What was wrong with the text, in words.
    pub fn to_string(&self) -> (text: String)
        ensures
            text@ == self.message(),
    {
        match self {
            ParseError::Empty => String::from_str("cannot parse integer from empty string"),
            ParseError::InvalidDigit => String::from_str("invalid digit found in string"),
            ParseError::PosOverflow => String::from_str("number too large to fit in target type"),
            ParseError::NegOverflow => String::from_str("number too small to fit in target type"),
        }
    }
}

// The digits of a text and the number they denote.

/// Whether `c` is one of the ASCII digits `0` to `9`.
pub open spec fn is_digit(c: char) -> bool {
    '0' <= c <= '9'
}

/// The number that the digit `c` stands for.
pub open spec fn digit_value(c: char) -> int {
    c as int - '0' as int
}

/// Whether every character of `s` is a digit.
pub open spec fn all_digits(s: Seq<char>) -> bool {
    forall|i: int| 0 <= i < s.len() ==> is_digit(#[trigger] s[i])
}

/// The number denoted by the digits `s`, most significant first.
pub open spec fn digits_value(s: Seq<char>) -> int
    decreases s.len(),
{
    if s.len() == 0 {
        0
    } else {
        10 * digits_value(s.drop_last()) + digit_value(s.last())
    }
}

/// How many digits `s` starts with.
pub open spec fn leading_digits(s: Seq<char>) -> nat
    decreases s.len(),
{
    if s.len() > 0 && is_digit(s[0]) {
        1 + leading_digits(s.drop_first())
    } else {
        0
    }
}

/// Whether `s` starts with a sign.
pub open spec fn has_sign(s: Seq<char>) -> bool {
    s.len() > 0 && (s[0] == '-' || s[0] == '+')
}

/// Whether `s` starts with a minus sign.
pub open spec fn is_negative(s: Seq<char>) -> bool {
    s.len() > 0 && s[0] == '-'
}

/// What follows the sign of `s`, or all of `s` where it has no sign.
pub open spec fn magnitude(s: Seq<char>) -> Seq<char> {
    if has_sign(s) {
        s.drop_first()
    } else {
        s
    }
}

/// Whether `s` is an optional sign followed by one or more digits.
pub open spec fn is_decimal(s: Seq<char>) -> bool {
    magnitude(s).len() > 0 && all_digits(magnitude(s))
}

/// The integer that the decimal text `s` denotes.
pub open spec fn decimal_value(s: Seq<char>) -> int {
    if is_negative(s) {
        -digits_value(magnitude(s))
    } else {
        digits_value(magnitude(s))
    }
}

/// The outcome of reading `s` as a signed 64-bit integer.
///
/// The text is read from the left and the first obstacle decides the error:
/// the digits before a character that is no digit are already weighed against
/// the range of `i64`, so an overflow among them is reported in preference to
/// the invalid character behind them.
pub open spec fn parse_spec(s: Seq<char>) -> Result<i64, ParseError> {
    let digits = magnitude(s);
    let run = digits.subrange(0, leading_digits(digits) as int);
    let value = if is_negative(s) {
        -digits_value(run)
    } else {
        digits_value(run)
    };
    if s.len() == 0 {
        Err(ParseError::Empty)
    } else if digits.len() == 0 {
        Err(ParseError::InvalidDigit)
    } else if value < i64::MIN {
        Err(ParseError::NegOverflow)
    } else if value > i64::MAX {
        Err(ParseError::PosOverflow)
    } else if run.len() < digits.len() {
        Err(ParseError::InvalidDigit)
    } else {
        Ok(value as i64)
    }
}

// The text of a number.

/// The character that stands for the digit `d`.
pub open spec fn digit_char(d: int) -> char {
    (d + '0' as int) as char
}

/// The digits of `n`, most significant first, without leading zeros.
pub open spec fn digits_of(n: nat) -> Seq<char>
    decreases n,
{
    if n < 10 {
        seq![digit_char(n as int)]
    } else {
        digits_of(n / 10).push(digit_char((n % 10) as int))
    }
}

/// The decimal text of `v`: its digits, after a minus sign where `v` is
/// negative.
pub open spec fn decimal_text(v: int) -> Seq<char> {
    if v < 0 {
        seq!['-'] + digits_of((-v) as nat)
    } else {
        digits_of(v as nat)
    }
}

// Reading.

/// The digit that `c` stands for, if it is a digit.
fn digit_of(c: char) -> (digit: Option<u8>)
    ensures
        digit is Some <==> is_digit(c),
        digit is Some ==> digit->0 == digit_value(c),
{
    if '0' <= c && c <= '9' {
        Some((c as u32 - '0' as u32) as u8)
    } else {
        None
    }
}

/// Appends `digit` to a number read so far, away from zero on the side that
/// `negative` names, unless the result leaves the range of `i64`.
fn push_digit(value: i64, negative: bool, digit: u8) -> (next: Option<i64>)
    requires
        digit < 10,
        negative ==> value <= 0,
        !negative ==> value >= 0,
    ensures
        negative ==> next == if 10 * value - digit < i64::MIN {
            None
        } else {
            Some((10 * value - digit) as i64)
        },
        !negative ==> next == if 10 * value + digit > i64::MAX {
            None
        } else {
            Some((10 * value + digit) as i64)
        },
{
    match value.checked_mul(10) {
        None => None,
        Some(scaled) => {
            if negative {
                scaled.checked_sub(digit as i64)
            } else {
                scaled.checked_add(digit as i64)
            }
        },
    }
}

/// Reads `text` as a signed 64-bit integer in base 10.
///
/// Accepts an optional `-` or `+` followed by one or more ASCII digits whose
/// value lies within the range of `i64`, and nothing else: no blanks, no
/// separators, no other scripts' digits.
pub fn parse_decimal(text: &str) -> (parsed: Result<i64, ParseError>)
    ensures
        parsed == parse_spec(text@),
{
    broadcast use vstd::string::group_string_axioms;

    let ghost digits = magnitude(text@);
    let mut chars = text.chars();
    let first = match chars.next() {
        None => {
            return Err(ParseError::Empty);
        },
        Some(c) => c,
    };
    let negative = first == '-';
    let mut value: i64 = 0;
    let mut has_digits = false;
    let ghost mut seen: int = 0;
    if first != '-' && first != '+' {
        match digit_of(first) {
            None => {
                proof {
                    lemma_leading_digits_is(digits, 0);
                }
                return Err(ParseError::InvalidDigit);
            },
            Some(digit) => {
                value = digit as i64;
                has_digits = true;
                proof {
                    seen = 1;
                    lemma_value_of_longer_prefix(digits, 0);
                    assert(digits.subrange(0, 1)[0] == digits[0]);
                }
            },
        }
    }
    loop
        invariant
            digits == magnitude(text@),
            text@.len() > 0,
            negative == is_negative(text@),
            0 <= seen <= digits.len(),
            has_digits == (seen > 0),
            seen == 0 ==> has_sign(text@),
            chars.remaining() == digits.subrange(seen, digits.len() as int),
            all_digits(digits.subrange(0, seen)),
            negative ==> value == -digits_value(digits.subrange(0, seen)),
            !negative ==> value == digits_value(digits.subrange(0, seen)),
        decreases digits.len() - seen,
    {
        proof {
            lemma_value_is_nonnegative(digits.subrange(0, seen));
        }
        match chars.next() {
            None => {
                proof {
                    lemma_leading_digits_is(digits, seen);
                    assert(digits.subrange(0, seen) == digits);
                }
                return if has_digits {
                    Ok(value)
                } else {
                    Err(ParseError::InvalidDigit)
                };
            },
            Some(c) => {
                assert(c == digits[seen]);
                match digit_of(c) {
                    None => {
                        proof {
                            lemma_leading_digits_is(digits, seen);
                        }
                        return Err(ParseError::InvalidDigit);
                    },
                    Some(digit) => {
                        proof {
                            lemma_value_of_longer_prefix(digits, seen);
                            assert forall|i: int| 0 <= i < seen + 1 implies is_digit(
                                #[trigger] digits.subrange(0, seen + 1)[i],
                            ) by {
                                if i < seen {
                                    assert(digits.subrange(0, seen + 1)[i] == digits.subrange(
                                        0,
                                        seen,
                                    )[i]);
                                }
                            }
                        }
                        match push_digit(value, negative, digit) {
                            None => {
                                proof {
                                    let run = leading_digits(digits) as int;
                                    lemma_leading_digits_cover(digits, seen + 1);
                                    lemma_leading_digits_stop(digits);
                                    lemma_value_grows_with_prefix(digits, seen + 1, run);
                                }
                                return Err(
                                    if negative {
                                        ParseError::NegOverflow
                                    } else {
                                        ParseError::PosOverflow
                                    },
                                );
                            },
                            Some(next) => {
                                value = next;
                                has_digits = true;
                                proof {
                                    seen = seen + 1;
                                }
                            },
                        }
                    },
                }
            },
        }
    }
}

// Writing.

/// The text of the single digit `d`.
fn digit_text(d: u64) -> (text: &'static str)
    requires
        d < 10,
    ensures
        text@ == seq![digit_char(d as int)],
{
    proof {
        reveal_strlit("0");
        reveal_strlit("1");
        reveal_strlit("2");
        reveal_strlit("3");
        reveal_strlit("4");
        reveal_strlit("5");
        reveal_strlit("6");
        reveal_strlit("7");
        reveal_strlit("8");
        reveal_strlit("9");
    }
    let text = match d {
        0 => "0",
        1 => "1",
        2 => "2",
        3 => "3",
        4 => "4",
        5 => "5",
        6 => "6",
        7 => "7",
        8 => "8",
        _ => "9",
    };
    assert(text@ =~= seq![digit_char(d as int)]);
    text
}

/// Writes the digits of `n` behind what `out` holds.
pub fn append_digits(out: &mut String, n: u64)
    ensures
        final(out)@ == old(out)@ + digits_of(n as nat),
    decreases n,
{
    if n >= 10 {
        append_digits(out, n / 10);
    }
    out.append(digit_text(n % 10));
    assert(out@ =~= old(out)@ + digits_of(n as nat));
}

/// Writes `value` in base 10: a minus sign if it is negative, then its
/// digits without leading zeros.
pub fn render_decimal(value: i64) -> (text: String)
    ensures
        text@ == decimal_text(value as int),
{
    let mut text = String::new();
    if value < 0 {
        proof {
            reveal_strlit("-");
        }
        text.append("-");
        let magnitude: u64 = (-(value + 1)) as u64 + 1;
        append_digits(&mut text, magnitude);
        assert(text@ =~= decimal_text(value as int));
    } else {
        append_digits(&mut text, value as u64);
        assert(text@ =~= decimal_text(value as int));
    }
    text
}

// What holds of reading and writing together.

/// The digits written for `n` are digits, at least one of them, and denote
/// `n`.
pub proof fn lemma_digits_of_denote(n: nat)
    ensures
        digits_of(n).len() > 0,
        all_digits(digits_of(n)),
        digits_value(digits_of(n)) == n,
    decreases n,
{
    let written = digits_of(n);
    if n < 10 {
        lemma_digit_char(n as int);
        assert(written.drop_last() =~= Seq::<char>::empty());
        assert(digits_value(written.drop_last()) == 0);
        assert(written.last() == digit_char(n as int));
    } else {
        let shorter = digits_of(n / 10);
        lemma_digits_of_denote(n / 10);
        lemma_digit_char((n % 10) as int);
        assert(written.drop_last() =~= shorter);
        assert(written.last() == digit_char((n % 10) as int));
        assert forall|i: int| 0 <= i < written.len() implies is_digit(#[trigger] written[i]) by {
            if i < shorter.len() {
                assert(written[i] == shorter[i]);
            }
        }
    }
}

/// A text is read successfully exactly when it is a decimal whose value
/// lies within the range of `i64`, and what is read is that value.
pub proof fn lemma_parse_reads_decimals(s: Seq<char>)
    ensures
        parse_spec(s) is Ok <==> is_decimal(s) && i64::MIN <= decimal_value(s) <= i64::MAX,
        parse_spec(s) is Ok ==> parse_spec(s)->Ok_0 == decimal_value(s),
{
    let digits = magnitude(s);
    let run = digits.subrange(0, leading_digits(digits) as int);
    lemma_leading_digits_stop(digits);
    lemma_value_is_nonnegative(run);
    if is_decimal(s) {
        assert(digits.subrange(0, digits.len() as int) =~= digits);
        lemma_leading_digits_is(digits, digits.len() as int);
    } else if run.len() == digits.len() {
        assert(run =~= digits);
    }
}

/// Reading the text written for a number gives that number back.
pub proof fn lemma_parse_inverts_render(v: i64)
    ensures
        parse_spec(decimal_text(v as int)) == Ok::<i64, ParseError>(v),
{
    let text = decimal_text(v as int);
    let written = if v < 0 {
        digits_of((-v) as nat)
    } else {
        digits_of(v as nat)
    };
    lemma_digits_of_denote(if v < 0 {
        (-v) as nat
    } else {
        v as nat
    });
    assert(is_digit(written[0]));
    if v < 0 {
        assert(text[0] == '-');
        assert(magnitude(text) =~= written);
    } else {
        assert(magnitude(text) =~= written);
    }
    lemma_parse_reads_decimals(text);
}

// Steps of the proofs above.

/// Appending a digit multiplies the value by ten and adds the digit.
proof fn lemma_value_of_longer_prefix(s: Seq<char>, k: int)
    requires
        0 <= k < s.len(),
    ensures
        digits_value(s.subrange(0, k + 1)) == 10 * digits_value(s.subrange(0, k)) + digit_value(
            s[k],
        ),
{
    let longer = s.subrange(0, k + 1);
    assert(longer.drop_last() =~= s.subrange(0, k));
    assert(longer.last() == s[k]);
}

/// The value of a run of digits is not negative.
proof fn lemma_value_is_nonnegative(s: Seq<char>)
    requires
        all_digits(s),
    ensures
        digits_value(s) >= 0,
    decreases s.len(),
{
    if s.len() > 0 {
        let shorter = s.drop_last();
        assert forall|i: int| 0 <= i < shorter.len() implies is_digit(#[trigger] shorter[i]) by {
            assert(shorter[i] == s[i]);
        }
        lemma_value_is_nonnegative(shorter);
        assert(is_digit(s.last()));
    }
}

/// Among the prefixes of a run of digits, a longer one has no smaller value.
proof fn lemma_value_grows_with_prefix(s: Seq<char>, j: int, k: int)
    requires
        0 <= j <= k <= s.len(),
        all_digits(s.subrange(0, k)),
    ensures
        0 <= digits_value(s.subrange(0, j)) <= digits_value(s.subrange(0, k)),
    decreases k - j,
{
    assert forall|i: int| 0 <= i < j implies is_digit(#[trigger] s.subrange(0, j)[i]) by {
        assert(s.subrange(0, j)[i] == s.subrange(0, k)[i]);
    }
    lemma_value_is_nonnegative(s.subrange(0, j));
    if j < k {
        let shorter = s.subrange(0, k - 1);
        assert forall|i: int| 0 <= i < k - 1 implies is_digit(#[trigger] shorter[i]) by {
            assert(shorter[i] == s.subrange(0, k)[i]);
        }
        lemma_value_grows_with_prefix(s, j, k - 1);
        lemma_value_of_longer_prefix(s, k - 1);
        assert(is_digit(s.subrange(0, k)[k - 1]));
    }
}

/// `leading_digits` stops at the first character that is no digit.
proof fn lemma_leading_digits_stop(s: Seq<char>)
    ensures
        leading_digits(s) <= s.len(),
        all_digits(s.subrange(0, leading_digits(s) as int)),
        leading_digits(s) < s.len() ==> !is_digit(s[leading_digits(s) as int]),
    decreases s.len(),
{
    if s.len() > 0 && is_digit(s[0]) {
        let rest = s.drop_first();
        lemma_leading_digits_stop(rest);
        let n = leading_digits(s) as int;
        assert forall|i: int| 0 <= i < n implies is_digit(#[trigger] s.subrange(0, n)[i]) by {
            if i > 0 {
                assert(s.subrange(0, n)[i] == rest.subrange(0, n - 1)[i - 1]);
            }
        }
        if n < s.len() {
            assert(s[n] == rest[n - 1]);
        }
    }
}

/// A run of `n` digits that ends the text or is followed by another
/// character is the whole leading run.
proof fn lemma_leading_digits_is(s: Seq<char>, n: int)
    requires
        0 <= n <= s.len(),
        all_digits(s.subrange(0, n)),
        n < s.len() ==> !is_digit(s[n]),
    ensures
        leading_digits(s) == n,
{
    lemma_leading_digits_stop(s);
    let m = leading_digits(s) as int;
    if m < n {
        assert(s.subrange(0, n)[m] == s[m]);
    } else if m > n {
        assert(s.subrange(0, m)[n] == s[n]);
    }
}

/// A run of `n` digits at the start of the text is part of the leading run.
proof fn lemma_leading_digits_cover(s: Seq<char>, n: int)
    requires
        0 <= n <= s.len(),
        all_digits(s.subrange(0, n)),
    ensures
        leading_digits(s) >= n,
{
    lemma_leading_digits_stop(s);
    let m = leading_digits(s) as int;
    if m < n {
        assert(s.subrange(0, n)[m] == s[m]);
    }
}

/// The character of a digit is a digit and stands for it.
proof fn lemma_digit_char(d: int)
    requires
        0 <= d < 10,
    ensures
        is_digit(digit_char(d)),
        digit_value(digit_char(d)) == d,
{
}

} // verus!
