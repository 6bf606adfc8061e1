//! Decimal integers in text, read as Rust's integer types read them from a string: an optional
//! sign, then decimal digits and nothing else.

use vstd::prelude::*;
use vstd::string::StringExecFns;

verus! {

/// Why a text is no integer of the wanted type.
#[derive(Clone, Copy, Debug, PartialEq, Eq, Structural)]
pub enum IntFault {
    /// The text is empty.
    Empty,
    /// The text is a sign alone, or holds a character that is no decimal digit.
    InvalidDigit,
    /// The number is above the type's range.
    PosOverflow,
    /// The number is below the type's range.
    NegOverflow,
}

impl IntFault {
    /// The words that say what is wrong with the text.
    pub open spec fn message(self) -> Seq<char> {
        match self {
            IntFault::Empty => "cannot parse integer from empty string"@,
            IntFault::InvalidDigit => "invalid digit found in string"@,
            IntFault::PosOverflow => "number too large to fit in target type"@,
            IntFault::NegOverflow => "number too small to fit in target type"@,
        }
    }

    /// The words that say what is wrong with the text.
    pub fn description(&self) -> (s: &'static str)
        ensures
            s@ == self.message(),
    {
        match self {
            IntFault::Empty => "cannot parse integer from empty string",
            IntFault::InvalidDigit => "invalid digit found in string",
            IntFault::PosOverflow => "number too large to fit in target type",
            IntFault::NegOverflow => "number too small to fit in target type",
        }
    }
}

/// Whether `c` is one of the ten decimal digits.
pub open spec fn is_digit(c: char) -> bool {
    '0' <= c && c <= '9'
}

/// The number that the digit `c` stands for.
pub open spec fn digit_value(c: char) -> int {
    c as int - '0' as int
}

/// The number that the digits `s` write in base ten; 0 for no digits.
pub open spec fn digits_value(s: Seq<char>) -> int
    decreases s.len(),
{
    if s.len() == 0 {
        0
    } else {
        10 * digits_value(s.drop_last()) + digit_value(s.last())
    }
}

/// The length of the longest prefix of `s` that holds digits only.
pub open spec fn leading_digits(s: Seq<char>) -> int
    decreases s.len(),
{
    if s.len() == 0 || !is_digit(s[0]) {
        0
    } else {
        1 + leading_digits(s.drop_first())
    }
}

/// The integer that `s` writes, for a type with the range `min ..= max` that takes a minus
/// sign only if `signed`.
///
/// A plus sign may lead; so may a minus sign where `signed`. What follows is read digit by
/// digit from the left, and the first thing to go wrong decides the fault: a number that has
/// left the range, or a character that is no digit.
pub open spec fn integer(s: Seq<char>, signed: bool, min: int, max: int) -> Result<int, IntFault> {
    if s.len() == 0 {
        Err(IntFault::Empty)
    } else if s.len() == 1 && (s[0] == '+' || s[0] == '-') {
        Err(IntFault::InvalidDigit)
    } else {
        let negative = signed && s[0] == '-';
        let body = if s[0] == '+' || negative {
            s.drop_first()
        } else {
            s
        };
        let n = leading_digits(body);
        let magnitude = digits_value(body.take(n));
        let value = if negative {
            -magnitude
        } else {
            magnitude
        };
        if value > max {
            Err(IntFault::PosOverflow)
        } else if value < min {
            Err(IntFault::NegOverflow)
        } else if n < body.len() {
            Err(IntFault::InvalidDigit)
        } else {
            Ok(value)
        }
    }
}

/// The signed 64-bit integer that `s` writes.
pub open spec fn signed_64(s: Seq<char>) -> Result<int, IntFault> {
    integer(s, true, i64::MIN as int, i64::MAX as int)
}

/// The unsigned 64-bit integer that `s` writes.
pub open spec fn unsigned_64(s: Seq<char>) -> Result<int, IntFault> {
    integer(s, false, 0, u64::MAX as int)
}

/// The digit that stands for `d`, a number below ten.
pub open spec fn digit_char(d: nat) -> char {
    if d == 0 {
        '0'
    } else if d == 1 {
        '1'
    } else if d == 2 {
        '2'
    } else if d == 3 {
        '3'
    } else if d == 4 {
        '4'
    } else if d == 5 {
        '5'
    } else if d == 6 {
        '6'
    } else if d == 7 {
        '7'
    } else if d == 8 {
        '8'
    } else {
        '9'
    }
}

/// The digits that write `n` in base ten, without a sign and without a leading zero but for
/// zero itself.
pub open spec fn decimal_text(n: nat) -> Seq<char>
    decreases n,
{
    if n < 10 {
        seq![digit_char(n)]
    } else {
        decimal_text(n / 10).push(digit_char(n % 10))
    }
}

/// One more digit at the end multiplies by ten and adds the digit.
pub proof fn lemma_digits_value_push(s: Seq<char>, c: char)
    ensures
        digits_value(s.push(c)) == 10 * digits_value(s) + digit_value(c),
{
    assert(s.push(c).drop_last() =~= s);
}

/// Of digits, a longer prefix writes no smaller a number, and none writes a negative one.
pub proof fn lemma_digits_value_monotone(s: Seq<char>, a: int, b: int)
    requires
        0 <= a <= b <= s.len(),
        forall|i: int| 0 <= i < b ==> is_digit(#[trigger] s[i]),
    ensures
        0 <= digits_value(s.take(a)) <= digits_value(s.take(b)),
    decreases b,
{
    if b == 0 {
        assert(s.take(0).len() == 0);
    } else {
        assert(s.take(b).drop_last() =~= s.take(b - 1));
        assert(s.take(b).last() == s[b - 1]);
        if a == b {
            lemma_digits_value_monotone(s, a - 1, b - 1);
        } else {
            lemma_digits_value_monotone(s, a, b - 1);
        }
    }
}

/// The longest prefix of digits ends where the first character stands that is no digit.
pub proof fn lemma_leading_digits(s: Seq<char>, n: int)
    requires
        0 <= n <= s.len(),
        forall|i: int| 0 <= i < n ==> is_digit(#[trigger] s[i]),
        n < s.len() ==> !is_digit(s[n]),
    ensures
        leading_digits(s) == n,
    decreases n,
{
    if n > 0 {
        let rest = s.drop_first();
        assert forall|i: int| 0 <= i < n - 1 implies is_digit(#[trigger] rest[i]) by {
            assert(rest[i] == s[i + 1]);
        }
        lemma_leading_digits(rest, n - 1);
    }
}

/// Every character of the longest prefix of digits is a digit.
pub proof fn lemma_leading_digits_are_digits(s: Seq<char>)
    ensures
        0 <= leading_digits(s) <= s.len(),
        forall|i: int| 0 <= i < leading_digits(s) ==> is_digit(#[trigger] s[i]),
        leading_digits(s) < s.len() ==> !is_digit(s[leading_digits(s)]),
    decreases s.len(),
{
    if s.len() == 0 || !is_digit(s[0]) {
    } else {
        let rest = s.drop_first();
        lemma_leading_digits_are_digits(rest);
        assert forall|i: int| 0 <= i < leading_digits(s) implies is_digit(#[trigger] s[i]) by {
            if i > 0 {
                assert(rest[i - 1] == s[i]);
            }
        }
        if leading_digits(s) < s.len() {
            assert(rest[leading_digits(rest)] == s[leading_digits(s)]);
        }
    }
}

/// The text of a number holds digits only, and they write the number.
pub proof fn lemma_decimal_text(n: nat)
    ensures
        decimal_text(n).len() > 0,
        forall|i: int| 0 <= i < decimal_text(n).len() ==> is_digit(#[trigger] decimal_text(n)[i]),
        digits_value(decimal_text(n)) == n,
    decreases n,
{
    if n < 10 {
        let text = decimal_text(n);
        assert(text.drop_last().len() == 0);
        assert(digits_value(text) == 10 * digits_value(text.drop_last()) + digit_value(
            text.last(),
        ));
    } else {
        lemma_decimal_text(n / 10);
        lemma_digits_value_push(decimal_text(n / 10), digit_char(n % 10));
    }
}

/// A number that is written and read again is the same number.
pub proof fn lemma_written_number_reads_back(n: nat)
    requires
        n <= u64::MAX,
    ensures
        unsigned_64(decimal_text(n)) == Ok::<int, IntFault>(n as int),
{
    let text = decimal_text(n);
    lemma_decimal_text(n);
    lemma_leading_digits(text, text.len() as int);
    assert(is_digit(text[0]));
    assert(text.take(text.len() as int) =~= text);
}

/// The integer that `s` writes, within `min ..= max`.
#[verifier::loop_isolation(false)]
fn parse_bounded(s: &[char], signed: bool, min: i128, max: i128) -> (r: Result<i128, IntFault>)
    requires
        -0x1_0000_0000_0000_0000 <= min <= 0 <= max <= 0x1_0000_0000_0000_0000,
    ensures
        match r {
            Ok(v) => integer(s@, signed, min as int, max as int) == Ok::<int, IntFault>(v as int),
            Err(f) => integer(s@, signed, min as int, max as int) == Err::<int, IntFault>(f),
        },
{
    if s.len() == 0 {
        return Err(IntFault::Empty);
    }
    if s.len() == 1 && (s[0] == '+' || s[0] == '-') {
        return Err(IntFault::InvalidDigit);
    }
    let negative = signed && s[0] == '-';
    let start: usize = if s[0] == '+' || negative {
        1
    } else {
        0
    };
    let ghost body = if s@[0] == '+' || negative {
        s@.drop_first()
    } else {
        s@
    };
    let mut acc: i128 = 0;
    let mut i: usize = start;
    assert(body.take(0).len() == 0);
    while i < s.len()
        invariant
            start <= i <= s.len(),
            forall|k: int| 0 <= k < body.len() ==> body[k] == s@[k + start],
            forall|k: int| 0 <= k < i - start ==> is_digit(#[trigger] body[k]),
            acc == if negative {
                -digits_value(body.take(i - start))
            } else {
                digits_value(body.take(i - start))
            },
            min <= acc <= max,
        decreases s.len() - i,
    {
        let c = s[i];
        if !(c >= '0' && c <= '9') {
            proof {
                lemma_leading_digits(body, i - start);
            }
            return Err(IntFault::InvalidDigit);
        }
        let d: i128 = (c as u32 - '0' as u32) as i128;
        let next: i128 = if negative {
            acc * 10 - d
        } else {
            acc * 10 + d
        };
        proof {
            let n = leading_digits(body);
            lemma_leading_digits_are_digits(body);
            assert(body[i - start] == c);
            if n < i - start + 1 {
                assert(is_digit(body[n]));
            }
            assert(body.take(i - start + 1) =~= body.take(i - start).push(c));
            lemma_digits_value_push(body.take(i - start), c);
            lemma_digits_value_monotone(body, i - start + 1, n);
        }
        if next > max {
            return Err(IntFault::PosOverflow);
        }
        if next < min {
            return Err(IntFault::NegOverflow);
        }
        acc = next;
        i += 1;
    }
    proof {
        lemma_leading_digits(body, body.len() as int);
        assert(body.take(body.len() as int) =~= body);
    }
    Ok(acc)
}

/// The signed 64-bit integer that `s` writes.
pub fn parse_i64(s: &[char]) -> (r: Result<i64, IntFault>)
    ensures
        match r {
            Ok(v) => signed_64(s@) == Ok::<int, IntFault>(v as int),
            Err(f) => signed_64(s@) == Err::<int, IntFault>(f),
        },
{
    match parse_bounded(s, true, i64::MIN as i128, i64::MAX as i128) {
        Ok(v) => Ok(v as i64),
        Err(f) => Err(f),
    }
}

/// The unsigned 64-bit integer that `s` writes.
pub fn parse_u64(s: &[char]) -> (r: Result<u64, IntFault>)
    ensures
        match r {
            Ok(v) => unsigned_64(s@) == Ok::<int, IntFault>(v as int),
            Err(f) => unsigned_64(s@) == Err::<int, IntFault>(f),
        },
{
    match parse_bounded(s, false, 0, u64::MAX as i128) {
        Ok(v) => Ok(v as u64),
        Err(f) => Err(f),
    }
}

/// The digit that stands for `d`.
fn digit_text(d: u64) -> (s: &'static str)
    requires
        d < 10,
    ensures
        s@ == seq![digit_char(d as nat)],
{
    proof {
        reveal_strlit("0");
        reveal_strlit("1");
        reveal_strlit("2");
        reveal_strlit("3");
        reveal_strlit("4");
        reveal_strlit("5");
        reveal_strlit("6");
        reveal_strlit("7");
        reveal_strlit("8");
        reveal_strlit("9");
    }
    let s = if d == 0 {
        "0"
    } else if d == 1 {
        "1"
    } else if d == 2 {
        "2"
    } else if d == 3 {
        "3"
    } else if d == 4 {
        "4"
    } else if d == 5 {
        "5"
    } else if d == 6 {
        "6"
    } else if d == 7 {
        "7"
    } else if d == 8 {
        "8"
    } else {
        "9"
    };
    assert(s@ =~= seq![digit_char(d as nat)]);
    s
}

/// The digits that write `n` in base ten.
pub fn u64_to_string(n: u64) -> (s: String)
    ensures
        s@ == decimal_text(n as nat),
    decreases n,
{
    if n < 10 {
        digit_text(n).to_owned()
    } else {
        let s = u64_to_string(n / 10).concat(digit_text(n % 10));
        assert(s@ =~= decimal_text(n as nat));
        s
    }
}

} // verus!
