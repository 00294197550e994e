//! Reading unsigned decimal numbers from text, the way `str::parse` does for
//! unsigned integer types.
use vstd::prelude::*;

verus! {

/// Why a string is not an unsigned number.
#[derive(Clone, Copy, Debug, PartialEq, Eq, Structural)]
pub enum IntErrorKind {
    /// The string is empty.
    Empty,
    /// The string holds something other than an optional `+` and digits.
    InvalidDigit,
    /// The number is larger than the target type holds.
    PosOverflow,
}

impl IntErrorKind {
    /// The text that `ParseIntError` displays for this kind.
    pub fn message(self) -> (r: &'static str)
        ensures
            r@ == int_error_message(self),
    {
        match self {
            IntErrorKind::Empty => "cannot parse integer from empty string",
            IntErrorKind::InvalidDigit => "invalid digit found in string",
            IntErrorKind::PosOverflow => "number too large to fit in target type",
        }
    }
}

/// The text of each parse error.
pub open spec fn int_error_message(e: IntErrorKind) -> Seq<char> {
    match e {
        IntErrorKind::Empty => "cannot parse integer from empty string"@,
        IntErrorKind::InvalidDigit => "invalid digit found in string"@,
        IntErrorKind::PosOverflow => "number too large to fit in target type"@,
    }
}

pub open spec fn is_digit(c: char) -> bool {
    '0' <= c && c <= '9'
}

pub open spec fn digit_value(c: char) -> nat {
    (c as int - '0' as int) as nat
}

/// Reads the digits `d` from left to right onto `acc`: the first character
/// that is not a digit is an error, and so is the first digit that takes the
/// value past `max`.
pub open spec fn scan_digits(d: Seq<char>, acc: nat, max: nat) -> Result<nat, IntErrorKind>
    decreases d.len(),
{
    if d.len() == 0 {
        Ok(acc)
    } else if !is_digit(d[0]) {
        Err(IntErrorKind::InvalidDigit)
    } else if acc * 10 + digit_value(d[0]) > max {
        Err(IntErrorKind::PosOverflow)
    } else {
        scan_digits(d.drop_first(), acc * 10 + digit_value(d[0]), max)
    }
}

/// What `str::parse` gives for an unsigned type whose largest value is `max`:
/// an optional leading `+`, then decimal digits.
pub open spec fn parse_unsigned(s: Seq<char>, max: nat) -> Result<nat, IntErrorKind> {
    if s.len() == 0 {
        Err(IntErrorKind::Empty)
    } else if s.len() == 1 && (s[0] == '+' || s[0] == '-') {
        Err(IntErrorKind::InvalidDigit)
    } else if s[0] == '+' {
        scan_digits(s.drop_first(), 0, max)
    } else {
        scan_digits(s, 0, max)
    }
}

/// Every character of `s` is a decimal digit.
pub open spec fn all_digits(s: Seq<char>) -> bool {
    forall|i: int| 0 <= i < s.len() ==> #[trigger] is_digit(s[i])
}

/// The number that the decimal digits `s` write.
pub open spec fn decimal_value(s: Seq<char>) -> nat
    decreases s.len(),
{
    if s.len() == 0 {
        0
    } else {
        decimal_value(s.drop_last()) * 10 + digit_value(s.last())
    }
}

/// Reading one more digit after `a` continues from what reading `a` gave.
proof fn lemma_scan_push(a: Seq<char>, c: char, acc: nat, max: nat)
    requires
        all_digits(a),
        is_digit(c),
    ensures
        scan_digits(a.push(c), acc, max) == match scan_digits(a, acc, max) {
            Ok(v) => if v * 10 + digit_value(c) > max {
                Err(IntErrorKind::PosOverflow)
            } else {
                Ok(v * 10 + digit_value(c))
            },
            Err(e) => Err(e),
        },
    decreases a.len(),
{
    if a.len() == 0 {
        assert(a.push(c)[0] == c);
        assert(a.push(c).drop_first().len() == 0);
        assert(scan_digits(a.push(c).drop_first(), acc * 10 + digit_value(c), max) == Ok::<
            nat,
            IntErrorKind,
        >(acc * 10 + digit_value(c)));
    } else {
        assert(a.push(c)[0] == a[0]);
        assert(a.push(c).drop_first() == a.drop_first().push(c));
        assert(is_digit(a[0]));
        if acc * 10 + digit_value(a[0]) <= max {
            assert forall|i: int| 0 <= i < a.drop_first().len() implies #[trigger] is_digit(
                a.drop_first()[i],
            ) by {
                assert(a.drop_first()[i] == a[i + 1]);
            }
            lemma_scan_push(a.drop_first(), c, acc * 10 + digit_value(a[0]), max);
        }
    }
}

/// Decimal digits read as their number when it is at most `max`, and as an
/// overflow when it is larger.
proof fn lemma_scan_decimal(d: Seq<char>, max: nat)
    requires
        all_digits(d),
    ensures
        scan_digits(d, 0, max) == if decimal_value(d) <= max {
            Ok::<nat, IntErrorKind>(decimal_value(d))
        } else {
            Err(IntErrorKind::PosOverflow)
        },
    decreases d.len(),
{
    if d.len() > 0 {
        let a = d.drop_last();
        let c = d.last();
        assert(d == a.push(c));
        assert forall|i: int| 0 <= i < a.len() implies #[trigger] is_digit(a[i]) by {
            assert(a[i] == d[i]);
        }
        assert(is_digit(d[d.len() - 1]));
        lemma_scan_decimal(a, max);
        lemma_scan_push(a, c, 0, max);
    }
}

/// Parsing text that is nothing but decimal digits gives the number they
/// write when it fits under `max`, and the "too large" error otherwise.
pub proof fn parse_reads_decimal_digits(s: Seq<char>, max: nat)
    requires
        s.len() > 0,
        all_digits(s),
    ensures
        decimal_value(s) <= max ==> parse_unsigned(s, max) == Ok::<nat, IntErrorKind>(
            decimal_value(s),
        ),
        decimal_value(s) > max ==> parse_unsigned(s, max) == Err::<nat, IntErrorKind>(
            IntErrorKind::PosOverflow,
        ),
{
    assert(is_digit(s[0]));
    lemma_scan_decimal(s, max);
}

proof fn lemma_scan_bounded(d: Seq<char>, acc: nat, max: nat)
    requires
        acc <= max,
    ensures
        scan_digits(d, acc, max) matches Ok(v) ==> v <= max,
    decreases d.len(),
{
    if d.len() > 0 && is_digit(d[0]) && acc * 10 + digit_value(d[0]) <= max {
        lemma_scan_bounded(d.drop_first(), acc * 10 + digit_value(d[0]), max);
    }
}

/// Parses `s` as an unsigned decimal number no larger than `max`.
pub fn parse_unsigned_text(s: &str, max: u64) -> (r: Result<u64, IntErrorKind>)
    ensures
        match parse_unsigned(s@, max as nat) {
            Ok(v) => r == Ok::<u64, IntErrorKind>(v as u64),
            Err(e) => r == Err::<u64, IntErrorKind>(e),
        },
        r matches Ok(v) ==> v <= max,
        parse_unsigned(s@, max as nat) matches Ok(v) ==> v <= max,
{
    proof {
        lemma_scan_bounded(s@, 0, max as nat);
        if s@.len() > 0 {
            lemma_scan_bounded(s@.drop_first(), 0, max as nat);
        }
    }
    let n = s.unicode_len();
    if n == 0 {
        return Err(IntErrorKind::Empty);
    }
    let c0 = s.get_char(0);
    if n == 1 && (c0 == '+' || c0 == '-') {
        return Err(IntErrorKind::InvalidDigit);
    }
    let start: usize = if c0 == '+' {
        1
    } else {
        0
    };
    let ghost d = s@.skip(start as int);
    proof {
        assert(start == 1 ==> d == s@.drop_first());
        assert(start == 0 ==> d == s@);
        assert(parse_unsigned(s@, max as nat) == scan_digits(d, 0, max as nat));
    }
    let mut acc: u64 = 0;
    let mut i: usize = start;
    while i < n
        invariant
            n == s@.len(),
            start <= i <= n,
            acc <= max,
            d == s@.skip(start as int),
            parse_unsigned(s@, max as nat) == scan_digits(d, 0, max as nat),
            parse_unsigned(s@, max as nat) matches Ok(v) ==> v <= max,
            scan_digits(d, 0, max as nat) == scan_digits(s@.skip(i as int), acc as nat, max as nat),
        decreases n - i,
    {
        let c = s.get_char(i);
        proof {
            assert(s@.skip(i as int)[0] == c);
            assert(s@.skip(i as int).drop_first() == s@.skip(i + 1));
        }
        if !('0' <= c && c <= '9') {
            return Err(IntErrorKind::InvalidDigit);
        }
        let digit = (c as u32 - '0' as u32) as u64;
        assert(digit == digit_value(c));
        let next: u128 = (acc as u128) * 10 + (digit as u128);
        assert(next == acc * 10 + digit_value(c));
        if next > max as u128 {
            return Err(IntErrorKind::PosOverflow);
        }
        acc = next as u64;
        i = i + 1;
    }
    proof {
        assert(s@.skip(n as int).len() == 0);
    }
    Ok(acc)
}

/// `str::parse::<u16>`.
pub fn parse_u16(s: &str) -> (r: Result<u16, IntErrorKind>)
    ensures
        match parse_unsigned(s@, u16::MAX as nat) {
            Ok(v) => r == Ok::<u16, IntErrorKind>(v as u16),
            Err(e) => r == Err::<u16, IntErrorKind>(e),
        },
{
    match parse_unsigned_text(s, u16::MAX as u64) {
        Ok(v) => Ok(v as u16),
        Err(e) => Err(e),
    }
}

/// `str::parse::<u32>`.
pub fn parse_u32(s: &str) -> (r: Result<u32, IntErrorKind>)
    ensures
        match parse_unsigned(s@, u32::MAX as nat) {
            Ok(v) => r == Ok::<u32, IntErrorKind>(v as u32),
            Err(e) => r == Err::<u32, IntErrorKind>(e),
        },
{
    match parse_unsigned_text(s, u32::MAX as u64) {
        Ok(v) => Ok(v as u32),
        Err(e) => Err(e),
    }
}

} // verus!
