//! Unsigned decimal numbers as `str::parse` reads them: an optional leading
//! `+`, then decimal digits, with the first problem met from left to right
//! reported.
use vstd::prelude::*;

verus! {

/// Why a text is not an unsigned decimal number in range.
#[derive(Clone, Copy, Debug, PartialEq, Eq, Structural)]
pub enum DecimalError {
    /// The text is empty.
    Empty,
    /// A character is not a decimal digit (a lone sign counts as one).
    InvalidDigit,
    /// The value exceeds the largest value of the target type.
    PosOverflow,
}

/// True for the ASCII decimal digits.
pub open spec fn is_digit(c: char) -> bool {
    '0' <= c <= '9'
}

/// Value of an ASCII decimal digit.
pub open spec fn digit_value(c: char) -> nat {
    (c as u32 - '0' as u32) as nat
}

/// Reads `digits` after an already read value `acc`, left to right: a
/// non-digit stops with `InvalidDigit`, a value above `max` with
/// `PosOverflow`.
pub open spec fn scan_digits(digits: Seq<char>, acc: nat, max: nat) -> Result<nat, DecimalError>
    decreases digits.len(),
{
    if digits.len() == 0 {
        Ok(acc)
    } else if !is_digit(digits[0]) {
        Err(DecimalError::InvalidDigit)
    } else if acc * 10 + digit_value(digits[0]) > max {
        Err(DecimalError::PosOverflow)
    } else {
        scan_digits(digits.drop_first(), acc * 10 + digit_value(digits[0]), max)
    }
}

/// The value of `text` as an unsigned decimal number of at most `max`.
pub open spec fn parse_decimal(text: Seq<char>, max: nat) -> Result<nat, DecimalError> {
    if text.len() == 0 {
        Err(DecimalError::Empty)
    } else if text.len() == 1 && (text[0] == '+' || text[0] == '-') {
        Err(DecimalError::InvalidDigit)
    } else if text[0] == '+' {
        scan_digits(text.drop_first(), 0, max)
    } else {
        scan_digits(text, 0, max)
    }
}

/// The text of a parse error, as `ParseIntError` displays it.
pub open spec fn decimal_error_text(e: DecimalError) -> Seq<char> {
    match e {
        DecimalError::Empty => "cannot parse integer from empty string"@,
        DecimalError::InvalidDigit => "invalid digit found in string"@,
        DecimalError::PosOverflow => "number too large to fit in target type"@,
    }
}

proof fn lemma_scan_skip(digits: Seq<char>, i: int, acc: nat, max: nat)
    requires
        0 <= i < digits.len(),
    ensures
        digits.skip(i).drop_first() =~= digits.skip(i + 1),
        digits.skip(i)[0] == digits[i],
        digits.skip(i).len() > 0,
{
}

/// Reads `text` as an unsigned decimal number of at most `max`.
pub fn parse_decimal_chars(text: &[char], max: u64) -> (r: Result<u64, DecimalError>)
    ensures
        match parse_decimal(text@, max as nat) {
            Ok(v) => r == Ok::<u64, DecimalError>(v as u64),
            Err(e) => r == Err::<u64, DecimalError>(e),
        },
        match r {
            Ok(v) => v <= max,
            Err(_) => true,
        },
{
    let len = text.len();
    if len == 0 {
        return Err(DecimalError::Empty);
    }
    if len == 1 && (text[0] == '+' || text[0] == '-') {
        return Err(DecimalError::InvalidDigit);
    }
    let start: usize = if text[0] == '+' {
        1
    } else {
        0
    };
    let ghost digits = if text[0] == '+' {
        text@.drop_first()
    } else {
        text@
    };
    assert(digits =~= text@.skip(start as int));
    assert(parse_decimal(text@, max as nat) == scan_digits(text@.skip(start as int), 0, max as nat));
    let mut acc: u64 = 0;
    let mut i: usize = start;
    while i < len
        invariant
            start <= i <= len,
            len == text@.len(),
            acc <= max,
            parse_decimal(text@, max as nat) == scan_digits(text@.skip(start as int), 0, max as nat),
            scan_digits(text@.skip(start as int), 0, max as nat) == scan_digits(
                text@.skip(i as int),
                acc as nat,
                max as nat,
            ),
        decreases len - i,
    {
        let c = text[i];
        proof {
            lemma_scan_skip(text@, i as int, acc as nat, max as nat);
        }
        if !('0' <= c && c <= '9') {
            assert(scan_digits(text@.skip(i as int), acc as nat, max as nat) == Err::<nat, DecimalError>(DecimalError::InvalidDigit));
            return Err(DecimalError::InvalidDigit);
        }
        let d: u64 = (c as u32 - '0' as u32) as u64;
        assert(d == digit_value(c));
        if d > max || acc > (max - d) / 10 {
            proof {
                if d <= max {
                    assert(acc * 10 + d > max) by (nonlinear_arith)
                        requires
                            acc > (max - d) / 10,
                            d <= max,
                    ;
                }
            }
            assert(scan_digits(text@.skip(i as int), acc as nat, max as nat) == Err::<nat, DecimalError>(DecimalError::PosOverflow));
            return Err(DecimalError::PosOverflow);
        }
        assert(acc * 10 + d <= max) by (nonlinear_arith)
            requires
                acc <= (max - d) / 10,
                d <= max,
        ;
        acc = acc * 10 + d;
        i = i + 1;
    }
    assert(text@.skip(len as int) =~= Seq::<char>::empty());
    Ok(acc)
}

/// The text of a parse error.
pub fn decimal_error_message(e: DecimalError) -> (r: String)
    ensures
        r@ == decimal_error_text(e),
{
    match e {
        DecimalError::Empty => String::from_str("cannot parse integer from empty string"),
        DecimalError::InvalidDigit => String::from_str("invalid digit found in string"),
        DecimalError::PosOverflow => String::from_str("number too large to fit in target type"),
    }
}

proof fn lemma_scan_digits_bound(digits: Seq<char>, acc: nat, max: nat)
    requires
        acc <= max,
    ensures
        scan_digits(digits, acc, max) matches Ok(v) ==> v <= max,
    decreases digits.len(),
{
    if digits.len() > 0 && is_digit(digits[0]) && acc * 10 + digit_value(digits[0]) <= max {
        lemma_scan_digits_bound(digits.drop_first(), acc * 10 + digit_value(digits[0]), max);
    }
}

/// A value read with limit `max` is at most `max`.
pub proof fn lemma_parse_decimal_bound(text: Seq<char>, max: nat)
    ensures
        parse_decimal(text, max) matches Ok(v) ==> v <= max,
{
    if text.len() > 0 {
        lemma_scan_digits_bound(text.drop_first(), 0, max);
        lemma_scan_digits_bound(text, 0, max);
    }
}

/// The value a string of decimal digits denotes, its last digit the units.
pub open spec fn digits_value(digits: Seq<char>) -> nat
    decreases digits.len(),
{
    if digits.len() == 0 {
        0
    } else {
        digits_value(digits.drop_last()) * 10 + digit_value(digits.last())
    }
}

proof fn lemma_scan_push(digits: Seq<char>, c: char, acc: nat, max: nat)
    requires
        forall|i: int| 0 <= i < digits.len() ==> is_digit(#[trigger] digits[i]),
        is_digit(c),
    ensures
        scan_digits(digits.push(c), acc, max) == (match scan_digits(digits, acc, max) {
            Ok(v) => if v * 10 + digit_value(c) > max {
                Err(DecimalError::PosOverflow)
            } else {
                Ok(v * 10 + digit_value(c))
            },
            Err(e) => Err(e),
        }),
    decreases digits.len(),
{
    if digits.len() > 0 {
        let t = digits.drop_first();
        assert(digits.push(c).drop_first() =~= t.push(c));
        assert(digits.push(c)[0] == digits[0]);
        assert(is_digit(digits[0]));
        if acc * 10 + digit_value(digits[0]) <= max {
            assert forall|i: int| 0 <= i < t.len() implies is_digit(#[trigger] t[i]) by {
                assert(t[i] == digits[i + 1]);
            }
            lemma_scan_push(t, c, acc * 10 + digit_value(digits[0]), max);
        }
    } else {
        let one = digits.push(c);
        assert(one.drop_first() =~= Seq::<char>::empty());
        assert(one[0] == c);
        assert(one.len() == 1);
        assert(scan_digits(one.drop_first(), acc * 10 + digit_value(c), max) == Ok::<nat, DecimalError>(
            acc * 10 + digit_value(c),
        ));
        assert(scan_digits(digits, acc, max) == Ok::<nat, DecimalError>(acc));
    }
}

proof fn lemma_scan_all_digits(digits: Seq<char>, max: nat)
    requires
        forall|i: int| 0 <= i < digits.len() ==> is_digit(#[trigger] digits[i]),
    ensures
        scan_digits(digits, 0, max) == (if digits_value(digits) <= max {
            Ok::<nat, DecimalError>(digits_value(digits))
        } else {
            Err(DecimalError::PosOverflow)
        }),
    decreases digits.len(),
{
    if digits.len() > 0 {
        let init = digits.drop_last();
        let c = digits.last();
        assert(init.push(c) =~= digits);
        assert forall|i: int| 0 <= i < init.len() implies is_digit(#[trigger] init[i]) by {
            assert(init[i] == digits[i]);
        }
        assert(is_digit(digits[digits.len() - 1]));
        lemma_scan_all_digits(init, max);
        lemma_scan_push(init, c, 0, max);
        let v = digits_value(init);
        assert(v * 10 + digit_value(c) >= v) by (nonlinear_arith);
    }
}

/// A non-empty string of decimal digits, with or without a leading `+`,
/// reads as the number it denotes when that number is at most `max`, and
/// as an overflow otherwise.
pub proof fn law_decimal_digits(digits: Seq<char>, max: nat)
    requires
        digits.len() > 0,
        forall|i: int| 0 <= i < digits.len() ==> is_digit(#[trigger] digits[i]),
    ensures
        parse_decimal(digits, max) == (if digits_value(digits) <= max {
            Ok::<nat, DecimalError>(digits_value(digits))
        } else {
            Err(DecimalError::PosOverflow)
        }),
        parse_decimal(seq!['+'] + digits, max) == parse_decimal(digits, max),
{
    assert(is_digit(digits[0]));
    lemma_scan_all_digits(digits, max);
    assert((seq!['+'] + digits).drop_first() =~= digits);
}

} // verus!
