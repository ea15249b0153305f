//! Whole numbers in decimal, as ASCII text: how they are written, how they
//! are read, and that reading gives back what was written.

use vstd::prelude::*;

verus! {

/// The ASCII code of the digit zero.
pub const ZERO: u8 = 48;

/// The ASCII code of the minus sign.
pub const MINUS: u8 = 45;

/// The ASCII code of the plus sign.
pub const PLUS: u8 = 43;

/// The decimal digits of `n`, most significant first, as ASCII codes.
pub open spec fn digits_of(n: nat) -> Seq<u8>
    decreases n,
{
    if n < 10 {
        seq![(ZERO + n) as u8]
    } else {
        digits_of(n / 10).push((ZERO + n % 10) as u8)
    }
}

/// The decimal form of `n`, with a minus sign in front if it is negative.
pub open spec fn decimal_of(n: int) -> Seq<u8> {
    if n < 0 {
        seq![MINUS] + digits_of((-n) as nat)
    } else {
        digits_of(n as nat)
    }
}

/// The text is a non-empty run of ASCII digits.
pub open spec fn is_digits(text: Seq<u8>) -> bool {
    &&& text.len() > 0
    &&& forall|i: int| 0 <= i < text.len() ==> ZERO <= #[trigger] text[i] <= ZERO + 9
}

/// The number that a run of ASCII digits denotes.
pub open spec fn value_of(text: Seq<u8>) -> nat
    decreases text.len(),
{
    if text.len() == 0 {
        0
    } else {
        (value_of(text.drop_last()) * 10 + (text.last() - ZERO)) as nat
    }
}

/// The 32-bit number that a text denotes: digits with an optional sign in
/// front, within the range of `i32`. Anything else denotes nothing.
pub open spec fn parse_decimal(text: Seq<u8>) -> Option<i32> {
    if text.len() > 0 && text[0] == MINUS {
        let digits = text.skip(1);
        if is_digits(digits) && value_of(digits) <= 0x8000_0000 {
            Some((-value_of(digits)) as i32)
        } else {
            None
        }
    } else if text.len() > 0 && text[0] == PLUS {
        let digits = text.skip(1);
        if is_digits(digits) && value_of(digits) <= 0x7fff_ffff {
            Some(value_of(digits) as i32)
        } else {
            None
        }
    } else if is_digits(text) && value_of(text) <= 0x7fff_ffff {
        Some(value_of(text) as i32)
    } else {
        None
    }
}

/// The digits of a number are digits, and denote the number.
pub proof fn lemma_digits_denote(n: nat)
    ensures
        is_digits(digits_of(n)),
        value_of(digits_of(n)) == n,
    decreases n,
{
    if n >= 10 {
        lemma_digits_denote(n / 10);
        let text = digits_of(n);
        assert(text.drop_last() =~= digits_of(n / 10));
        assert(text.last() == ZERO + n % 10);
        assert(value_of(text) == value_of(text.drop_last()) * 10 + (text.last() - ZERO));
        assert forall|i: int| 0 <= i < text.len() implies ZERO <= #[trigger] text[i] <= ZERO + 9 by {
            if i < text.len() - 1 {
                assert(text[i] == digits_of(n / 10)[i]);
            }
        }
    } else {
        let text = digits_of(n);
        assert(text.drop_last() =~= Seq::<u8>::empty());
        assert(value_of(text.drop_last()) == 0);
        assert(text.last() == ZERO + n);
    }
}

/// Reading back what was written gives the number that was written.
pub proof fn lemma_decimal_round_trip(n: i32)
    ensures
        parse_decimal(decimal_of(n as int)) == Some(n),
{
    if n < 0 {
        let m = (-n) as nat;
        lemma_digits_denote(m);
        let text = decimal_of(n as int);
        assert(text.skip(1) =~= digits_of(m));
    } else {
        lemma_digits_denote(n as nat);
        let text = decimal_of(n as int);
        assert(ZERO <= text[0] <= ZERO + 9);
    }
}

/// A number in decimal.
pub fn decimal(n: i32) -> (text: Vec<u8>)
    ensures
        text@ == decimal_of(n as int),
{
    let mut text: Vec<u8> = Vec::new();
    let mut rest: u32 = if n < 0 {
        text.push(MINUS);
        (-(n as i64)) as u32
    } else {
        n as u32
    };
    let ghost magnitude = rest as nat;
    // the digits below the current `rest`, least significant first
    let mut low: Vec<u8> = Vec::new();
    while rest >= 10
        invariant
            digits_of(magnitude) == digits_of(rest as nat) + low@.reverse(),
        decreases rest,
    {
        let digit = ZERO + (rest % 10) as u8;
        proof {
            let tail = low@.reverse();
            let longer = low@.push(digit).reverse();
            assert(longer =~= seq![digit] + tail);
            assert(digits_of(rest as nat) == digits_of(rest as nat / 10).push(digit));
            assert(digits_of(rest as nat / 10).push(digit) + tail =~= digits_of(rest as nat / 10)
                + longer);
        }
        low.push(digit);
        rest = rest / 10;
    }
    let ghost sign = text@;
    text.push(ZERO + rest as u8);
    let mut i: usize = low.len();
    while i > 0
        invariant
            i <= low@.len(),
            text@ == sign + digits_of(rest as nat) + low@.reverse().take(low@.len() - i),
        decreases i,
    {
        i -= 1;
        proof {
            let tail = low@.reverse();
            let k = low@.len() - i - 1;
            assert(tail[k] == low@[i as int]);
            assert(tail.take(k + 1) =~= tail.take(k).push(tail[k]));
            assert((sign + digits_of(rest as nat) + tail.take(k)).push(tail[k]) =~= sign + digits_of(
                rest as nat,
            ) + tail.take(k + 1));
        }
        text.push(low[i]);
    }
    proof {
        let tail = low@.reverse();
        assert(tail.take(low@.len() as int) =~= tail);
        assert(sign + digits_of(rest as nat) + tail =~= sign + (digits_of(rest as nat) + tail));
        if n >= 0 {
            assert(sign + digits_of(magnitude) =~= digits_of(magnitude));
        }
    }
    text
}

/// The number that `text` denotes, if it denotes one.
pub fn parse(text: &[u8]) -> (number: Option<i32>)
    ensures
        number == parse_decimal(text@),
{
    let negative = text.len() > 0 && text[0] == MINUS;
    let signed = negative || (text.len() > 0 && text[0] == PLUS);
    let start: usize = if signed {
        1
    } else {
        0
    };
    let limit: u64 = if negative {
        0x8000_0000
    } else {
        0x7fff_ffff
    };
    let ghost digits = text@.skip(start as int);
    let ghost sign: int = if negative {
        -1
    } else {
        1
    };
    assert(text@.skip(0) =~= text@);
    assert(parse_decimal(text@) == (if is_digits(digits) && value_of(digits) <= limit {
        Some((sign * value_of(digits)) as i32)
    } else {
        None
    }));
    if start >= text.len() {
        return None;
    }
    let mut value: u64 = 0;
    let mut i: usize = start;
    while i < text.len()
        invariant
            start <= i <= text@.len(),
            digits == text@.skip(start as int),
            limit <= 0x8000_0000,
            parse_decimal(text@) == (if is_digits(digits) && value_of(digits) <= limit {
                Some((sign * value_of(digits)) as i32)
            } else {
                None
            }),
            value as nat == value_of(digits.take(i - start)),
            value <= limit,
            forall|k: int| 0 <= k < i - start ==> ZERO <= #[trigger] digits[k] <= ZERO + 9,
        decreases text@.len() - i,
    {
        let byte = text[i];
        assert(digits[i - start] == byte);
        if byte < ZERO || byte > ZERO + 9 {
            assert(!is_digits(digits));
            return None;
        }
        let ghost longer = digits.take(i - start + 1);
        assert(longer.drop_last() =~= digits.take(i - start));
        assert(longer.last() == byte);
        value = value * 10 + (byte - ZERO) as u64;
        if value > limit {
            proof {
                if is_digits(digits) {
                    lemma_value_grows(digits, i - start + 1);
                }
            }
            return None;
        }
        i += 1;
    }
    assert(digits.take(digits.len() as int) =~= digits);
    assert(is_digits(digits));
    if negative {
        Some((-(value as i64)) as i32)
    } else {
        Some(value as i32)
    }
}

/// A run of digits denotes at least what any of its prefixes denotes.
pub proof fn lemma_value_grows(text: Seq<u8>, n: int)
    requires
        0 <= n <= text.len(),
        forall|i: int| 0 <= i < text.len() ==> ZERO <= #[trigger] text[i],
    ensures
        value_of(text.take(n)) <= value_of(text),
    decreases text.len() - n,
{
    if n < text.len() {
        lemma_value_grows(text, n + 1);
        let longer = text.take(n + 1);
        assert(longer.drop_last() =~= text.take(n));
        assert(longer.last() == text[n]);
    } else {
        assert(text.take(n) =~= text);
    }
}

} // verus!
