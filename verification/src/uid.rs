//! Random numerical identifiers.
//!
//! An identifier of `length` decimal digits is built from `length` digits
//! drawn independently and uniformly; the digit drawn first is the least
//! significant one. Zero is no identifier: where every digit comes out as
//! zero, the first is drawn again from one to nine.

use rand::Rng;
use vstd::prelude::*;

verus! {

/// The thread-local generator of the `rand` crate. Nothing is known of its
/// state.
#[verifier::external_type_specification]
#[verifier::external_body]
pub struct ExThreadRng(rand::rngs::ThreadRng);

/// `rand::thread_rng` hands out a handle to the generator of the calling
/// thread. Nothing is claimed of the handle. The call panics where the
/// operating system has no entropy to seed the generator with, which no
/// precondition can rule out.
pub assume_specification[ rand::thread_rng ]() -> (rng: rand::rngs::ThreadRng);

/// `Rng::gen_range` on the half-open range `low..10`: the sample lies in the
/// range, whatever the generator's state. The range must not be empty, or
/// the call panics.
#[verifier::external_body]
fn random_digit(rng: &mut rand::rngs::ThreadRng, low: u32) -> (digit: u32)
    requires
        low < 10,
    ensures
        low <= digit < 10,
{
    rng.gen_range(low..10)
}

/// Ten to the power `n`.
pub open spec fn pow10(n: nat) -> nat
    decreases n,
{
    if n == 0 {
        1
    } else {
        10 * pow10((n - 1) as nat)
    }
}

/// The number whose decimal digits are `digits`, least significant first.
pub open spec fn digits_value(digits: Seq<u32>) -> nat
    decreases digits.len(),
{
    if digits.len() == 0 {
        0
    } else {
        digits.last() as nat * pow10((digits.len() - 1) as nat) + digits_value(digits.drop_last())
    }
}

/// Every entry of `digits` is a decimal digit.
pub open spec fn all_decimal(digits: Seq<u32>) -> bool {
    forall|i: int| 0 <= i < digits.len() ==> #[trigger] digits[i] < 10
}

/// Decimal digits always denote a number below the next power of ten.
pub proof fn lemma_digits_value_bound(digits: Seq<u32>)
    requires
        all_decimal(digits),
    ensures
        digits_value(digits) < pow10(digits.len()),
    decreases digits.len(),
{
    if digits.len() > 0 {
        let rest = digits.drop_last();
        assert(all_decimal(rest)) by {
            assert forall|i: int| 0 <= i < rest.len() implies #[trigger] rest[i] < 10 by {
                assert(rest[i] == digits[i]);
            }
        }
        lemma_digits_value_bound(rest);
        let p = pow10(rest.len());
        assert(digits.last() < 10);
        assert(digits.last() as nat * p <= 9 * p) by (nonlinear_arith)
            requires
                digits.last() < 10,
        ;
        assert(pow10(digits.len()) == 10 * p);
    }
}

/// A number is at least its least significant digit.
pub proof fn lemma_digits_value_at_least_first(digits: Seq<u32>)
    requires
        digits.len() > 0,
    ensures
        digits_value(digits) >= digits[0],
    decreases digits.len(),
{
    let high = digits.last() as nat;
    let weight = pow10((digits.len() - 1) as nat);
    assert(high * weight >= 0) by (nonlinear_arith);
    assert(digits_value(digits) == high * weight + digits_value(digits.drop_last()));
    if digits.len() > 1 {
        lemma_digits_value_at_least_first(digits.drop_last());
        assert(digits.drop_last()[0] == digits[0]);
    } else {
        assert(digits.last() == digits[0]);
        assert(weight == 1);
        assert(high * weight == high) by (nonlinear_arith)
            requires
                weight == 1,
        ;
        assert(digits_value(digits.drop_last()) == 0);
    }
}

/// Powers of ten grow with the exponent.
pub proof fn lemma_pow10_monotonic(a: nat, b: nat)
    requires
        a <= b,
    ensures
        pow10(a) <= pow10(b),
        pow10(a) >= 1,
    decreases b,
{
    if a < b {
        lemma_pow10_monotonic(a, (b - 1) as nat);
    } else if a > 0 {
        lemma_pow10_monotonic((a - 1) as nat, (b - 1) as nat);
    }
}

/// Nine digits fit a `u32`: ten to the ninth is one thousand million.
pub proof fn lemma_pow10_nine()
    ensures
        pow10(9) == 1_000_000_000,
{
    reveal_with_fuel(pow10, 10);
}

/// Namespace of the identifier constructors.
pub struct Uid {}

impl Uid {
    /// The identifier that a given run of digits denotes, the first digit
    /// being the least significant.
    pub fn from_digits(digits: &Vec<u32>) -> (id: u32)
        requires
            digits@.len() <= 9,
            all_decimal(digits@),
        ensures
            id as nat == digits_value(digits@),
    {
        let mut id: u32 = 0;
        let mut base: u32 = 1;
        let mut i: usize = 0;
        while i < digits.len()
            invariant
                i <= digits@.len() <= 9,
                all_decimal(digits@),
                i < digits@.len() ==> base as nat == pow10(i as nat),
                id as nat == digits_value(digits@.take(i as int)),
                (id as nat) < pow10(i as nat),
            decreases digits@.len() - i,
        {
            let digit = digits[i];
            proof {
                let prefix = digits@.take(i as int + 1);
                assert(prefix.drop_last() =~= digits@.take(i as int));
                assert(prefix.last() == digit);
                lemma_pow10_monotonic(i as nat, 8);
                lemma_pow10_monotonic(i as nat + 1, 9);
                lemma_pow10_nine();
                assert(pow10(i as nat + 1) == 10 * pow10(i as nat));
                assert(digit as nat * pow10(i as nat) <= 9 * pow10(i as nat)) by (nonlinear_arith)
                    requires
                        digit < 10,
                ;
            }
            id = id + base * digit;
            if i + 1 < digits.len() {
                base = base * 10;
            }
            i = i + 1;
        }
        proof {
            assert(digits@.take(digits@.len() as int) =~= digits@);
        }
        id
    }

    /// A random identifier of at most `length` decimal digits; for a
    /// `length` of one or more it is not zero.
    ///
    /// Ten digits would not fit the result for every draw, so at most nine are
    /// asked for.
    pub fn new_numerical(length: u32) -> (id: u32)
        requires
            length <= 9,
        ensures
            (id as nat) < pow10(length as nat),
            length > 0 ==> id > 0,
    {
        let mut digits: Vec<u32> = Vec::new();
        let mut i: u32 = 0;
        while i < length
            invariant
                i <= length <= 9,
                digits@.len() == i,
                all_decimal(digits@),
            decreases length - i,
        {
            let mut rng = rand::thread_rng();
            let digit = random_digit(&mut rng, 0);
            digits.push(digit);
            i = i + 1;
        }
        proof {
            lemma_digits_value_bound(digits@);
        }
        let id = Uid::from_digits(&digits);
        if id == 0 && length > 0 {
            let mut rng = rand::thread_rng();
            let digit = random_digit(&mut rng, 1);
            digits.set(0, digit);
            proof {
                lemma_digits_value_bound(digits@);
                lemma_digits_value_at_least_first(digits@);
            }
            return Uid::from_digits(&digits);
        }
        id
    }
}

} // verus!
