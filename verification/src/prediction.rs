use crate::errors::Error;
use vstd::arithmetic::mul::lemma_mul_inequality;
use vstd::arithmetic::mul::lemma_mul_is_commutative;
use vstd::arithmetic::mul::lemma_mul_strict_inequality;
use vstd::arithmetic::mul::lemma_mul_strictly_positive;
use vstd::arithmetic::power2::lemma2_to64;
use vstd::arithmetic::power2::lemma_pow2_adds;
use vstd::arithmetic::power2::lemma_pow2_pos;
use vstd::arithmetic::power2::lemma_pow2_strictly_increases;
use vstd::arithmetic::power2::pow2;
use vstd::prelude::*;

verus! {

/// The bit pattern of one half, as a single-precision binary number.
pub const HALF: u32 = 0x3f00_0000;

/// The bit pattern of positive infinity.
pub const POSITIVE_INFINITY: u32 = 0x7f80_0000;

/// The bit pattern of negative zero: the sign bit alone.
pub const NEGATIVE_ZERO: u32 = 0x8000_0000;

/// The bit pattern of negative infinity.
pub const NEGATIVE_INFINITY: u32 = 0xff80_0000;

/// Whether the sign bit, the highest of the thirty-two, is set.
pub open spec fn is_negative(bits: u32) -> bool {
    bits >= 0x8000_0000
}

/// The eight bits below the sign bit: the biased exponent.
pub open spec fn exponent(bits: u32) -> int {
    (bits as int / 0x80_0000) % 0x100
}

/// The lowest twenty-three bits: the fraction.
pub open spec fn fraction(bits: u32) -> int {
    bits as int % 0x80_0000
}

/// Whether the pattern denotes no number at all.
pub open spec fn is_nan(bits: u32) -> bool {
    exponent(bits) == 255 && fraction(bits) != 0
}

/// Whether the pattern denotes an infinity.
pub open spec fn is_infinite(bits: u32) -> bool {
    exponent(bits) == 255 && fraction(bits) == 0
}

/// The number that a finite pattern denotes, multiplied by two to the power
/// of 149, which makes it an integer: the smallest positive number that a
/// pattern can denote is two to the power of -149.
///
/// With a biased exponent of zero the number is the fraction times that
/// smallest number. With any other exponent `e` the fraction gains an implicit
/// leading bit, and the whole is scaled by two to the power of `e - 1`.
pub open spec fn scaled(bits: u32) -> int {
    let magnitude: int = if exponent(bits) == 0 {
        fraction(bits)
    } else {
        (0x80_0000 + fraction(bits)) * pow2((exponent(bits) - 1) as nat)
    };
    if is_negative(bits) {
        -magnitude
    } else {
        magnitude
    }
}

/// One half on the scale of `scaled`.
pub open spec fn scaled_half() -> int {
    pow2(148) as int
}

/// Whether the number that the pattern denotes is at least one half. What is
/// not a number is at least nothing.
pub open spec fn at_least_half(bits: u32) -> bool {
    if is_nan(bits) {
        false
    } else if is_infinite(bits) {
        !is_negative(bits)
    } else {
        scaled(bits) >= scaled_half()
    }
}

/// Whether the number that the pattern denotes is below one half. What is
/// not a number is below nothing.
pub open spec fn below_half(bits: u32) -> bool {
    if is_nan(bits) {
        false
    } else if is_infinite(bits) {
        is_negative(bits)
    } else {
        scaled(bits) < scaled_half()
    }
}

/// A significand with its leading bit, scaled by a power of two, reaches one
/// half exactly from the exponent of one half on.
proof fn lemma_significand_reaches_half(significand: int, k: nat)
    requires
        0x80_0000 <= significand < 0x100_0000,
    ensures
        significand * pow2(k) >= scaled_half() <==> k >= 125,
{
    lemma2_to64();
    lemma_pow2_pos(k);
    if k >= 125 {
        if k > 125 {
            lemma_pow2_strictly_increases(125, k);
        }
        lemma_pow2_adds(23, 125);
        lemma_mul_inequality(0x80_0000, significand, pow2(k) as int);
        lemma_mul_inequality(pow2(125) as int, pow2(k) as int, 0x80_0000);
        lemma_mul_is_commutative(pow2(125) as int, 0x80_0000);
        lemma_mul_is_commutative(pow2(k) as int, 0x80_0000);
    } else {
        if k < 124 {
            lemma_pow2_strictly_increases(k, 124);
        }
        lemma_pow2_adds(24, 124);
        lemma_mul_strict_inequality(significand, 0x100_0000, pow2(k) as int);
        lemma_mul_inequality(pow2(k) as int, pow2(124) as int, 0x100_0000);
        lemma_mul_is_commutative(pow2(124) as int, 0x100_0000);
        lemma_mul_is_commutative(pow2(k) as int, 0x100_0000);
    }
}

/// Among the patterns with a clear sign bit the numbers grow with the
/// pattern, and every pattern with the sign bit set denotes a number that is
/// at most zero. So comparing a number with one half comes down to comparing
/// its pattern with a few constants.
pub proof fn lemma_half_thresholds(bits: u32)
    ensures
        at_least_half(bits) <==> HALF <= bits <= POSITIVE_INFINITY,
        below_half(bits) <==> bits < HALF || NEGATIVE_ZERO <= bits <= NEGATIVE_INFINITY,
{
    let e = exponent(bits);
    let f = fraction(bits);
    let s: int = if is_negative(bits) { 1 } else { 0 };
    assert(bits == s * 0x8000_0000 + e * 0x80_0000 + f);
    lemma2_to64();
    lemma_pow2_pos(148);
    if e != 0 {
        lemma_significand_reaches_half(0x80_0000 + f, (e - 1) as nat);
        lemma_pow2_pos((e - 1) as nat);
        lemma_mul_strictly_positive(0x80_0000 + f, pow2((e - 1) as nat) as int);
    } else {
        lemma_pow2_strictly_increases(23, 148);
    }
}

/// One half denotes one half, and the pattern of one denotes twice as much.
pub proof fn lemma_scaled_half()
    ensures
        scaled(HALF) == scaled_half(),
        scaled(0x3f80_0000) == 2 * scaled_half(),
{
    lemma2_to64();
    lemma_pow2_adds(23, 125);
    lemma_pow2_adds(23, 126);
    lemma_pow2_adds(1, 148);
    assert(exponent(HALF) == 126 && fraction(HALF) == 0);
    assert(exponent(0x3f80_0000) == 127 && fraction(0x3f80_0000) == 0);
}

/// What a model answers for one image: how confident it is that the image
/// shows the challenge, and how confident that it does not. Each confidence
/// is held as the bit pattern of a single-precision binary number.
#[derive(Debug, Clone, Copy, PartialEq, Eq, Structural)]
pub struct Prediction {
    affirmative_confidence: u32,
    negative_confidence: u32,
}

/// What running a model gives: the two confidences, affirmative first, or
/// the status code of the runtime's failure.
pub type Outcome = std::result::Result<(u32, u32), u32>;

impl Prediction {
    pub closed spec fn affirmative(self) -> u32 {
        self.affirmative_confidence
    }

    pub closed spec fn negative(self) -> u32 {
        self.negative_confidence
    }

    /// The prediction that an outcome of running a model stands for.
    pub open spec fn of_outcome(outcome: Outcome) -> Result<Prediction, Error> {
        match outcome {
            Ok((affirmative, negative)) => Ok(Self::spec_new(affirmative, negative)),
            Err(code) => Err(Error::TensorflowError(code)),
        }
    }

    pub closed spec fn spec_new(affirmative: u32, negative: u32) -> Prediction {
        Prediction { affirmative_confidence: affirmative, negative_confidence: negative }
    }

    /// A prediction from the bit patterns of its two confidences.
    #[verifier::when_used_as_spec(spec_new)]
    pub fn new(affirmative: u32, negative: u32) -> (p: Prediction)
        ensures
            p == Self::spec_new(affirmative, negative),
            p.affirmative() == affirmative,
            p.negative() == negative,
    {
        Prediction { affirmative_confidence: affirmative, negative_confidence: negative }
    }

    /// The bit pattern of the affirmative confidence.
    pub fn affirmative_confidence(&self) -> (bits: u32)
        ensures
            bits == self.affirmative(),
    {
        self.affirmative_confidence
    }

    /// The bit pattern of the negative confidence.
    pub fn negative_confidence(&self) -> (bits: u32)
        ensures
            bits == self.negative(),
    {
        self.negative_confidence
    }

    /// Turns what a model run gave into the result of a prediction request.
    pub fn from_outcome(outcome: Outcome) -> (r: Result<Prediction, Error>)
        ensures
            r == Self::of_outcome(outcome),
    {
        match outcome {
            Ok((affirmative, negative)) => Ok(Prediction::new(affirmative, negative)),
            Err(code) => Err(Error::TensorflowError(code)),
        }
    }

    /// Whether the model says yes: the affirmative confidence is at least one
    /// half and the negative one is below it.
    pub fn is_mainly_affirmative(&self) -> (yes: bool)
        ensures
            yes == (at_least_half(self.affirmative()) && below_half(self.negative())),
    {
        let a = self.affirmative_confidence;
        let n = self.negative_confidence;
        proof {
            lemma_half_thresholds(a);
            lemma_half_thresholds(n);
        }
        HALF <= a && a <= POSITIVE_INFINITY && (n < HALF || (NEGATIVE_ZERO <= n && n
            <= NEGATIVE_INFINITY))
    }
}

/// Two predictions with the same confidences are the same prediction.
pub proof fn lemma_prediction_extensional(p: Prediction, q: Prediction)
    requires
        p.affirmative() == q.affirmative(),
        p.negative() == q.negative(),
    ensures
        p == q,
{
}

} // verus!
