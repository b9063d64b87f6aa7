//! Runtime values.
//!
//! A numeric value is carried as the bit pattern of an IEEE 754
//! single-precision number. The library never computes with such numbers;
//! it only reads off what the rules of the language depend on: whether a
//! number is zero, and which iteration count it stands for.
use vstd::prelude::*;
use vstd::arithmetic::power2::{lemma2_to64, lemma2_to64_rest, lemma_pow2_adds,
    lemma_pow2_strictly_increases, lemma_pow2_unfold, pow2};
use vstd::arithmetic::div_mod::lemma_small_mod;

verus! {

/// The three kinds of value.
#[derive(Debug, Clone, Copy, PartialEq, Eq, Structural)]
pub enum Kind {
    Number,
    Text,
    Boolean,
}

/// A runtime value. Values are copied whenever they are read.
#[derive(Debug, PartialEq, Eq)]
pub enum Value {
    /// The bits of a single-precision number.
    Number(u32),
    Text(String),
    Boolean(bool),
}

pub enum ValueView {
    Number(u32),
    Text(Seq<char>),
    Boolean(bool),
}

impl View for Value {
    type V = ValueView;

    open spec fn view(&self) -> ValueView {
        match self {
            Value::Number(bits) => ValueView::Number(*bits),
            Value::Text(text) => ValueView::Text(text@),
            Value::Boolean(truth) => ValueView::Boolean(*truth),
        }
    }
}

/// The values of a sequence of values, one for one.
pub open spec fn values_view(values: Seq<Value>) -> Seq<ValueView> {
    Seq::new(values.len(), |i: int| values[i]@)
}

pub open spec fn spec_kind(v: ValueView) -> Kind {
    match v {
        ValueView::Number(_) => Kind::Number,
        ValueView::Text(_) => Kind::Text,
        ValueView::Boolean(_) => Kind::Boolean,
    }
}

impl Value {
    /// A copy of the value.
    pub fn duplicate(&self) -> (r: Value)
        ensures
            r@ == self@,
    {
        match self {
            Value::Number(bits) => Value::Number(*bits),
            Value::Text(text) => Value::Text(text.clone()),
            Value::Boolean(truth) => Value::Boolean(*truth),
        }
    }

    pub fn kind(&self) -> (r: Kind)
        ensures
            r == spec_kind(self@),
    {
        match self {
            Value::Number(_) => Kind::Number,
            Value::Text(_) => Kind::Text,
            Value::Boolean(_) => Kind::Boolean,
        }
    }
}

/// The eight exponent bits of a single-precision number.
pub open spec fn spec_exponent(bits: u32) -> nat {
    ((bits as nat) / 0x80_0000) % 0x100
}

/// The twenty-three fraction bits.
pub open spec fn spec_fraction(bits: u32) -> nat {
    (bits as nat) % 0x80_0000
}

/// Whether the sign bit is set.
pub open spec fn spec_negative(bits: u32) -> bool {
    bits >= 0x8000_0000
}

/// Whether the number is neither of the two zeros.
pub open spec fn spec_nonzero(bits: u32) -> bool {
    spec_exponent(bits) != 0 || spec_fraction(bits) != 0
}

pub fn nonzero(bits: u32) -> (r: bool)
    ensures
        r == spec_nonzero(bits),
{
    (bits / 0x80_0000) % 0x100 != 0 || bits % 0x80_0000 != 0
}

/// The iteration count that a number stands for: the number itself where
/// it is a non-negative integer, and nothing where it is negative, has a
/// fraction, or is no number at all. A normal number with exponent bits
/// `e` and fraction bits `f` has the value `(2^23 + f) * 2^(e - 150)`.
pub open spec fn spec_count(bits: u32) -> Option<nat> {
    let exponent = spec_exponent(bits);
    let significand = 0x80_0000 + spec_fraction(bits);
    if !spec_nonzero(bits) {
        Some(0)
    } else if spec_negative(bits) || exponent == 0 || exponent == 0xff {
        None
    } else if exponent >= 150 {
        Some(significand * pow2((exponent - 150) as nat))
    } else if significand % pow2((150 - exponent) as nat) == 0 {
        Some(significand / pow2((150 - exponent) as nat))
    } else {
        None
    }
}

/// Two to the power `n`, for a small `n`.
fn two_to(n: u32) -> (r: u128)
    requires
        n <= 126,
    ensures
        r == pow2(n as nat),
{
    let mut r: u128 = 1;
    let mut i: u32 = 0;
    proof {
        lemma2_to64();
    }
    while i < n
        invariant
            i <= n <= 126,
            r == pow2(i as nat),
        decreases n - i,
    {
        proof {
            lemma_pow2_unfold((i + 1) as nat);
            lemma_pow2_strictly_increases((i + 1) as nat, 127);
            lemma_two_to_127();
        }
        r = r * 2;
        i += 1;
    }
    r
}

proof fn lemma_two_to_127()
    ensures
        pow2(127) == 0x8000_0000_0000_0000_0000_0000_0000_0000,
{
    lemma2_to64();
    lemma2_to64_rest();
    lemma_pow2_adds(64, 63);
}

pub fn count(bits: u32) -> (r: Option<u128>)
    ensures
        r is Some == spec_count(bits) is Some,
        r is Some ==> r.unwrap() == spec_count(bits).unwrap(),
{
    let exponent: u32 = (bits / 0x80_0000) % 0x100;
    let significand: u128 = (0x80_0000 + bits % 0x80_0000) as u128;
    if !nonzero(bits) {
        Some(0)
    } else if bits >= 0x8000_0000 || exponent == 0 || exponent == 0xff {
        None
    } else if exponent >= 150 {
        let factor = two_to(exponent - 150);
        proof {
            lemma2_to64();
            lemma2_to64_rest();
            lemma_pow2_adds(64, 64);
            lemma_pow2_adds(24, 104);
            if exponent - 150 < 104 {
                lemma_pow2_strictly_increases((exponent - 150) as nat, 104);
            }
            lemma_pow2_strictly_increases(0, 104);
            assert(0 < factor) by {
                if exponent > 150 {
                    lemma_pow2_strictly_increases(0, (exponent - 150) as nat);
                }
            }
            assert(significand * factor < pow2(24) * pow2(104)) by (nonlinear_arith)
                requires
                    0 <= significand < pow2(24),
                    0 < factor <= pow2(104),
            ;
        }
        Some(significand * factor)
    } else if exponent <= 126 {
        proof {
            lemma2_to64();
            if exponent < 126 {
                lemma_pow2_strictly_increases(24, (150 - exponent) as nat);
            }
            lemma_small_mod(significand as nat, pow2((150 - exponent) as nat));
        }
        None
    } else {
        let divisor = two_to(150 - exponent);
        proof {
            lemma_pow2_strictly_increases(0, (150 - exponent) as nat);
            lemma2_to64();
        }
        if significand % divisor == 0 {
            Some(significand / divisor)
        } else {
            None
        }
    }
}

} // verus!
