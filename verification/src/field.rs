//! Values of the 128-bit prime field that all trace cells live in.
//!
//! A value is held as its canonical integer in `[0, MODULUS)`, and the
//! arithmetic is specified over those integers. The modulus is that of the
//! 128-bit field of the `winterfell` proof engine, so a value and the
//! engine's element with the same canonical integer stand for each other.

use vstd::arithmetic::div_mod::{
    lemma_add_mod_noop, lemma_mod_twice, lemma_mul_mod_noop_left, lemma_small_mod,
};
use vstd::prelude::*;

verus! {

/// The field modulus, `2^128 - 45 * 2^40 + 1`.
pub const MODULUS: u128 = 340282366920938463463374557953744961537;

/// Whether `v` is the canonical integer of a field value.
pub open spec fn is_field_value(v: int) -> bool {
    0 <= v < MODULUS
}

/// Sum of two field values.
pub open spec fn field_add(a: int, b: int) -> int {
    (a + b) % (MODULUS as int)
}

/// Difference of two field values.
pub open spec fn field_sub(a: int, b: int) -> int {
    (a - b) % (MODULUS as int)
}

/// Product of two field values.
pub open spec fn field_mul(a: int, b: int) -> int {
    (a * b) % (MODULUS as int)
}

/// The canonical integers of a sequence of field values.
pub open spec fn values(s: Seq<Felt>) -> Seq<int> {
    s.map_values(|e: Felt| e@)
}

/// Replacing both summands of `x + y * q` by congruent ones keeps the
/// residue.
proof fn lemma_congruent_add_mul(x: int, x2: int, y: int, y2: int, q: int, m: int)
    requires
        m > 0,
        x % m == x2 % m,
        y % m == y2 % m,
    ensures
        (x + y * q) % m == (x2 + y2 * q) % m,
{
    lemma_mul_mod_noop_left(y, q, m);
    lemma_mul_mod_noop_left(y2, q, m);
    lemma_add_mod_noop(x, y * q, m);
    lemma_add_mod_noop(x2, y2 * q, m);
}

/// A field value, held as its canonical integer in `[0, MODULUS)`.
#[derive(Clone, Copy, Debug, PartialEq, Eq, Structural)]
pub struct Felt {
    value: u128,
}

impl View for Felt {
    type V = int;

    closed spec fn view(&self) -> int {
        self.value as int
    }
}

impl Felt {
    /// Every value is canonical.
    #[verifier::type_invariant]
    pub open spec fn in_field(self) -> bool {
        is_field_value(self@)
    }

    /// The field value of `value`, reduced modulo the modulus.
    pub fn new(value: u128) -> (r: Felt)
        ensures
            r@ == (value as int) % (MODULUS as int),
    {
        if value < MODULUS {
            proof {
                lemma_small_mod(value as nat, MODULUS as nat);
            }
            Felt { value }
        } else {
            Felt { value: value - MODULUS }
        }
    }

    /// The additive identity.
    pub fn zero() -> (r: Felt)
        ensures
            r@ == 0,
    {
        Felt { value: 0 }
    }

    /// The canonical integer of this value.
    pub fn as_int(&self) -> (v: u128)
        ensures
            v as int == self@,
            v < MODULUS,
    {
        proof {
            use_type_invariant(self);
        }
        self.value
    }

    /// Whether two values are the same field value.
    pub fn equals(&self, other: &Felt) -> (b: bool)
        ensures
            b == (self@ == other@),
    {
        self.value == other.value
    }

    /// Field addition.
    pub fn add(self, rhs: Felt) -> (r: Felt)
        ensures
            r@ == field_add(self@, rhs@),
    {
        proof {
            use_type_invariant(self);
            use_type_invariant(rhs);
        }
        let gap: u128 = MODULUS - rhs.value;
        if self.value < gap {
            proof {
                lemma_small_mod((self.value + rhs.value) as nat, MODULUS as nat);
            }
            Felt { value: self.value + rhs.value }
        } else {
            Felt { value: self.value - gap }
        }
    }

    /// Field subtraction.
    pub fn sub(self, rhs: Felt) -> (r: Felt)
        ensures
            r@ == field_sub(self@, rhs@),
    {
        proof {
            use_type_invariant(self);
            use_type_invariant(rhs);
        }
        if self.value < rhs.value {
            Felt { value: MODULUS - rhs.value + self.value }
        } else {
            proof {
                lemma_small_mod((self.value - rhs.value) as nat, MODULUS as nat);
            }
            Felt { value: self.value - rhs.value }
        }
    }

    /// Field multiplication, by doubling `self` once for each bit of `rhs`.
    pub fn mul(self, rhs: Felt) -> (r: Felt)
        ensures
            r@ == field_mul(self@, rhs@),
    {
        proof {
            use_type_invariant(self);
            use_type_invariant(rhs);
        }
        let ghost m: int = MODULUS as int;
        let mut acc: Felt = Felt { value: 0 };
        let mut base: Felt = self;
        let mut rest: u128 = rhs.value;
        while rest != 0
            invariant
                m == MODULUS as int,
                acc.value < MODULUS,
                base.value < MODULUS,
                (acc@ + base@ * (rest as int)) % m == (self@ * rhs@) % m,
            decreases rest,
        {
            let ghost old_acc: int = acc@;
            let ghost old_base: int = base@;
            let ghost half: int = (rest / 2) as int;
            let ghost sum: int = if rest % 2 == 1 {
                old_acc + old_base
            } else {
                old_acc
            };
            if rest % 2 == 1 {
                acc = acc.add(base);
            } else {
                proof {
                    lemma_small_mod(acc.value as nat, MODULUS as nat);
                }
            }
            base = base.add(base);
            proof {
                use_type_invariant(acc);
                use_type_invariant(base);
                let twice: int = old_base + old_base;
                lemma_mod_twice(sum, m);
                lemma_mod_twice(twice, m);
                lemma_congruent_add_mul(acc@, sum, base@, twice, half, m);
                let low: int = (rest % 2) as int;
                assert(sum + twice * half == old_acc + old_base * (rest as int)) by (nonlinear_arith)
                    requires
                        low == 0 || low == 1,
                        sum == if low == 1 { old_acc + old_base } else { old_acc },
                        twice == old_base + old_base,
                        rest as int == 2 * half + low,
                ;
            }
            rest = rest / 2;
        }
        proof {
            lemma_small_mod(acc.value as nat, MODULUS as nat);
        }
        acc
    }
}

} // verus!
