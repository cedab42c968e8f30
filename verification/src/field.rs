//! Constants of the prime field, held as arbitrarily large natural numbers.
//!
//! A constant is stored by its decimal digits, so that it can be written out
//! without a division of large numbers. The view of a constant is the number
//! itself.

use vstd::prelude::*;
use crate::text::{
    all_digits, dec_digits, dec_text, dec_value, digits_to_string, lemma_dec_digits_are_digits,
    lemma_dec_digits_leading, lemma_dec_value_of_digits, lemma_dec_value_prefix,
    numeral_to_digits, numeral_value, usize_digits,
};

verus! {

/// A natural number of any size.
#[derive(Debug, PartialEq, Eq)]
pub struct FieldValue {
    digits: Vec<u8>,
}

impl View for FieldValue {
    type V = nat;

    closed spec fn view(&self) -> nat {
        dec_value(self.digits@)
    }
}

/// In the digits of a positive number, every prefix that is not empty stands
/// for a positive number.
proof fn lemma_prefix_positive(n: nat, k: int)
    requires
        n > 0,
        1 <= k <= dec_digits(n).len(),
    ensures
        dec_value(dec_digits(n).take(k)) > 0,
{
    let digits = dec_digits(n);
    lemma_dec_digits_leading(n);
    lemma_dec_digits_are_digits(n);
    lemma_dec_value_of_digits(n);
    let first = digits.take(k).take(1);
    assert(first =~= seq![digits[0]]);
    assert(first.drop_last() =~= Seq::<u8>::empty());
    assert(dec_value(first.drop_last()) == 0);
    assert(dec_value(first) == digits[0] as nat);
    lemma_dec_value_prefix(digits.take(k), 1);
    if digits.len() == 1 {
        assert(digits.take(k) =~= digits);
    }
}

impl FieldValue {
    /// The stored digits are exactly the decimal digits of the number.
    #[verifier::type_invariant]
    spec fn canonical(self) -> bool {
        self.digits@ == dec_digits(dec_value(self.digits@))
    }

    /// The constant with the value of a machine integer.
    pub fn from_usize(n: usize) -> (r: FieldValue)
        ensures
            r@ == n as nat,
    {
        let digits = usize_digits(n);
        proof {
            lemma_dec_value_of_digits(n as nat);
        }
        FieldValue { digits }
    }

    /// The constant that a decimal numeral stands for; nothing for a text
    /// that is no decimal numeral.
    pub fn from_dec_str(text: &str) -> (r: Option<FieldValue>)
        ensures
            match r {
                Some(v) => numeral_value(text@) == Some(v@),
                None => numeral_value(text@) is None,
            },
    {
        match numeral_to_digits(text) {
            Some(digits) => {
                proof {
                    lemma_dec_value_of_digits(numeral_value(text@)->0);
                }
                Some(FieldValue { digits })
            },
            None => None,
        }
    }

    /// The constant zero.
    pub fn zero() -> (r: FieldValue)
        ensures
            r@ == 0,
    {
        FieldValue::from_usize(0)
    }

    /// The constant one.
    pub fn one() -> (r: FieldValue)
        ensures
            r@ == 1,
    {
        FieldValue::from_usize(1)
    }

    /// The value as a machine integer, where it fits.
    pub fn to_usize(&self) -> (r: Option<usize>)
        ensures
            r == if self@ <= usize::MAX {
                Some(self@ as usize)
            } else {
                None
            },
    {
        proof {
            use_type_invariant(self);
            lemma_dec_digits_are_digits(self@);
        }
        let mut acc: usize = 0;
        let mut i: usize = 0;
        proof {
            assert(self.digits@.take(0) =~= Seq::<u8>::empty());
        }
        while i < self.digits.len()
            invariant
                i <= self.digits.len(),
                all_digits(self.digits@),
                acc as nat == dec_value(self.digits@.take(i as int)),
            decreases self.digits.len() - i,
        {
            let d: usize = self.digits[i] as usize;
            proof {
                assert(self.digits@.take(i as int + 1).drop_last() =~= self.digits@.take(i as int));
                lemma_dec_value_prefix(self.digits@, i as int + 1);
            }
            if acc > (usize::MAX - d) / 10 {
                return None;
            }
            acc = acc * 10 + d;
            i += 1;
        }
        proof {
            assert(self.digits@.take(i as int) =~= self.digits@);
        }
        Some(acc)
    }

    /// Twice the value.
    pub fn double(&self) -> (r: FieldValue)
        ensures
            r@ == 2 * self@,
    {
        proof {
            use_type_invariant(self);
            lemma_dec_digits_are_digits(self@);
            lemma_dec_value_of_digits(2 * self@);
        }
        let ghost n = self@;
        if self.digits.len() == 1 && self.digits[0] == 0 {
            proof {
                assert(self.digits@.drop_last() =~= Seq::<u8>::empty());
                assert(dec_value(self.digits@.drop_last()) == 0);
            }
            return FieldValue::zero();
        }
        proof {
            if n == 0 {
                assert(dec_digits(0) =~= seq![0u8]);
            }
            assert(self.digits@.take(self.digits.len() as int) =~= self.digits@);
        }
        let mut out: Vec<u8> = Vec::new();
        let mut carry: u8 = 0;
        let mut i: usize = self.digits.len();
        while i > 0
            invariant
                i <= self.digits.len(),
                carry <= 1,
                n > 0,
                n == dec_value(self.digits@),
                self.digits@ == dec_digits(n),
                all_digits(self.digits@),
                ({
                    let x = 2 * dec_value(self.digits@.take(i as int)) + carry as nat;
                    &&& x > 0 ==> dec_digits(2 * n) == dec_digits(x) + out@
                    &&& x == 0 ==> dec_digits(2 * n) == out@
                }),
            decreases i,
        {
            let ghost x_old = 2 * dec_value(self.digits@.take(i as int)) + carry as nat;
            proof {
                lemma_prefix_positive(n, i as int);
                assert(self.digits@.take(i as int).drop_last() =~= self.digits@.take(i as int - 1));
            }
            i -= 1;
            let t: u8 = 2 * self.digits[i] + carry;
            let digit: u8 = t % 10;
            carry = t / 10;
            proof {
                let x_new = 2 * dec_value(self.digits@.take(i as int)) + carry as nat;
                assert(x_old == 10 * x_new + digit as nat);
                if x_old >= 10 {
                    assert(x_old / 10 == x_new);
                    assert(x_old % 10 == digit as nat);
                    assert(dec_digits(x_old) == dec_digits(x_new).push(digit));
                    assert(dec_digits(x_new).push(digit) + out@ =~= dec_digits(x_new)
                        + out@.insert(0, digit));
                } else {
                    assert(dec_digits(x_old) =~= seq![digit]);
                    assert(seq![digit] + out@ =~= out@.insert(0, digit));
                }
            }
            out.insert(0, digit);
        }
        proof {
            assert(self.digits@.take(0) =~= Seq::<u8>::empty());
            assert(dec_digits(1) =~= seq![1u8]);
            assert(seq![1u8] + out@ =~= out@.insert(0, 1u8));
        }
        if carry > 0 {
            out.insert(0, carry);
        }
        FieldValue { digits: out }
    }

    /// The decimal text of the value.
    pub fn to_dec_string(&self) -> (r: String)
        ensures
            r@ == dec_text(self@),
    {
        proof {
            use_type_invariant(self);
            lemma_dec_digits_are_digits(self@);
        }
        digits_to_string(&self.digits)
    }
}

impl Clone for FieldValue {
    fn clone(&self) -> (r: FieldValue)
        ensures
            r@ == self@,
    {
        proof {
            use_type_invariant(self);
        }
        let mut digits: Vec<u8> = Vec::new();
        let mut i: usize = 0;
        while i < self.digits.len()
            invariant
                i <= self.digits.len(),
                digits@ == self.digits@.take(i as int),
            decreases self.digits.len() - i,
        {
            digits.push(self.digits[i]);
            i += 1;
        }
        proof {
            assert(self.digits@.take(i as int) =~= self.digits@);
        }
        FieldValue { digits }
    }
}

} // verus!
