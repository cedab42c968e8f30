//! Decimal rendering of numbers and joining of rendered pieces.

use vstd::prelude::*;
use vstd::string::{StrSliceExecFns, StringExecFns};

verus! {

/// The character that stands for the decimal digit `d`.
pub open spec fn digit_char(d: nat) -> char {
    if d == 0 {
        '0'
    } else if d == 1 {
        '1'
    } else if d == 2 {
        '2'
    } else if d == 3 {
        '3'
    } else if d == 4 {
        '4'
    } else if d == 5 {
        '5'
    } else if d == 6 {
        '6'
    } else if d == 7 {
        '7'
    } else if d == 8 {
        '8'
    } else {
        '9'
    }
}

/// The decimal digits of `n`, most significant first, without a leading zero
/// (zero itself is the single digit 0).
pub open spec fn dec_digits(n: nat) -> Seq<u8>
    decreases n,
{
    if n < 10 {
        seq![n as u8]
    } else {
        dec_digits(n / 10).push((n % 10) as u8)
    }
}

/// The number that a sequence of decimal digits, most significant first,
/// stands for.
pub open spec fn dec_value(digits: Seq<u8>) -> nat
    decreases digits.len(),
{
    if digits.len() == 0 {
        0
    } else {
        10 * dec_value(digits.drop_last()) + digits.last() as nat
    }
}

/// Whether every element is a decimal digit.
pub open spec fn all_digits(digits: Seq<u8>) -> bool {
    forall|i: int| 0 <= i < digits.len() ==> digits[i] < 10
}

/// The text of a sequence of decimal digits.
pub open spec fn digits_text(digits: Seq<u8>) -> Seq<char> {
    Seq::new(digits.len(), |i: int| digit_char(digits[i] as nat))
}

/// The decimal text of `n`.
pub open spec fn dec_text(n: nat) -> Seq<char> {
    digits_text(dec_digits(n))
}

/// The pieces in order, with `sep` between each two neighbours.
pub open spec fn join(parts: Seq<Seq<char>>, sep: Seq<char>) -> Seq<char>
    decreases parts.len(),
{
    if parts.len() == 0 {
        Seq::empty()
    } else if parts.len() == 1 {
        parts[0]
    } else {
        join(parts.drop_last(), sep) + sep + parts.last()
    }
}

/// The views of the strings of a sequence.
pub open spec fn string_views(parts: Seq<String>) -> Seq<Seq<char>> {
    Seq::new(parts.len(), |i: int| parts[i]@)
}

/// The digits of a number are decimal digits, and there is at least one.
pub proof fn lemma_dec_digits_are_digits(n: nat)
    ensures
        all_digits(dec_digits(n)),
        dec_digits(n).len() >= 1,
    decreases n,
{
    if n >= 10 {
        lemma_dec_digits_are_digits(n / 10);
    }
}

/// Reading the digits of a number gives the number back.
pub proof fn lemma_dec_value_of_digits(n: nat)
    ensures
        dec_value(dec_digits(n)) == n,
    decreases n,
{
    if n < 10 {
        assert(dec_digits(n).drop_last() =~= Seq::<u8>::empty());
        assert(dec_value(dec_digits(n).drop_last()) == 0);
    } else {
        lemma_dec_value_of_digits(n / 10);
        assert(dec_digits(n).drop_last() =~= dec_digits(n / 10));
    }
}

/// A number of several digits starts with a digit that is not zero.
pub proof fn lemma_dec_digits_leading(n: nat)
    ensures
        dec_digits(n).len() > 1 ==> dec_digits(n)[0] != 0,
        n >= 10 <==> dec_digits(n).len() > 1,
    decreases n,
{
    if n >= 10 {
        lemma_dec_digits_leading(n / 10);
        lemma_dec_digits_are_digits(n / 10);
    }
}

/// The value of a prefix of a digit sequence is at most the value of the
/// whole.
pub proof fn lemma_dec_value_prefix(digits: Seq<u8>, k: int)
    requires
        0 <= k <= digits.len(),
    ensures
        dec_value(digits.take(k)) <= dec_value(digits),
    decreases digits.len() - k,
{
    if k < digits.len() {
        lemma_dec_value_prefix(digits, k + 1);
        assert(digits.take(k + 1).drop_last() =~= digits.take(k));
    } else {
        assert(digits.take(k) =~= digits);
    }
}

/// The decimal digit that a character stands for, if it stands for one.
pub open spec fn char_digit(c: char) -> Option<u8> {
    if c == '0' {
        Some(0u8)
    } else if c == '1' {
        Some(1u8)
    } else if c == '2' {
        Some(2u8)
    } else if c == '3' {
        Some(3u8)
    } else if c == '4' {
        Some(4u8)
    } else if c == '5' {
        Some(5u8)
    } else if c == '6' {
        Some(6u8)
    } else if c == '7' {
        Some(7u8)
    } else if c == '8' {
        Some(8u8)
    } else if c == '9' {
        Some(9u8)
    } else {
        None
    }
}

/// Whether a text is a decimal numeral: one decimal digit or more.
pub open spec fn is_numeral(text: Seq<char>) -> bool {
    &&& text.len() > 0
    &&& forall|i: int| 0 <= i < text.len() ==> char_digit(#[trigger] text[i]) is Some
}

/// The digits that the characters of a numeral stand for.
pub open spec fn numeral_digits(text: Seq<char>) -> Seq<u8> {
    Seq::new(text.len(), |i: int| char_digit(text[i])->0)
}

/// The number that a text stands for, if it is a decimal numeral. Zeros in
/// front do not count.
pub open spec fn numeral_value(text: Seq<char>) -> Option<nat> {
    if is_numeral(text) {
        Some(dec_value(numeral_digits(text)))
    } else {
        None
    }
}

/// A sequence of digits that does not start with a zero, or is one digit
/// long, is the sequence of the digits of its value.
pub proof fn lemma_digits_of_value(digits: Seq<u8>)
    requires
        all_digits(digits),
        digits.len() >= 1,
        digits.len() > 1 ==> digits[0] != 0,
    ensures
        dec_digits(dec_value(digits)) == digits,
    decreases digits.len(),
{
    let init = digits.drop_last();
    if digits.len() == 1 {
        assert(dec_value(init) == 0);
        assert(dec_digits(dec_value(digits)) =~= digits);
    } else {
        assert(init[0] == digits[0]);
        lemma_digits_of_value(init);
        let first = init.take(1);
        assert(first.drop_last() =~= Seq::<u8>::empty());
        assert(dec_value(first.drop_last()) == 0);
        assert(dec_value(first) == init[0] as nat);
        lemma_dec_value_prefix(init, 1);
        assert(dec_value(init) >= 1);
        let value = dec_value(digits);
        assert(value == 10 * dec_value(init) + digits.last() as nat);
        assert(value / 10 == dec_value(init));
        assert(value % 10 == digits.last() as nat);
        assert(dec_digits(value) =~= init.push(digits.last()));
        assert(init.push(digits.last()) =~= digits);
    }
}

/// The decimal digit that a character stands for, if it stands for one.
pub fn digit_of(c: char) -> (r: Option<u8>)
    ensures
        r == char_digit(c),
{
    if c == '0' {
        Some(0)
    } else if c == '1' {
        Some(1)
    } else if c == '2' {
        Some(2)
    } else if c == '3' {
        Some(3)
    } else if c == '4' {
        Some(4)
    } else if c == '5' {
        Some(5)
    } else if c == '6' {
        Some(6)
    } else if c == '7' {
        Some(7)
    } else if c == '8' {
        Some(8)
    } else if c == '9' {
        Some(9)
    } else {
        None
    }
}

/// The one-character text of a decimal digit.
pub fn digit_str(d: u8) -> (r: &'static str)
    requires
        d < 10,
    ensures
        r@ == seq![digit_char(d as nat)],
{
    proof {
        reveal_strlit("0");
        reveal_strlit("1");
        reveal_strlit("2");
        reveal_strlit("3");
        reveal_strlit("4");
        reveal_strlit("5");
        reveal_strlit("6");
        reveal_strlit("7");
        reveal_strlit("8");
        reveal_strlit("9");
    }
    if d == 0 {
        "0"
    } else if d == 1 {
        "1"
    } else if d == 2 {
        "2"
    } else if d == 3 {
        "3"
    } else if d == 4 {
        "4"
    } else if d == 5 {
        "5"
    } else if d == 6 {
        "6"
    } else if d == 7 {
        "7"
    } else if d == 8 {
        "8"
    } else {
        "9"
    }
}

/// The decimal digits of a machine integer.
pub fn usize_digits(n: usize) -> (r: Vec<u8>)
    ensures
        r@ == dec_digits(n as nat),
{
    let mut rest: usize = n;
    let mut out: Vec<u8> = Vec::new();
    while rest >= 10
        invariant
            dec_digits(n as nat) == dec_digits(rest as nat) + out@,
        decreases rest,
    {
        let d: u8 = (rest % 10) as u8;
        proof {
            assert(dec_digits(rest as nat) == dec_digits((rest / 10) as nat).push(d));
            assert(dec_digits((rest / 10) as nat).push(d) + out@ =~= dec_digits(
                (rest / 10) as nat,
            ) + out@.insert(0, d));
        }
        out.insert(0, d);
        rest = rest / 10;
    }
    proof {
        assert(seq![rest as u8] + out@ =~= out@.insert(0, rest as u8));
    }
    out.insert(0, rest as u8);
    out
}

/// The text of a sequence of decimal digits.
pub fn digits_to_string(digits: &Vec<u8>) -> (r: String)
    requires
        all_digits(digits@),
    ensures
        r@ == digits_text(digits@),
{
    let mut out = String::new();
    let mut i: usize = 0;
    while i < digits.len()
        invariant
            i <= digits.len(),
            all_digits(digits@),
            out@ == digits_text(digits@.take(i as int)),
        decreases digits.len() - i,
    {
        let piece = digit_str(digits[i]);
        proof {
            assert(digits_text(digits@.take(i as int + 1)) =~= digits_text(
                digits@.take(i as int),
            ) + piece@);
        }
        out.append(piece);
        i += 1;
    }
    proof {
        assert(digits@.take(i as int) =~= digits@);
    }
    out
}

/// The decimal text of a machine integer.
pub fn usize_to_string(n: usize) -> (r: String)
    ensures
        r@ == dec_text(n as nat),
{
    let digits = usize_digits(n);
    proof {
        lemma_dec_digits_are_digits(n as nat);
    }
    digits_to_string(&digits)
}

/// Appends the pieces to `out`, with `sep` between each two neighbours.
pub fn append_joined(out: &mut String, parts: &Vec<String>, sep: &str)
    ensures
        final(out)@ == old(out)@ + join(string_views(parts@), sep@),
{
    let ghost before = out@;
    let ghost views = string_views(parts@);
    let mut i: usize = 0;
    proof {
        assert(views.take(0) =~= Seq::<Seq<char>>::empty());
        assert(before + join(views.take(0), sep@) =~= before);
    }
    while i < parts.len()
        invariant
            i <= parts.len(),
            views == string_views(parts@),
            out@ == before + join(views.take(i as int), sep@),
        decreases parts.len() - i,
    {
        proof {
            let next = views.take(i as int + 1);
            assert(next.drop_last() =~= views.take(i as int));
            assert(next.last() == parts@[i as int]@);
            if i == 0 {
                assert(before + join(next, sep@) =~= before + parts@[i as int]@);
            } else {
                assert(before + join(next, sep@) =~= before + join(views.take(i as int), sep@)
                    + sep@ + parts@[i as int]@);
            }
        }
        if i > 0 {
            out.append(sep);
        }
        out.append(parts[i].as_str());
        i += 1;
    }
    proof {
        assert(views.take(i as int) =~= views);
    }
}

/// The digits of the number that a text stands for, if the text is a
/// decimal numeral.
pub fn numeral_to_digits(text: &str) -> (r: Option<Vec<u8>>)
    ensures
        match r {
            Some(digits) => numeral_value(text@) is Some && digits@ == dec_digits(
                numeral_value(text@)->0,
            ),
            None => numeral_value(text@) is None,
        },
{
    let count = text.unicode_len();
    if count == 0 {
        return None;
    }
    let ghost all = numeral_digits(text@);
    let mut digits: Vec<u8> = Vec::new();
    let mut i: usize = 0;
    proof {
        assert(all.take(0) =~= Seq::<u8>::empty());
    }
    while i < count
        invariant
            i <= count,
            count == text@.len(),
            all == numeral_digits(text@),
            forall|j: int| 0 <= j < i ==> char_digit(#[trigger] text@[j]) is Some,
            all_digits(digits@),
            digits@.len() > 0 ==> digits@[0] != 0,
            dec_value(digits@) == dec_value(all.take(i as int)),
        decreases count - i,
    {
        let c = text.get_char(i);
        match digit_of(c) {
            None => {
                return None;
            },
            Some(d) => {
                proof {
                    assert(all.take(i as int + 1).drop_last() =~= all.take(i as int));
                    assert(all.take(i as int + 1).last() == d);
                    assert(digits@.push(d).drop_last() =~= digits@);
                }
                if digits.len() > 0 || d != 0 {
                    digits.push(d);
                }
            },
        }
        i += 1;
    }
    proof {
        assert(all.take(i as int) =~= all);
        assert(is_numeral(text@));
    }
    if digits.len() == 0 {
        digits.push(0);
        proof {
            assert(digits@.drop_last() =~= Seq::<u8>::empty());
        }
    }
    proof {
        lemma_digits_of_value(digits@);
    }
    Some(digits)
}

} // verus!
