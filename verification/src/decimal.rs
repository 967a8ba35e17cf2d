//! Decimal text of an integer, and writing it into a [`FmtBuf`].

use crate::fmt_buf::{clipped, lemma_clipped_twice, FmtBuf, CAPACITY};
use vstd::prelude::*;
use vstd::utf8::*;

verus! {

/// The character that stands for the digit `d`.
pub open spec fn digit(d: int) -> char
    recommends
        0 <= d <= 9,
{
    seq!['0', '1', '2', '3', '4', '5', '6', '7', '8', '9'][d]
}

/// The digits of `n` in base ten, most significant first, without leading
/// zeros; `0` is the single digit `0`.
pub open spec fn decimal_nat(n: nat) -> Seq<char>
    decreases n,
{
    if n < 10 {
        seq![digit(n as int)]
    } else {
        decimal_nat(n / 10).push(digit((n % 10) as int))
    }
}

/// The decimal text of `v`: a minus sign where `v` is negative, then the
/// digits of its magnitude.
pub open spec fn decimal(v: int) -> Seq<char> {
    if v < 0 {
        seq!['-'] + decimal_nat((-v) as nat)
    } else {
        decimal_nat(v as nat)
    }
}

/// The digits still to be produced while a number is split from its last
/// digit up: those of `n`, or none where `n` is zero.
spec fn leading(n: nat) -> Seq<char> {
    if n == 0 {
        Seq::empty()
    } else {
        decimal_nat(n)
    }
}

/// Ten to the power `k`.
pub open spec fn pow10(k: nat) -> nat
    decreases k,
{
    if k == 0 {
        1
    } else {
        10 * pow10((k - 1) as nat)
    }
}

/// The bytes of a text of one-byte characters, one for one.
pub open spec fn ascii_bytes(text: Seq<char>) -> Seq<u8> {
    Seq::new(text.len(), |i: int| text[i] as u8)
}

/// A text of ASCII characters is encoded in UTF-8 by one byte for each
/// character.
pub proof fn lemma_ascii_encoding(text: Seq<char>)
    requires
        is_ascii_chars(text),
    ensures
        encode_utf8(text) == ascii_bytes(text),
{
    is_ascii_chars_encode_utf8(text);
    assert(encode_utf8(text) =~= ascii_bytes(text));
}

/// The digits of a number are ASCII, there is at least one of them, and a
/// number below ten to the `k` has at most `k` of them.
pub proof fn lemma_decimal_nat(n: nat, k: nat)
    requires
        n < pow10(k),
    ensures
        is_ascii_chars(decimal_nat(n)),
        1 <= decimal_nat(n).len(),
        k >= 1 ==> decimal_nat(n).len() <= k,
    decreases n,
{
    if n >= 10 {
        assert(k >= 2) by {
            reveal_with_fuel(pow10, 2);
        }
        lemma_decimal_nat(n / 10, (k - 1) as nat);
    }
}

/// The decimal text of a 32-bit integer is ASCII and has between one and
/// eleven characters.
pub proof fn lemma_decimal_i32(v: i32)
    ensures
        is_ascii_chars(decimal(v as int)),
        1 <= decimal(v as int).len() <= 11,
{
    let m: nat = if v < 0 {
        (-v) as nat
    } else {
        v as nat
    };
    assert(pow10(10) == 10_000_000_000) by {
        reveal_with_fuel(pow10, 11);
    }
    lemma_decimal_nat(m, 10);
}

/// The digit `d` as a byte of text.
fn digit_byte(d: u32) -> (b: u8)
    requires
        d <= 9,
    ensures
        b == digit(d as int) as u8,
        '\0' <= digit(d as int) <= '\u{7f}',
{
    48 + (d as u8)
}

impl FmtBuf {
    /// Appends the decimal text of `value` as far as it fits; the rest is
    /// dropped.
    pub fn write_i32(&mut self, value: i32)
        ensures
            final(self)@ == clipped(old(self)@ + encode_utf8(decimal(value as int))),
            final(self)@.len() <= CAPACITY,
            old(self)@.is_prefix_of(final(self)@),
    {
        let magnitude: u32 = if value < 0 {
            (-(value as i64)) as u32
        } else {
            value as u32
        };
        let mut digits: [u8; 10] = [0; 10];
        let mut at: usize = 9;
        let mut n: u32 = magnitude / 10;
        digits[9] = digit_byte(magnitude % 10);
        let ghost mut tail: Seq<char> = seq![digit((magnitude % 10) as int)];
        proof {
            assert(pow10(9) == 1_000_000_000) by {
                reveal_with_fuel(pow10, 10);
            }
            assert(digits@.subrange(9, 10) =~= ascii_bytes(tail));
            assert(decimal_nat(magnitude as nat) =~= leading(n as nat) + tail);
        }
        while n != 0
            invariant
                at <= 9,
                n < pow10(at as nat),
                tail.len() == 10 - at,
                is_ascii_chars(tail),
                digits@.subrange(at as int, 10) == ascii_bytes(tail),
                decimal_nat(magnitude as nat) == leading(n as nat) + tail,
            decreases n,
        {
            let ghost shorter = digits@.subrange(at as int, 10);
            at -= 1;
            let d: u32 = n % 10;
            digits[at] = digit_byte(d);
            proof {
                let longer = seq![digit(d as int)] + tail;
                assert(digits@.subrange(at as int, 10) =~= seq![digits@[at as int]] + shorter);
                assert(digits@.subrange(at as int, 10) =~= ascii_bytes(longer));
                assert(leading(n as nat) + tail =~= leading((n / 10) as nat) + longer);
                tail = longer;
            }
            n = n / 10;
        }
        let ghost before = self@;
        let ghost text = decimal(value as int);
        proof {
            lemma_decimal_i32(value);
            lemma_ascii_encoding(text);
        }
        if value < 0 {
            let sign: [u8; 1] = [45];
            self.write_bytes(&sign);
            self.write_bytes(&digits[at..10]);
            proof {
                assert(sign@ + ascii_bytes(tail) =~= ascii_bytes(text));
                lemma_clipped_twice(before, sign@, ascii_bytes(tail));
            }
        } else {
            self.write_bytes(&digits[at..10]);
        }
    }
}

} // verus!
