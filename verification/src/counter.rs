//! The frame counter and the line of text that shows it.

use crate::decimal::{ascii_bytes, decimal, lemma_ascii_encoding, lemma_decimal_i32};
use crate::fmt_buf::FmtBuf;
use vstd::prelude::*;
use vstd::string::*;
use vstd::utf8::*;

verus! {

/// Rows from the top of one line of text to the top of the next.
pub const LINE_SPACING: i32 = 16;

/// A line of text and the point where its top left corner is drawn.
pub struct TextLine<'a> {
    pub text: &'a str,
    pub x: i32,
    pub y: i32,
}

/// The three lines of a counter frame, top to bottom: two greetings, then
/// `counter_text`. Each starts at the left edge, [`LINE_SPACING`] rows below
/// the one before.
pub fn frame_lines<'a>(counter_text: &'a str) -> (lines: [TextLine<'a>; 3])
    ensures
        forall|i: int| 0 <= i < 3 ==> lines[i].x == 0 && lines[i].y == i * LINE_SPACING,
        lines[0].text@ == "Hello world!"@,
        lines[1].text@ == "Hello Rust!"@,
        lines[2].text@ == counter_text@,
{
    [
        TextLine { text: "Hello world!", x: 0, y: 0 },
        TextLine { text: "Hello Rust!", x: 0, y: LINE_SPACING },
        TextLine { text: counter_text, x: 0, y: 2 * LINE_SPACING },
    ]
}

/// The text shown for the count `v`.
pub open spec fn counter_line(v: int) -> Seq<char> {
    "counter: "@ + decimal(v)
}

/// The count that follows `v`: one more, and the least value after the
/// greatest.
pub open spec fn successor(v: int) -> int {
    if v == i32::MAX {
        i32::MIN as int
    } else {
        v + 1
    }
}

/// Counts frames. The count wraps round: after `i32::MAX` comes `i32::MIN`.
pub struct Counter {
    value: i32,
}

impl View for Counter {
    type V = int;

    /// The current count.
    closed spec fn view(&self) -> int {
        self.value as int
    }
}

impl Counter {
    /// A counter at zero.
    pub fn new() -> (r: Self)
        ensures
            r@ == 0,
    {
        Counter { value: 0 }
    }

    /// A counter at `value`.
    pub fn starting_at(value: i32) -> (r: Self)
        ensures
            r@ == value,
    {
        Counter { value }
    }

    /// The current count.
    pub fn value(&self) -> (v: i32)
        ensures
            v == self@,
    {
        self.value
    }

    /// Moves on to the next count.
    pub fn increment(&mut self)
        ensures
            final(self)@ == successor(old(self)@),
    {
        self.value = self.value.wrapping_add(1);
    }

    /// Replaces what `buf` holds by the line for the current count.
    pub fn render(&self, buf: &mut FmtBuf)
        ensures
            final(buf)@ == encode_utf8(counter_line(self@)),
            valid_utf8(final(buf)@),
            decode_utf8(final(buf)@) == counter_line(self@),
    {
        buf.reset();
        let _ = buf.write_str("counter: ");
        buf.write_i32(self.value);
        proof {
            let label = "counter: "@;
            let number = decimal(self@);
            reveal_strlit("counter: ");
            lemma_decimal_i32(self.value);
            assert(is_ascii_chars(label));
            assert(is_ascii_chars(label + number));
            lemma_ascii_encoding(label);
            lemma_ascii_encoding(number);
            lemma_ascii_encoding(label + number);
            assert(ascii_bytes(label) + ascii_bytes(number) =~= ascii_bytes(label + number));
            assert(Seq::<u8>::empty() + encode_utf8(label) =~= encode_utf8(label));
            encode_utf8_valid_utf8(counter_line(self@));
            encode_utf8_decode_utf8(counter_line(self@));
        }
    }

    /// One frame of the counter display: writes the line for the current
    /// count into `buf`, then moves on to the next count.
    pub fn frame(&mut self, buf: &mut FmtBuf)
        ensures
            final(buf)@ == encode_utf8(counter_line(old(self)@)),
            valid_utf8(final(buf)@),
            decode_utf8(final(buf)@) == counter_line(old(self)@),
            final(self)@ == successor(old(self)@),
    {
        self.render(buf);
        self.increment();
    }
}

} // verus!
