//! ANSI escape sequences that move the cursor and erase parts of the screen.
use vstd::prelude::*;

use crate::text::{decimal, push_char, push_decimal};

verus! {

/// An escape sequence sent to the terminal.
pub enum EscSeq {
    Up(usize),
    Down(usize),
    Right(usize),
    Left(usize),
    HorizontalAbs(usize),
    EraseInDisplay(usize),
    EraseInLineFromCursorToEnd,
    EraseInLineFromCursorToBegining,
    EraseInLineAll,
}

/// The control sequence introducer, `ESC [`.
pub open spec fn csi() -> Seq<char> {
    seq!['\x1B', '[']
}

/// `ESC [`, the number `n` in decimal, then the selector `sel`.
pub open spec fn csi_num(n: nat, sel: char) -> Seq<char> {
    csi() + decimal(n).push(sel)
}

/// A cursor move of `n` columns to the left.
pub open spec fn left_chars(n: nat) -> Seq<char> {
    csi_num(n, 'D')
}

/// A cursor move of `n` columns to the right.
pub open spec fn right_chars(n: nat) -> Seq<char> {
    csi_num(n, 'C')
}

impl EscSeq {
    /// The characters of this sequence.
    pub open spec fn chars(&self) -> Seq<char> {
        match *self {
            EscSeq::Up(n) => csi_num(n as nat, 'A'),
            EscSeq::Down(n) => csi_num(n as nat, 'B'),
            EscSeq::Right(n) => csi_num(n as nat, 'C'),
            EscSeq::Left(n) => csi_num(n as nat, 'D'),
            EscSeq::HorizontalAbs(n) => csi_num(n as nat, 'G'),
            EscSeq::EraseInDisplay(n) => csi_num(n as nat, 'J'),
            EscSeq::EraseInLineFromCursorToEnd => csi() + seq!['0', 'K'],
            EscSeq::EraseInLineFromCursorToBegining => csi() + seq!['1', 'K'],
            EscSeq::EraseInLineAll => csi() + seq!['2', 'K'],
        }
    }

    /// Appends this sequence to `out`.
    pub fn write_to(&self, out: &mut String)
        ensures
            final(out)@ == old(out)@ + self.chars(),
    {
        push_char(out, '\x1B');
        push_char(out, '[');
        match *self {
            EscSeq::Up(n) => {
                push_decimal(out, n);
                push_char(out, 'A');
            },
            EscSeq::Down(n) => {
                push_decimal(out, n);
                push_char(out, 'B');
            },
            EscSeq::Right(n) => {
                push_decimal(out, n);
                push_char(out, 'C');
            },
            EscSeq::Left(n) => {
                push_decimal(out, n);
                push_char(out, 'D');
            },
            EscSeq::HorizontalAbs(n) => {
                push_decimal(out, n);
                push_char(out, 'G');
            },
            EscSeq::EraseInDisplay(n) => {
                push_decimal(out, n);
                push_char(out, 'J');
            },
            EscSeq::EraseInLineFromCursorToEnd => {
                push_char(out, '0');
                push_char(out, 'K');
            },
            EscSeq::EraseInLineFromCursorToBegining => {
                push_char(out, '1');
                push_char(out, 'K');
            },
            EscSeq::EraseInLineAll => {
                push_char(out, '2');
                push_char(out, 'K');
            },
        }
        assert(final(out)@ == old(out)@ + self.chars());
    }

    /// This sequence as a string.
    pub fn to_string(&self) -> (r: String)
        ensures
            r@ == self.chars(),
    {
        let mut s = String::new();
        self.write_to(&mut s);
        assert(s@ == seq![] + self.chars());
        s
    }
}

} // verus!
