//! A copy-pastable byte representation, for readable test diagnostics:
//! every byte as it would stand inside a Rust `b"..."` literal.

use vstd::prelude::*;

verus! {

/// The lowercase hex digit of a value below 16: `0` through `9`, then `a`
/// through `f`.
pub open spec fn hex_digit(n: u8) -> u8 {
    if n < 10 {
        (48 + n) as u8
    } else {
        (87 + n) as u8
    }
}

/// The representation of one byte: tab, newline, carriage return and
/// backslash as their two-character escapes, visible ASCII as itself, and
/// everything else as a two-digit lowercase hex escape.
pub open spec fn repr_byte(b: u8) -> Seq<u8> {
    if b == 9 {
        seq![92u8, 116u8]  // \t
    } else if b == 10 {
        seq![92u8, 110u8]  // \n
    } else if b == 13 {
        seq![92u8, 114u8]  // \r
    } else if b == 92 {
        seq![92u8, 92u8]  // \\
    } else if 32 <= b <= 126 {
        seq![b]
    } else {
        seq![92u8, 120u8, hex_digit(b / 16), hex_digit(b % 16)]  // \xhh
    }
}

/// The representation of the first `n` bytes, in order.
pub open spec fn repr_upto(bytes: Seq<u8>, n: int) -> Seq<u8>
    decreases n,
{
    if n <= 0 {
        Seq::empty()
    } else {
        repr_upto(bytes, n - 1) + repr_byte(bytes[n - 1])
    }
}

/// The representation of a whole byte sequence.
pub open spec fn repr_bytes(bytes: Seq<u8>) -> Seq<u8> {
    repr_upto(bytes, bytes.len() as int)
}

/// The lowercase hex digit of a value below 16.
fn hex_digit_exec(n: u8) -> (r: u8)
    requires
        n < 16,
    ensures
        r == hex_digit(n),
{
    if n < 10 {
        48 + n
    } else {
        87 + n
    }
}

/// Append the representation of the given bytes: proper escape codes for
/// copy-pasting into Rust surrounded by `b"..."`.
pub fn write_repr(w: &mut Vec<u8>, bytes: &[u8])
    ensures
        final(w)@ == old(w)@ + repr_bytes(bytes@),
{
    let mut n: usize = 0;
    while n < bytes.len()
        invariant
            n <= bytes@.len(),
            w@ == old(w)@ + repr_upto(bytes@, n as int),
        decreases bytes@.len() - n,
    {
        let b = bytes[n];
        if b == 9 {
            w.push(92);
            w.push(116);
        } else if b == 10 {
            w.push(92);
            w.push(110);
        } else if b == 13 {
            w.push(92);
            w.push(114);
        } else if b == 92 {
            w.push(92);
            w.push(92);
        } else if 32 <= b && b <= 126 {
            w.push(b);
        } else {
            w.push(92);
            w.push(120);
            w.push(hex_digit_exec(b / 16));
            w.push(hex_digit_exec(b % 16));
        }
        proof {
            assert(w@ =~= old(w)@ + repr_upto(bytes@, n + 1));
        }
        n = n + 1;
    }
}

} // verus!
