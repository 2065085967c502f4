//! Bytes shown as a byte string literal, such as `b"GET /\r\n"`.

use vstd::prelude::*;

verus! {

/// The character of the hexadecimal digit `d`, in lower case.
pub open spec fn hex_digit_char(d: nat) -> char
    recommends
        d < 16,
{
    if d < 10 {
        ((48 + d) as u8) as char
    } else {
        ((87 + d) as u8) as char
    }
}

/// The escape of one byte inside a byte string literal: `\t`, `\r`, `\n`,
/// `\'`, `\"` and `\\` for those six bytes, the character itself for the other
/// printable ASCII bytes (0x20 to 0x7e), and `\x` with two lower-case
/// hexadecimal digits for every other byte.
pub open spec fn escaped_byte(b: u8) -> Seq<char> {
    if b == 9 {
        seq!['\\', 't']
    } else if b == 13 {
        seq!['\\', 'r']
    } else if b == 10 {
        seq!['\\', 'n']
    } else if b == 39 {
        seq!['\\', '\'']
    } else if b == 34 {
        seq!['\\', '"']
    } else if b == 92 {
        seq!['\\', '\\']
    } else if 0x20 <= b <= 0x7e {
        seq![b as char]
    } else {
        seq!['\\', 'x', hex_digit_char((b / 16) as nat), hex_digit_char((b % 16) as nat)]
    }
}

/// The escapes of all bytes of `bytes`, one after the other.
pub open spec fn escaped_bytes(bytes: Seq<u8>) -> Seq<char>
    decreases bytes.len(),
{
    if bytes.len() == 0 {
        Seq::empty()
    } else {
        escaped_bytes(bytes.drop_last()) + escaped_byte(bytes.last())
    }
}

/// The byte string literal that denotes `bytes`.
pub open spec fn literal_text(bytes: Seq<u8>) -> Seq<char> {
    seq!['b', '"'] + escaped_bytes(bytes) + seq!['"']
}

fn hex_digit(d: u8) -> (c: char)
    requires
        d < 16,
    ensures
        c == hex_digit_char(d as nat),
{
    if d < 10 {
        (48u8 + d) as char
    } else {
        (87u8 + d) as char
    }
}

/// Appends the escape of `b` to `out`.
pub fn push_escaped_byte(out: &mut String, b: u8)
    ensures
        final(out)@ == old(out)@ + escaped_byte(b),
{
    if b == 9 {
        out.push('\\');
        out.push('t');
    } else if b == 13 {
        out.push('\\');
        out.push('r');
    } else if b == 10 {
        out.push('\\');
        out.push('n');
    } else if b == 39 {
        out.push('\\');
        out.push('\'');
    } else if b == 34 {
        out.push('\\');
        out.push('"');
    } else if b == 92 {
        out.push('\\');
        out.push('\\');
    } else if 0x20 <= b && b <= 0x7e {
        out.push(b as char);
    } else {
        out.push('\\');
        out.push('x');
        out.push(hex_digit(b / 16));
        out.push(hex_digit(b % 16));
    }
}

/// A byte slice that is shown as a byte string literal.
pub struct LiteralBytes<'a>(pub &'a [u8]);

impl<'a> LiteralBytes<'a> {
    /// The literal as a string: `b"`, the escaped bytes, `"`.
    pub fn to_string(&self) -> (r: String)
        ensures
            r@ == literal_text(self.0@),
    {
        let bytes = self.0;
        let mut out = String::new();
        out.push('b');
        out.push('"');
        let mut i: usize = 0;
        while i < bytes.len()
            invariant
                i <= bytes.len(),
                out@ == seq!['b', '"'] + escaped_bytes(bytes@.subrange(0, i as int)),
            decreases bytes.len() - i,
        {
            assert(bytes@.subrange(0, i + 1).drop_last() == bytes@.subrange(0, i as int));
            push_escaped_byte(&mut out, bytes[i]);
            i += 1;
        }
        assert(bytes@.subrange(0, i as int) == bytes@);
        out.push('"');
        out
    }
}

} // verus!
