//! Decoding of the hexadecimal HID report descriptor that is written into
//! the kernel's gadget configuration tree. The filesystem writes themselves
//! are unverified shell work around the library; the descriptor bytes are
//! computed here.

use vstd::prelude::*;

verus! {

/// The numeric value of one ASCII hexadecimal digit, or 16 for any byte
/// that is no hexadecimal digit.
pub open spec fn hex_digit_value(b: u8) -> int {
    if 0x30 <= b <= 0x39 {
        b - 0x30
    } else if 0x41 <= b <= 0x46 {
        b - 0x41 + 10
    } else if 0x61 <= b <= 0x66 {
        b - 0x61 + 10
    } else {
        16
    }
}

/// Whether a byte is an ASCII hexadecimal digit.
pub open spec fn is_hex_digit(b: u8) -> bool {
    hex_digit_value(b) < 16
}

/// Whether every byte of a string is a hexadecimal digit.
pub open spec fn all_hex_digits(s: Seq<u8>) -> bool {
    forall|i: int| 0 <= i < s.len() ==> is_hex_digit(#[trigger] s[i])
}

/// The bytes an even-length hexadecimal string denotes: each pair of
/// digits one byte, high digit first.
pub open spec fn hex_bytes_spec(s: Seq<u8>) -> Seq<u8>
    decreases s.len(),
{
    if s.len() < 2 {
        Seq::empty()
    } else {
        seq![(hex_digit_value(s[0]) * 16 + hex_digit_value(s[1])) as u8] + hex_bytes_spec(
            s.skip(2),
        )
    }
}

/// A string with its blanks removed, in order.
pub open spec fn strip_spaces_spec(s: Seq<u8>) -> Seq<u8>
    decreases s.len(),
{
    if s.len() == 0 {
        Seq::empty()
    } else if s.last() == 0x20 {
        strip_spaces_spec(s.drop_last())
    } else {
        strip_spaces_spec(s.drop_last()).push(s.last())
    }
}

/// The numeric value of one hexadecimal digit at run time, or 16 for any
/// other byte.
fn hex_digit(b: u8) -> (r: u8)
    ensures
        r == hex_digit_value(b),
{
    if 0x30 <= b && b <= 0x39 {
        b - 0x30
    } else if 0x41 <= b && b <= 0x46 {
        b - 0x41 + 10
    } else if 0x61 <= b && b <= 0x66 {
        b - 0x61 + 10
    } else {
        16
    }
}

/// Decode an even-length hexadecimal string into its bytes. Fails exactly
/// on a string of odd length or with a byte that is no hexadecimal digit.
pub fn decode_hex(input: &Vec<u8>) -> (r: Option<Vec<u8>>)
    ensures
        match r {
            Some(bytes) => input@.len() % 2 == 0 && all_hex_digits(input@) && bytes@
                == hex_bytes_spec(input@),
            None => input@.len() % 2 != 0 || !all_hex_digits(input@),
        },
{
    if input.len() % 2 != 0 {
        return None;
    }
    let mut out: Vec<u8> = Vec::new();
    let mut i: usize = 0;
    while i < input.len()
        invariant
            0 <= i <= input@.len(),
            i % 2 == 0,
            input@.len() % 2 == 0,
            forall|k: int| 0 <= k < i ==> is_hex_digit(#[trigger] input@[k]),
            out@ == hex_bytes_spec(input@.take(i as int)),
        decreases input@.len() - i,
    {
        let hi: u8 = hex_digit(input[i]);
        let lo: u8 = hex_digit(input[i + 1]);
        if hi >= 16 || lo >= 16 {
            return None;
        }
        out.push(hi * 16 + lo);
        proof {
            lemma_hex_bytes_step(input@, i as int);
        }
        i = i + 2;
    }
    proof {
        assert(input@.take(input@.len() as int) =~= input@);
    }
    Some(out)
}

/// Extending an even-length prefix by one digit pair appends one byte.
proof fn lemma_hex_bytes_step(s: Seq<u8>, i: int)
    requires
        0 <= i,
        i + 2 <= s.len(),
        i % 2 == 0,
    ensures
        hex_bytes_spec(s.take(i + 2)) == hex_bytes_spec(s.take(i)).push(
            (hex_digit_value(s[i]) * 16 + hex_digit_value(s[i + 1])) as u8,
        ),
    decreases i,
{
    if i == 0 {
        assert(s.take(2).skip(2) =~= s.take(0));
        assert(hex_bytes_spec(s.take(0)) =~= Seq::<u8>::empty());
        assert(hex_bytes_spec(s.take(2)) =~= seq![
            (hex_digit_value(s[0]) * 16 + hex_digit_value(s[1])) as u8,
        ]);
        assert(hex_bytes_spec(s.take(2)) =~= hex_bytes_spec(s.take(0)).push(
            (hex_digit_value(s[0]) * 16 + hex_digit_value(s[1])) as u8,
        ));
    } else {
        lemma_hex_bytes_step(s.skip(2), i - 2);
        assert(s.take(i + 2).skip(2) =~= s.skip(2).take(i));
        assert(s.take(i).skip(2) =~= s.skip(2).take(i - 2));
        assert(s.skip(2)[i - 2] == s[i] && s.skip(2)[i - 1] == s[i + 1]);
    }
}

/// Remove every blank from a byte string at run time.
pub fn strip_spaces(input: &Vec<u8>) -> (r: Vec<u8>)
    ensures
        r@ == strip_spaces_spec(input@),
{
    let mut out: Vec<u8> = Vec::new();
    let mut i: usize = 0;
    while i < input.len()
        invariant
            0 <= i <= input@.len(),
            out@ == strip_spaces_spec(input@.take(i as int)),
        decreases input@.len() - i,
    {
        let b: u8 = input[i];
        proof {
            assert(input@.take(i as int + 1).drop_last() =~= input@.take(i as int));
            assert(input@.take(i as int + 1).last() == input@[i as int]);
        }
        if b != 0x20 {
            out.push(b);
        }
        i = i + 1;
    }
    proof {
        assert(input@.take(input@.len() as int) =~= input@);
    }
    out
}

/// Decode the descriptor text as it stands in its source file: blanks are
/// ignored, and the digits that remain must form an even-length
/// hexadecimal string. Fails exactly when they do not.
pub fn decode_descriptor(input: &Vec<u8>) -> (r: Option<Vec<u8>>)
    ensures
        ({
            let digits = strip_spaces_spec(input@);
            match r {
                Some(bytes) => digits.len() % 2 == 0 && all_hex_digits(digits) && bytes@
                    == hex_bytes_spec(digits),
                None => digits.len() % 2 != 0 || !all_hex_digits(digits),
            }
        }),
{
    let digits = strip_spaces(input);
    decode_hex(&digits)
}

} // verus!
