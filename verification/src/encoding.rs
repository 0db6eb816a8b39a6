//! Base64, as basic authentication credentials are encoded.

use vstd::prelude::*;

verus! {

/// The base64 alphabet: the character standing for a six-bit value.
pub open spec fn b64_char(v: u8) -> char
    recommends
        v < 64,
{
    if v < 26 {
        ((('A' as u8) + v) as u8) as char
    } else if v < 52 {
        ((('a' as u8) + (v - 26)) as u8) as char
    } else if v < 62 {
        ((('0' as u8) + (v - 52)) as u8) as char
    } else if v == 62 {
        '+'
    } else {
        '/'
    }
}

/// The base64 encoding of a byte sequence: four characters for every
/// three bytes, a short final group padded with `=`.
pub open spec fn base64_of(bytes: Seq<u8>) -> Seq<char>
    decreases bytes.len(),
{
    if bytes.len() == 0 {
        Seq::empty()
    } else if bytes.len() == 1 {
        let b0 = bytes[0];
        seq![b64_char((b0 / 4) as u8), b64_char(((b0 % 4) * 16) as u8), '=', '=']
    } else if bytes.len() == 2 {
        let b0 = bytes[0];
        let b1 = bytes[1];
        seq![
            b64_char((b0 / 4) as u8),
            b64_char(((b0 % 4) * 16 + b1 / 16) as u8),
            b64_char(((b1 % 16) * 4) as u8),
            '=',
        ]
    } else {
        let b0 = bytes[0];
        let b1 = bytes[1];
        let b2 = bytes[2];
        seq![
            b64_char((b0 / 4) as u8),
            b64_char(((b0 % 4) * 16 + b1 / 16) as u8),
            b64_char(((b1 % 16) * 4 + b2 / 64) as u8),
            b64_char((b2 % 64) as u8),
        ] + base64_of(bytes.skip(3))
    }
}

/// The byte of the alphabet character for a six-bit value.
fn b64_byte(v: u8) -> (r: u8)
    requires
        v < 64,
    ensures
        r as char == b64_char(v),
        r < 128,
{
    if v < 26 {
        ('A' as u8) + v
    } else if v < 52 {
        ('a' as u8) + (v - 26)
    } else if v < 62 {
        ('0' as u8) + (v - 52)
    } else if v == 62 {
        '+' as u8
    } else {
        '/' as u8
    }
}

/// Encodes a byte sequence as the ASCII bytes of its base64 form.
fn base64_ascii(bytes: &[u8]) -> (out: Vec<u8>)
    ensures
        out@.map_values(|b: u8| b as char) == base64_of(bytes@),
        forall|t: int| 0 <= t < out@.len() ==> out@[t] < 128,
{
    let n = bytes.len();
    let mut out: Vec<u8> = Vec::new();
    let mut i: usize = 0;
    proof {
        assert(out@.map_values(|b: u8| b as char) =~= Seq::<char>::empty());
        assert(bytes@.skip(0) =~= bytes@);
    }
    while n - i >= 3
        invariant
            i <= n,
            n == bytes@.len(),
            forall|t: int| 0 <= t < out@.len() ==> out@[t] < 128,
            out@.map_values(|b: u8| b as char) + base64_of(bytes@.skip(i as int)) == base64_of(
                bytes@,
            ),
        decreases n - i,
    {
        let ghost prior = out@.map_values(|b: u8| b as char);
        let b0 = bytes[i];
        let b1 = bytes[i + 1];
        let b2 = bytes[i + 2];
        let c0 = b64_byte(b0 / 4);
        let c1 = b64_byte((b0 % 4) * 16 + b1 / 16);
        let c2 = b64_byte((b1 % 16) * 4 + b2 / 64);
        let c3 = b64_byte(b2 % 64);
        out.push(c0);
        out.push(c1);
        out.push(c2);
        out.push(c3);
        proof {
            let group = seq![c0 as char, c1 as char, c2 as char, c3 as char];
            assert(out@.map_values(|b: u8| b as char) =~= prior + group);
            assert(bytes@.skip(i as int).skip(3) =~= bytes@.skip(i + 3));
            assert(base64_of(bytes@.skip(i as int)) == group + base64_of(bytes@.skip(i + 3)));
            assert(prior + group + base64_of(bytes@.skip(i + 3)) =~= prior + (group + base64_of(
                bytes@.skip(i + 3),
            )));
        }
        i += 3;
    }
    let ghost prior = out@.map_values(|b: u8| b as char);
    if n - i == 1 {
        let b0 = bytes[i];
        let c0 = b64_byte(b0 / 4);
        let c1 = b64_byte((b0 % 4) * 16);
        out.push(c0);
        out.push(c1);
        out.push('=' as u8);
        out.push('=' as u8);
        proof {
            assert(('=' as u8) as char == '=');
            assert(out@.map_values(|b: u8| b as char) =~= prior + base64_of(
                bytes@.skip(i as int),
            ));
        }
    } else if n - i == 2 {
        let b0 = bytes[i];
        let b1 = bytes[i + 1];
        let c0 = b64_byte(b0 / 4);
        let c1 = b64_byte((b0 % 4) * 16 + b1 / 16);
        let c2 = b64_byte((b1 % 16) * 4);
        out.push(c0);
        out.push(c1);
        out.push(c2);
        out.push('=' as u8);
        proof {
            assert(('=' as u8) as char == '=');
            assert(out@.map_values(|b: u8| b as char) =~= prior + base64_of(
                bytes@.skip(i as int),
            ));
        }
    } else {
        proof {
            assert(bytes@.skip(i as int).len() == 0);
            assert(out@.map_values(|b: u8| b as char) =~= prior + base64_of(
                bytes@.skip(i as int),
            ));
        }
    }
    out
}

/// Relies on String::from_utf8: a sequence of ASCII bytes is valid UTF-8
/// and decodes to exactly those code points.
#[verifier::external_body]
fn ascii_to_string(bytes: Vec<u8>) -> (r: String)
    requires
        forall|t: int| 0 <= t < bytes@.len() ==> bytes@[t] < 128,
    ensures
        r@ == bytes@.map_values(|b: u8| b as char),
{
    match String::from_utf8(bytes) {
        Ok(s) => s,
        Err(_) => String::new(),
    }
}

/// The base64 encoding of a byte sequence, as a string.
pub fn base64_string(bytes: &[u8]) -> (r: String)
    ensures
        r@ == base64_of(bytes@),
{
    let ascii = base64_ascii(bytes);
    ascii_to_string(ascii)
}

} // verus!
