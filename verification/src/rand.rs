//! Random alphanumeric names from a stream of random bytes.
//!
//! The bytes themselves come from the operating system; here each byte is
//! turned into a character and the alphanumeric ones are kept.

use vstd::prelude::*;
use crate::text::push_char;

verus! {

/// std's `char::is_alphanumeric` (Unicode `Alphabetic` or `Numeric`).
pub uninterp spec fn char_is_alphanumeric(c: char) -> bool;

/// Trusted: `char::is_alphanumeric`; which characters qualify is only named.
#[verifier::external_body]
fn is_alphanumeric(c: char) -> (r: bool)
    ensures
        r == char_is_alphanumeric(c),
{
    c.is_alphanumeric()
}

/// Trusted: `char::from_u32`, which std documents as returning the character
/// with that code point, and `None` for surrogates and values above
/// `0x10FFFF`.
#[verifier::external_body]
fn char_from_u32(i: u32) -> (r: Option<char>)
    ensures
        r is Some <==> (i < 0xD800 || (0xE000 <= i && i <= 0x10FFFF)),
        r matches Some(c) ==> c as u32 == i,
{
    char::from_u32(i)
}

/// Trusted: `u32::rotate_left`, which std documents as shifting left by `n`
/// and wrapping the shifted-out bits to the low end.
#[verifier::external_body]
fn rotate_left(x: u32, n: u32) -> (r: u32)
    requires
        0 < n < 32,
    ensures
        r == ((x << n) | (x >> ((32 - n) as u32))),
{
    x.rotate_left(n)
}

/// The character a random byte stands for (its Latin-1 code point).
pub open spec fn byte_char(b: u8) -> char {
    (b as u32) as char
}

/// The characters a stream of random bytes yields: each byte's character,
/// kept when it is alphanumeric.
pub open spec fn alphanum_chars(bytes: Seq<u8>) -> Seq<char>
    decreases bytes.len(),
{
    if bytes.len() == 0 {
        Seq::empty()
    } else {
        let rest = alphanum_chars(bytes.drop_last());
        let c = byte_char(bytes.last());
        if char_is_alphanumeric(c) {
            rest.push(c)
        } else {
            rest
        }
    }
}

/// The character for one random byte. Every byte is a valid code point, so
/// this never asks for another draw.
pub fn rand_char_from_rand_u8(byte: u8) -> (r: Option<char>)
    ensures
        r == Some(byte_char(byte)),
{
    let possible_value = char_from_u32(byte as u32);
    match possible_value {
        None => None,
        Some(c) => {
            proof {
                vstd::utf8::char_u32_cast(c, c as u32);
            }
            assert(c == byte_char(byte));
            Some(c)
        },
    }
}

/// The alphanumeric character for one random byte, or `None` when the byte
/// must be discarded and another drawn.
pub fn rand_alphanum(byte: u8) -> (r: Option<char>)
    ensures
        char_is_alphanumeric(byte_char(byte)) ==> r == Some(byte_char(byte)),
        !char_is_alphanumeric(byte_char(byte)) ==> r is None,
{
    let rand_char = rand_char_from_rand_u8(byte).unwrap();
    if is_alphanumeric(rand_char) {
        Some(rand_char)
    } else {
        None
    }
}

/// The characters of a prefix of the stream come first in those of the stream.
pub proof fn lemma_alphanum_prefix(bytes: Seq<u8>, i: int)
    requires
        0 <= i <= bytes.len(),
    ensures
        alphanum_chars(bytes.take(i)).len() <= alphanum_chars(bytes).len(),
        alphanum_chars(bytes).take(alphanum_chars(bytes.take(i)).len() as int) == alphanum_chars(
            bytes.take(i),
        ),
    decreases bytes.len(),
{
    if i == bytes.len() {
        assert(bytes.take(i) =~= bytes);
        assert(alphanum_chars(bytes).take(alphanum_chars(bytes).len() as int) =~= alphanum_chars(
            bytes,
        ));
    } else {
        let d = bytes.drop_last();
        assert(bytes.take(i) =~= d.take(i));
        lemma_alphanum_prefix(d, i);
        let p = alphanum_chars(d.take(i));
        let rest = alphanum_chars(d);
        if char_is_alphanumeric(byte_char(bytes.last())) {
            assert(rest.push(byte_char(bytes.last())).take(p.len() as int) =~= rest.take(
                p.len() as int,
            ));
        }
    }
}

/// Every character the stream yields is alphanumeric.
pub proof fn lemma_alphanum_chars_alphanumeric(bytes: Seq<u8>)
    ensures
        forall|i: int|
            0 <= i < alphanum_chars(bytes).len() ==> char_is_alphanumeric(
                #[trigger] alphanum_chars(bytes)[i],
            ),
    decreases bytes.len(),
{
    if bytes.len() > 0 {
        let rest = alphanum_chars(bytes.drop_last());
        lemma_alphanum_chars_alphanumeric(bytes.drop_last());
        assert forall|i: int| 0 <= i < alphanum_chars(bytes).len() implies char_is_alphanumeric(
            #[trigger] alphanum_chars(bytes)[i],
        ) by {
            if i < rest.len() {
                assert(alphanum_chars(bytes)[i] == rest[i]);
            }
        }
    }
}

/// A string of `length` alphanumeric characters made from `random_bytes`
/// (see `alphanum_chars`), or `None` when the bytes run out first.
pub fn rand_alphanum_string(length: u32, random_bytes: &Vec<u8>) -> (r: Option<String>)
    ensures
        r is Some <==> alphanum_chars(random_bytes@).len() >= length,
        r matches Some(s) ==> s@ == alphanum_chars(random_bytes@).take(length as int),
        r matches Some(s) ==> s@.len() == length,
        r matches Some(s) ==> forall|i: int| 0 <= i < s@.len() ==> char_is_alphanumeric(
            #[trigger] s@[i],
        ),
{
    let mut output = String::new();
    let mut produced: u32 = 0;
    let n = random_bytes.len();
    let mut i: usize = 0;
    assert(random_bytes@.take(0) =~= Seq::<u8>::empty());
    while produced < length && i < n
        invariant
            n == random_bytes@.len(),
            i <= n,
            produced <= length,
            output@.len() == produced,
            output@ == alphanum_chars(random_bytes@.take(i as int)),
        decreases n - i,
    {
        let ghost before = random_bytes@.take(i as int);
        assert(random_bytes@.take(i + 1).drop_last() =~= before);
        if let Some(c) = rand_alphanum(random_bytes[i]) {
            push_char(&mut output, c);
            produced = produced + 1;
        }
        i = i + 1;
    }
    proof {
        lemma_alphanum_prefix(random_bytes@, i as int);
    }
    if produced == length {
        proof {
            lemma_alphanum_chars_alphanumeric(random_bytes@);
        }
        Some(output)
    } else {
        assert(random_bytes@.take(i as int) =~= random_bytes@);
        None
    }
}

/// The big-endian number the four bytes spell.
pub open spec fn big_endian(b: Seq<u8>) -> int {
    b[0] * 0x1000000 + b[1] * 0x10000 + b[2] * 0x100 + b[3]
}

/// Distinct byte buffers give distinct numbers.
pub proof fn lemma_big_endian_injective(a: Seq<u8>, b: Seq<u8>)
    requires
        a.len() == 4,
        b.len() == 4,
        big_endian(a) == big_endian(b),
    ensures
        a == b,
{
    let (a0, a1, a2, a3) = (a[0] as int, a[1] as int, a[2] as int, a[3] as int);
    let (b0, b1, b2, b3) = (b[0] as int, b[1] as int, b[2] as int, b[3] as int);
    assert(a0 == b0 && a1 == b1 && a2 == b2 && a3 == b3) by (nonlinear_arith)
        requires
            0 <= a0 < 256,
            0 <= a1 < 256,
            0 <= a2 < 256,
            0 <= a3 < 256,
            0 <= b0 < 256,
            0 <= b1 < 256,
            0 <= b2 < 256,
            0 <= b3 < 256,
            a0 * 0x1000000 + a1 * 0x10000 + a2 * 0x100 + a3 == b0 * 0x1000000 + b1 * 0x10000 + b2
                * 0x100 + b3,
    ;
    assert(a =~= b);
}

/// Rotating a number below 2^24 left by a byte and or-ing in a byte appends
/// that byte.
proof fn lemma_rotate_or(x: u32, b: u32)
    by (bit_vector)
    requires
        x < 0x1000000,
        b < 0x100,
    ensures
        (((x << 8u32) | (x >> 24u32)) | b) == x * 256 + b,
{
}

/// A random `u32` from four random bytes: each step rotates the partial
/// result left by a byte and ors in the next one.
pub fn u32_from_random_bytes(buffer: [u8; 4]) -> (r: u32)
    ensures
        r == big_endian(buffer@),
{
    let mut output: u32 = 0;
    let mut i: usize = 0;
    while i < 4
        invariant
            i <= 4,
            output < (if i == 0 { 1int } else if i == 1 { 0x100int } else if i == 2 {
                0x10000int
            } else if i == 3 {
                0x1000000int
            } else {
                0x1_0000_0000int
            }),
            i == 1 ==> output == buffer@[0],
            i == 2 ==> output == buffer@[0] * 0x100 + buffer@[1],
            i == 3 ==> output == buffer@[0] * 0x10000 + buffer@[1] * 0x100 + buffer@[2],
            i == 4 ==> output == big_endian(buffer@),
            i == 0 ==> output == 0,
        decreases 4 - i,
    {
        let byte = buffer[i];
        let rotated = rotate_left(output, 8);
        proof {
            lemma_rotate_or(output, byte as u32);
        }
        output = rotated | (byte as u32);
        i = i + 1;
    }
    output
}

} // verus!
