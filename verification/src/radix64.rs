//! Base64 without padding.
use vstd::prelude::*;

verus! {

/// The two alphabets of base64.
pub enum Alphabet {
    /// With `+` and `/`.
    Standard,
    /// With `-` and `_`, which can stand in a URL as they are.
    UrlSafe,
}

/// The digit for a number below 64.
pub open spec fn digit(n: nat, alphabet: Alphabet) -> char {
    if n < 26 {
        ('A' as nat + n) as char
    } else if n < 52 {
        ('a' as nat + n - 26) as char
    } else if n < 62 {
        ('0' as nat + n - 52) as char
    } else {
        match (n == 62, alphabet) {
            (true, Alphabet::Standard) => '+',
            (true, Alphabet::UrlSafe) => '-',
            (false, Alphabet::Standard) => '/',
            (false, Alphabet::UrlSafe) => '_',
        }
    }
}

/// Bytes in base64: four digits for three bytes, and two or three digits for
/// one or two bytes at the end.
pub open spec fn base64_text(bytes: Seq<u8>, alphabet: Alphabet) -> Seq<char>
    decreases bytes.len(),
{
    if bytes.len() == 0 {
        Seq::empty()
    } else if bytes.len() == 1 {
        seq![digit((bytes[0] / 4) as nat, alphabet), digit((bytes[0] % 4 * 16) as nat, alphabet)]
    } else if bytes.len() == 2 {
        seq![
            digit((bytes[0] / 4) as nat, alphabet),
            digit((bytes[0] % 4 * 16 + bytes[1] / 16) as nat, alphabet),
            digit((bytes[1] % 16 * 4) as nat, alphabet),
        ]
    } else {
        seq![
            digit((bytes[0] / 4) as nat, alphabet),
            digit((bytes[0] % 4 * 16 + bytes[1] / 16) as nat, alphabet),
            digit((bytes[1] % 16 * 4 + bytes[2] / 64) as nat, alphabet),
            digit((bytes[2] % 64) as nat, alphabet),
        ] + base64_text(bytes.skip(3), alphabet)
    }
}

/// The number that a digit stands for.
pub open spec fn digit_value(c: char) -> nat {
    if 'A' <= c <= 'Z' {
        (c as nat - 'A' as nat) as nat
    } else if 'a' <= c <= 'z' {
        (c as nat - 'a' as nat + 26) as nat
    } else if '0' <= c <= '9' {
        (c as nat - '0' as nat + 52) as nat
    } else if c == '+' || c == '-' {
        62
    } else {
        63
    }
}

/// The first of the three bytes that four numbers below 64 stand for.
pub open spec fn first_byte(a: nat, b: nat) -> u8 {
    (a * 4 + b / 16) as u8
}

/// The second of the three bytes that four numbers below 64 stand for.
pub open spec fn second_byte(b: nat, c: nat) -> u8 {
    (b % 16 * 16 + c / 4) as u8
}

/// The third of the three bytes that four numbers below 64 stand for.
pub open spec fn third_byte(c: nat, d: nat) -> u8 {
    (c % 4 * 64 + d) as u8
}

/// The bytes that a text in base64 stands for.
pub open spec fn base64_bytes(text: Seq<char>) -> Seq<u8>
    decreases text.len(),
{
    if text.len() < 2 {
        Seq::empty()
    } else if text.len() == 2 {
        seq![first_byte(digit_value(text[0]), digit_value(text[1]))]
    } else if text.len() == 3 {
        seq![
            first_byte(digit_value(text[0]), digit_value(text[1])),
            second_byte(digit_value(text[1]), digit_value(text[2])),
        ]
    } else {
        seq![
            first_byte(digit_value(text[0]), digit_value(text[1])),
            second_byte(digit_value(text[1]), digit_value(text[2])),
            third_byte(digit_value(text[2]), digit_value(text[3])),
        ] + base64_bytes(text.skip(4))
    }
}

/// The number of a digit, read back.
proof fn lemma_digit(n: nat, alphabet: Alphabet)
    requires
        n < 64,
    ensures
        digit_value(digit(n, alphabet)) == n,
{
}

/// Three bytes cut into four numbers, put together again.
proof fn lemma_three_bytes(x: u8, y: u8, z: u8)
    ensures
        first_byte((x / 4) as nat, (x % 4 * 16 + y / 16) as nat) == x,
        second_byte((x % 4 * 16 + y / 16) as nat, (y % 16 * 4 + z / 64) as nat) == y,
        third_byte((y % 16 * 4 + z / 64) as nat, (z % 64) as nat) == z,
{
    assert((x % 4 * 16 + y / 16) / 16 == x % 4 && (x % 4 * 16 + y / 16) % 16 == y / 16);
    assert((y % 16 * 4 + z / 64) / 4 == y % 16 && (y % 16 * 4 + z / 64) % 4 == z / 64);
}

/// A text in base64 does not end in padding.
pub proof fn lemma_ends_in_digit(bytes: Seq<u8>, alphabet: Alphabet)
    ensures
        base64_text(bytes, alphabet).len() > 0 ==> base64_text(bytes, alphabet).last() != '=',
    decreases bytes.len(),
{
    if bytes.len() > 3 {
        lemma_ends_in_digit(bytes.skip(3), alphabet);
    } else if bytes.len() == 3 {
        assert(base64_text(bytes.skip(3), alphabet) =~= Seq::empty());
    }
}

/// What is written in base64 is read back, in either alphabet: no two byte
/// sequences have the same text.
pub proof fn lemma_base64_reads_back(bytes: Seq<u8>, alphabet: Alphabet)
    ensures
        base64_bytes(base64_text(bytes, alphabet)) == bytes,
    decreases bytes.len(),
{
    let text = base64_text(bytes, alphabet);
    if bytes.len() == 0 {
        assert(base64_bytes(text) =~= bytes);
    } else if bytes.len() == 1 {
        let x = bytes[0];
        lemma_three_bytes(x, 0, 0);
        lemma_digit((x / 4) as nat, alphabet);
        lemma_digit((x % 4 * 16) as nat, alphabet);
        assert(base64_bytes(text) =~= seq![x]);
        assert(bytes =~= seq![x]);
    } else if bytes.len() == 2 {
        let (x, y) = (bytes[0], bytes[1]);
        lemma_three_bytes(x, y, 0);
        lemma_digit((x / 4) as nat, alphabet);
        lemma_digit((x % 4 * 16 + y / 16) as nat, alphabet);
        lemma_digit((y % 16 * 4) as nat, alphabet);
        assert(base64_bytes(text) =~= seq![x, y]);
        assert(bytes =~= seq![x, y]);
    } else {
        let (x, y, z) = (bytes[0], bytes[1], bytes[2]);
        lemma_three_bytes(x, y, z);
        lemma_digit((x / 4) as nat, alphabet);
        lemma_digit((x % 4 * 16 + y / 16) as nat, alphabet);
        lemma_digit((y % 16 * 4 + z / 64) as nat, alphabet);
        lemma_digit((z % 64) as nat, alphabet);
        lemma_base64_reads_back(bytes.skip(3), alphabet);
        let rest = base64_text(bytes.skip(3), alphabet);
        assert(text.len() == 4 + rest.len());
        assert(text.skip(4) =~= rest);
        assert(base64_bytes(text) =~= seq![x, y, z] + bytes.skip(3));
        assert(bytes =~= seq![x, y, z] + bytes.skip(3));
    }
}

} // verus!
