//! Digests and their hexadecimal text.

use vstd::prelude::*;

verus! {

/// The MD5 digest of some bytes.
pub uninterp spec fn md5_digest(data: Seq<u8>) -> Seq<u8>;

/// Computes an MD5 digest.
///
/// It calls `md5::compute`, whose result depends on the given bytes alone. What
/// the algorithm computes is not said here.
#[verifier::external_body]
fn md5_compute(data: &[u8]) -> (digest: [u8; 16])
    ensures
        digest@ == md5_digest(data@),
{
    md5::compute(data).0
}

/// The hexadecimal digit of a number below 16, without capitals.
pub open spec fn hex_digit(n: int) -> char {
    if n < 10 {
        (('0' as int) + n) as char
    } else {
        (('a' as int) + n - 10) as char
    }
}

/// Bytes in hexadecimal, two digits each.
pub open spec fn hex(data: Seq<u8>) -> Seq<char> {
    Seq::new(
        2 * data.len(),
        |i: int|
            hex_digit(
                if i % 2 == 0 {
                    data[i / 2] as int / 16
                } else {
                    data[i / 2] as int % 16
                },
            ),
    )
}

/// The hexadecimal digit of a number below 16.
fn hex_char(n: u8) -> (c: char)
    requires
        n < 16,
    ensures
        c == hex_digit(n as int),
{
    if n < 10 {
        (0x30u8 + n) as char
    } else {
        (0x61u8 + (n - 10)) as char
    }
}

/// Writes bytes in hexadecimal.
pub fn hex_text(data: &[u8]) -> (text: String)
    ensures
        text@ == hex(data@),
{
    let mut text = String::new();
    let mut i: usize = 0;
    while i < data.len()
        invariant
            i <= data@.len(),
            text@ == hex(data@).take(2 * i),
        decreases data@.len() - i,
    {
        text.push(hex_char(data[i] / 16));
        text.push(hex_char(data[i] % 16));
        i += 1;
        assert(text@ =~= hex(data@).take(2 * i));
    }
    assert(hex(data@).take(2 * data@.len() as int) =~= hex(data@));
    text
}

/// The MD5 digest of a text, in hexadecimal.
pub fn md5_hex(text: &str) -> (digest: String)
    ensures
        digest@ == hex(md5_digest(vstd::utf8::encode_utf8(text@))),
        digest@.len() == 32,
{
    let digest = md5_compute(text.as_bytes());
    hex_text(digest.as_slice())
}

/// The number that a hexadecimal digit without capitals stands for.
pub open spec fn hex_value(c: char) -> int {
    if '0' <= c <= '9' {
        c as int - '0' as int
    } else {
        c as int - 'a' as int + 10
    }
}

/// Each byte is read back from its two hexadecimal digits, which have no capitals,
/// so that different bytes have different texts.
pub proof fn law_hex_is_read_back(data: Seq<u8>, i: int)
    requires
        0 <= i < data.len(),
    ensures
        hex(data).len() == 2 * data.len(),
        '0' <= hex(data)[2 * i] <= '9' || 'a' <= hex(data)[2 * i] <= 'f',
        '0' <= hex(data)[2 * i + 1] <= '9' || 'a' <= hex(data)[2 * i + 1] <= 'f',
        hex_value(hex(data)[2 * i]) * 16 + hex_value(hex(data)[2 * i + 1]) == data[i],
{
    assert((2 * i) / 2 == i && (2 * i) % 2 == 0);
    assert((2 * i + 1) / 2 == i && (2 * i + 1) % 2 == 1);
    let high = data[i] as int / 16;
    let low = data[i] as int % 16;
    assert(0 <= high < 16 && 0 <= low < 16);
    assert(hex(data)[2 * i] == hex_digit(high));
    assert(hex(data)[2 * i + 1] == hex_digit(low));
}

} // verus!
