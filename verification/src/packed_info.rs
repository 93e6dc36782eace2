//! The resource digest inside a message's packed information.
//!
//! The information is a serialised message whose second field holds a message
//! whose first field is the digest, as 32 hexadecimal characters. Those two
//! field headers are looked for first; without them, the first run of 32
//! hexadecimal characters is taken.

use vstd::prelude::*;

use crate::bytes::{find_subslice, first_occurrence, occurs_at};

verus! {

/// The two field headers before the digest.
pub open spec fn marker() -> Seq<u8> {
    seq![0x12u8, 0x22, 0x0a, 0x20]
}

/// Is the byte an ASCII hexadecimal digit?
pub open spec fn is_hex(b: u8) -> bool {
    ||| 0x30 <= b <= 0x39
    ||| 0x41 <= b <= 0x46
    ||| 0x61 <= b <= 0x66
}

/// Is the character a hexadecimal digit without capitals?
pub open spec fn is_lower_hex(c: char) -> bool {
    ||| '0' <= c <= '9'
    ||| 'a' <= c <= 'f'
}

/// The character of an ASCII letter or digit, a capital made small.
pub open spec fn lower(b: u8) -> char {
    if 0x41 <= b <= 0x5a {
        (b + 0x20) as char
    } else {
        b as char
    }
}

/// 32 hexadecimal digits stand at `at`.
pub open spec fn hex_run(blob: Seq<u8>, at: int) -> bool {
    &&& 0 <= at
    &&& at + 32 <= blob.len()
    &&& forall|i: int| at <= i < at + 32 ==> is_hex(#[trigger] blob[i])
}

/// The 32 characters at `at`, without capitals.
pub open spec fn digest_text(blob: Seq<u8>, at: int) -> Seq<char> {
    Seq::new(32, |i: int| lower(blob[at + i]))
}

/// The first pair of field headers stands right before `at`, and a digest stands
/// at `at`.
pub open spec fn marked_digest(blob: Seq<u8>, at: int) -> bool {
    first_occurrence(blob, marker(), at - 4) && hex_run(blob, at)
}

/// The digest of `blob` stands at `at`: behind the first field headers or, where
/// none stands there, at the first place with 32 hexadecimal digits.
pub open spec fn digest_at(blob: Seq<u8>, at: int) -> bool {
    ||| marked_digest(blob, at)
    ||| {
        &&& forall|m: int| !#[trigger] marked_digest(blob, m)
        &&& hex_run(blob, at)
        &&& forall|j: int| 0 <= j < at ==> !#[trigger] hex_run(blob, j)
    }
}

/// The digest that `blob` holds.
pub open spec fn packed_md5(blob: Seq<u8>) -> Option<Seq<char>> {
    if exists|at: int| digest_at(blob, at) {
        Some(digest_text(blob, choose|at: int| digest_at(blob, at)))
    } else {
        None
    }
}

/// Nothing holds two digests.
pub proof fn law_digest_is_unique(blob: Seq<u8>, a: int, b: int)
    requires
        digest_at(blob, a),
        digest_at(blob, b),
    ensures
        a == b,
        packed_md5(blob) == Some(digest_text(blob, a)),
{
    lemma_same_place(blob, a, b);
    let c = choose|at: int| digest_at(blob, at);
    lemma_same_place(blob, a, c);
}

proof fn lemma_same_place(blob: Seq<u8>, a: int, b: int)
    requires
        digest_at(blob, a),
        digest_at(blob, b),
    ensures
        a == b,
{
    if marked_digest(blob, a) {
        assert(marked_digest(blob, b));
        assert(occurs_at(blob, marker(), a - 4));
        assert(occurs_at(blob, marker(), b - 4));
    } else {
        assert(!marked_digest(blob, b));
        assert(hex_run(blob, a));
        assert(hex_run(blob, b));
    }
}

/// A digest is 32 hexadecimal digits without capitals.
pub proof fn law_digest_is_lower_hex(blob: Seq<u8>)
    ensures
        packed_md5(blob) matches Some(md5) ==> md5.len() == 32 && forall|i: int|
            0 <= i < md5.len() ==> is_lower_hex(#[trigger] md5[i]),
{
    if let Some(md5) = packed_md5(blob) {
        let at = choose|at: int| digest_at(blob, at);
        assert(hex_run(blob, at));
        assert forall|i: int| 0 <= i < 32 implies is_lower_hex(#[trigger] md5[i]) by {
            assert(is_hex(blob[at + i]));
        }
    }
}

/// Tells whether 32 hexadecimal digits stand at `at`.
fn is_hex_run(blob: &[u8], at: usize) -> (run: bool)
    requires
        at <= blob@.len(),
    ensures
        run == hex_run(blob@, at as int),
{
    let n: usize = blob.len();
    if n - at < 32 {
        return false;
    }
    let mut i: usize = 0;
    while i < 32
        invariant
            i <= 32,
            at + 32 <= n,
            n == blob@.len(),
            forall|j: int| at <= j < at + i ==> is_hex(#[trigger] blob@[j]),
        decreases 32 - i,
    {
        let b: u8 = blob[at + i];
        let hex = (0x30 <= b && b <= 0x39) || (0x41 <= b && b <= 0x46) || (0x61 <= b && b <= 0x66);
        if !hex {
            assert(!is_hex(blob@[at + i]));
            return false;
        }
        i += 1;
    }
    true
}

/// The digest at `at`, without capitals.
fn read_digest(blob: &[u8], at: usize) -> (md5: String)
    requires
        hex_run(blob@, at as int),
    ensures
        md5@ == digest_text(blob@, at as int),
{
    let n: usize = blob.len();
    let mut md5 = String::new();
    let mut i: usize = 0;
    while i < 32
        invariant
            i <= 32,
            at + 32 <= n,
            n == blob@.len(),
            md5@ == digest_text(blob@, at as int).take(i as int),
        decreases 32 - i,
    {
        let b: u8 = blob[at + i];
        let c = if 0x41 <= b && b <= 0x5a {
            (b + 0x20) as char
        } else {
            b as char
        };
        md5.push(c);
        i += 1;
        assert(md5@ =~= digest_text(blob@, at as int).take(i as int));
    }
    assert(digest_text(blob@, at as int).take(32) =~= digest_text(blob@, at as int));
    md5
}

/// Extracts the digest from a message's packed information, without capitals.
pub fn extract_md5_from_packed_info(blob: &[u8]) -> (md5: Option<String>)
    ensures
        match md5 {
            Some(text) => {
                &&& packed_md5(blob@) == Some(text@)
                &&& exists|at: int| #[trigger]
                    digest_at(blob@, at) && text@ == digest_text(blob@, at)
            },
            None => packed_md5(blob@) is None && forall|at: int| !#[trigger] digest_at(blob@, at),
        },
{
    let n: usize = blob.len();
    let headers: [u8; 4] = [0x12, 0x22, 0x0a, 0x20];
    assert(headers@ =~= marker());
    let found = find_subslice(blob, headers.as_slice());
    if let Some(pos) = found {
        let at: usize = pos + 4;
        if is_hex_run(blob, at) {
            assert(digest_at(blob@, at as int));
            proof {
                law_digest_is_unique(blob@, at as int, at as int);
            }
            return Some(read_digest(blob, at));
        }
    }
    assert forall|m: int| !#[trigger] marked_digest(blob@, m) by {
        if marked_digest(blob@, m) {
            assert(occurs_at(blob@, marker(), m - 4));
            if let Some(pos) = found {
                assert(occurs_at(blob@, marker(), pos as int));
            }
        }
    }
    if n >= 32 {
        let last: usize = n - 32;
        let mut at: usize = 0;
        while at <= last
            invariant
                at <= last + 1,
                last == n - 32,
                n == blob@.len(),
                forall|m: int| !#[trigger] marked_digest(blob@, m),
                forall|j: int| 0 <= j < at ==> !#[trigger] hex_run(blob@, j),
            decreases last + 1 - at,
        {
            if is_hex_run(blob, at) {
                assert(digest_at(blob@, at as int));
                proof {
                    law_digest_is_unique(blob@, at as int, at as int);
                }
                return Some(read_digest(blob, at));
            }
            at += 1;
        }
    }
    assert forall|at: int| !#[trigger] digest_at(blob@, at) by {
        assert(!marked_digest(blob@, at));
        assert(!hex_run(blob@, at));
    }
    None
}

// ---------------------------------------------------------------------------
// What is found
// ---------------------------------------------------------------------------

/// A byte is one of `0` to `9`, `A` to `F` or `a` to `f`.
pub proof fn law_is_hex(b: u8)
    ensures
        is_hex(b) <==> exists|v: int|
            0 <= v < 16 && (b as int == #[trigger] hex_letter(v) || b as int == hex_letter(v)
                - if v >= 10 {
                0x20int
            } else {
                0
            }),
{
    if is_hex(b) {
        let v = if b <= 0x39 {
            b - 0x30
        } else if b <= 0x46 {
            b - 0x41 + 10
        } else {
            b - 0x61 + 10
        };
        assert(0 <= v < 16);
        assert(b as int == hex_letter(v) || b as int == hex_letter(v) - if v >= 10 {
            0x20int
        } else {
            0
        });
    }
}

/// The code of the hexadecimal digit of a number below 16, without capitals.
pub open spec fn hex_letter(v: int) -> int {
    if v < 10 {
        0x30 + v
    } else {
        0x61 + v - 10
    }
}

/// A capital hexadecimal digit counts as the small one, and a small one as itself.
pub proof fn law_lower(v: int)
    requires
        0 <= v < 16,
    ensures
        lower(hex_letter(v) as u8) as int == hex_letter(v),
        v >= 10 ==> lower((hex_letter(v) - 0x20) as u8) as int == hex_letter(v),
{
}

/// The digest behind the first field headers is taken as it stands, without
/// capitals, whatever stands before the headers and behind the digest.
pub proof fn law_marked_digest(before: Seq<u8>, digits: Seq<u8>, behind: Seq<u8>)
    requires
        digits.len() == 32,
        forall|i: int|
            0 <= i < 32 ==> 0x30 <= #[trigger] digits[i] <= 0x39 || 0x41 <= digits[i] <= 0x46
                || 0x61 <= digits[i] <= 0x66,
        first_occurrence(
            before + seq![0x12u8, 0x22, 0x0a, 0x20] + digits + behind,
            seq![0x12u8, 0x22, 0x0a, 0x20],
            before.len() as int,
        ),
    ensures
        packed_md5(before + seq![0x12u8, 0x22, 0x0a, 0x20] + digits + behind) matches Some(md5)
            && md5.len() == 32 && forall|i: int|
            0 <= i < 32 ==> #[trigger] md5[i] as int == if 0x41 <= digits[i] <= 0x46 {
                digits[i] + 0x20
            } else {
                digits[i] as int
            },
{
    let blob = before + seq![0x12u8, 0x22, 0x0a, 0x20] + digits + behind;
    let at = before.len() as int + 4;
    assert(marker() =~= seq![0x12u8, 0x22, 0x0a, 0x20]);
    assert forall|i: int| at <= i < at + 32 implies is_hex(#[trigger] blob[i]) by {
        assert(blob[i] == digits[i - at]);
    }
    assert(digest_at(blob, at));
    law_digest_is_unique(blob, at, at);
    assert forall|i: int| 0 <= i < 32 implies #[trigger] digest_text(blob, at)[i] as int == if 0x41
        <= digits[i] <= 0x46 {
        digits[i] + 0x20
    } else {
        digits[i] as int
    } by {
        assert(blob[at + i] == digits[i]);
    }
}

/// Where no digest stands behind field headers, the first 32 hexadecimal digits in
/// a row are taken, wherever they stand, without capitals.
pub proof fn law_first_run_of_digits(blob: Seq<u8>, at: int)
    requires
        0 <= at,
        at + 32 <= blob.len(),
        forall|i: int|
            at <= i < at + 32 ==> 0x30 <= #[trigger] blob[i] <= 0x39 || 0x41 <= blob[i] <= 0x46
                || 0x61 <= blob[i] <= 0x66,
        forall|j: int| 0 <= j < at ==> !#[trigger] hex_run(blob, j),
        forall|m: int| !#[trigger] occurs_at(blob, marker(), m),
    ensures
        packed_md5(blob) matches Some(md5) && md5.len() == 32 && forall|i: int|
            0 <= i < 32 ==> #[trigger] md5[i] as int == if 0x41 <= blob[at + i] <= 0x46 {
                blob[at + i] + 0x20
            } else {
                blob[at + i] as int
            },
{
    assert forall|i: int| at <= i < at + 32 implies is_hex(#[trigger] blob[i]) by {}
    assert(hex_run(blob, at));
    assert forall|m: int| !#[trigger] marked_digest(blob, m) by {
        assert(!occurs_at(blob, marker(), m - 4));
    }
    assert(digest_at(blob, at));
    law_digest_is_unique(blob, at, at);
}

/// Of the 32 bytes at `at`, one is no hexadecimal digit.
pub open spec fn run_is_broken(blob: Seq<u8>, at: int) -> bool {
    exists|i: int|
        at <= i < at + 32 && !(0x30 <= #[trigger] blob[i] <= 0x39 || 0x41 <= blob[i] <= 0x46 || 0x61
            <= blob[i] <= 0x66)
}

/// Nothing is found exactly where there are no 32 hexadecimal digits in a row.
pub proof fn law_no_digest(blob: Seq<u8>)
    ensures
        packed_md5(blob) is None <==> forall|at: int|
            0 <= at && at + 32 <= blob.len() ==> #[trigger] run_is_broken(blob, at),
{
    if packed_md5(blob) is None {
        assert forall|at: int| 0 <= at && at + 32 <= blob.len() implies #[trigger] run_is_broken(
            blob,
            at,
        ) by {
            if hex_run(blob, at) {
                lemma_some_digest(blob, at);
            }
            let i = choose|i: int| at <= i < at + 32 && !is_hex(#[trigger] blob[i]);
            assert(!(0x30 <= blob[i] <= 0x39 || 0x41 <= blob[i] <= 0x46 || 0x61 <= blob[i] <= 0x66));
        }
    } else {
        let at = choose|at: int| digest_at(blob, at);
        assert(hex_run(blob, at));
        assert(!run_is_broken(blob, at)) by {
            assert forall|i: int| at <= i < at + 32 implies (0x30 <= #[trigger] blob[i] <= 0x39
                || 0x41 <= blob[i] <= 0x46 || 0x61 <= blob[i] <= 0x66) by {
                assert(is_hex(blob[i]));
            }
        }
    }
}

proof fn lemma_some_digest(blob: Seq<u8>, at: int)
    requires
        hex_run(blob, at),
    ensures
        packed_md5(blob) is Some,
    decreases at,
{
    if exists|m: int| #[trigger] marked_digest(blob, m) {
        let m = choose|m: int| #[trigger] marked_digest(blob, m);
        assert(digest_at(blob, m));
    } else if exists|j: int| 0 <= j < at && #[trigger] hex_run(blob, j) {
        let j = choose|j: int| 0 <= j < at && #[trigger] hex_run(blob, j);
        lemma_some_digest(blob, j);
    } else {
        assert(digest_at(blob, at));
    }
}

} // verus!
