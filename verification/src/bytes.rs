//! Searching and reading byte strings.

use vstd::prelude::*;

verus! {

/// Does `needle` stand in `haystack` at position `at`?
pub open spec fn occurs_at(haystack: Seq<u8>, needle: Seq<u8>, at: int) -> bool {
    &&& 0 <= at
    &&& at + needle.len() <= haystack.len()
    &&& haystack.subrange(at, at + needle.len()) == needle
}

/// `at` is the lowest position at which `needle` stands in `haystack`.
pub open spec fn first_occurrence(haystack: Seq<u8>, needle: Seq<u8>, at: int) -> bool {
    &&& occurs_at(haystack, needle, at)
    &&& forall|j: int| 0 <= j < at ==> !#[trigger] occurs_at(haystack, needle, j)
}

/// Compares `needle` with the bytes of `haystack` that start at `at`.
pub fn matches_at(haystack: &[u8], needle: &[u8], at: usize) -> (found: bool)
    ensures
        found == occurs_at(haystack@, needle@, at as int),
{
    if at > haystack.len() || needle.len() > haystack.len() - at {
        return false;
    }
    let mut i: usize = 0;
    while i < needle.len()
        invariant
            i <= needle.len(),
            at + needle.len() <= haystack.len(),
            forall|j: int| 0 <= j < i ==> haystack@[at + j] == needle@[j],
        decreases needle.len() - i,
    {
        if haystack[at + i] != needle[i] {
            assert(haystack@.subrange(at as int, at + needle.len())[i as int] != needle@[i as int]);
            return false;
        }
        i += 1;
    }
    assert(haystack@.subrange(at as int, at + needle.len()) =~= needle@);
    true
}

/// The lowest position of `needle` in `haystack`. An empty needle is never found.
pub fn find_subslice(haystack: &[u8], needle: &[u8]) -> (found: Option<usize>)
    ensures
        needle@.len() == 0 ==> found is None,
        needle@.len() > 0 ==> match found {
            Some(at) => first_occurrence(haystack@, needle@, at as int),
            None => forall|j: int| !#[trigger] occurs_at(haystack@, needle@, j),
        },
{
    if needle.len() == 0 || needle.len() > haystack.len() {
        return None;
    }
    let last: usize = haystack.len() - needle.len();
    let mut at: usize = 0;
    while at <= last
        invariant
            at <= last + 1,
            last == haystack.len() - needle.len(),
            needle.len() > 0,
            forall|j: int| 0 <= j < at ==> !#[trigger] occurs_at(haystack@, needle@, j),
        decreases last + 1 - at,
    {
        if matches_at(haystack, needle, at) {
            return Some(at);
        }
        at += 1;
    }
    None
}

/// The lowest position of `needle` in `haystack` that is not above `max_offset`.
/// An empty needle is never found.
pub fn find_subslice_prefix(haystack: &[u8], needle: &[u8], max_offset: usize) -> (found: Option<
    usize,
>)
    ensures
        needle@.len() == 0 ==> found is None,
        needle@.len() > 0 ==> match found {
            Some(at) => at <= max_offset && first_occurrence(haystack@, needle@, at as int),
            None => forall|j: int| j <= max_offset ==> !#[trigger] occurs_at(haystack@, needle@, j),
        },
{
    if needle.len() == 0 || haystack.len() < needle.len() {
        return None;
    }
    let room: usize = haystack.len() - needle.len();
    let end: usize = if room < max_offset {
        room
    } else {
        max_offset
    };
    let mut at: usize = 0;
    loop
        invariant
            needle@.len() > 0,
            at <= end,
            end <= max_offset,
            end == max_offset || end == haystack.len() - needle.len(),
            end + needle.len() <= haystack.len(),
            forall|j: int| 0 <= j < at ==> !#[trigger] occurs_at(haystack@, needle@, j),
        decreases end - at,
    {
        if matches_at(haystack, needle, at) {
            return Some(at);
        }
        if at == end {
            return None;
        }
        at += 1;
    }
}

/// The number written big-endian in the four bytes from `at` on.
pub open spec fn be_u32(data: Seq<u8>, at: int) -> int {
    data[at] * 0x100_0000 + data[at + 1] * 0x1_0000 + data[at + 2] * 0x100 + data[at + 3]
}

/// Reads four bytes as a big-endian number.
pub fn read_be_u32(data: &[u8], at: usize) -> (value: u32)
    requires
        at + 4 <= data@.len(),
    ensures
        value == be_u32(data@, at as int),
{
    (data[at] as u32) * 0x100_0000 + (data[at + 1] as u32) * 0x1_0000 + (data[at + 2] as u32)
        * 0x100 + (data[at + 3] as u32)
}

// ---------------------------------------------------------------------------
// What holds of byte strings
// ---------------------------------------------------------------------------

/// A byte string stands where each of its bytes does.
pub proof fn law_occurs_at(haystack: Seq<u8>, needle: Seq<u8>, at: int)
    ensures
        occurs_at(haystack, needle, at) <==> 0 <= at && at + needle.len() <= haystack.len() && forall|
            i: int,
        |
            0 <= i < needle.len() ==> haystack[at + i] == #[trigger] needle[i],
{
    if 0 <= at && at + needle.len() <= haystack.len() {
        let there = haystack.subrange(at, at + needle.len());
        if occurs_at(haystack, needle, at) {
            assert forall|i: int| 0 <= i < needle.len() implies haystack[at + i]
                == #[trigger] needle[i] by {
                assert(there[i] == haystack[at + i]);
            }
        }
        if forall|i: int| 0 <= i < needle.len() ==> haystack[at + i] == #[trigger] needle[i] {
            assert(there =~= needle);
        }
    }
}

/// A byte string that is put between others stands there. It first stands at that
/// place, unless it stands at an earlier one.
pub proof fn law_first_occurrence(before: Seq<u8>, needle: Seq<u8>, behind: Seq<u8>)
    ensures
        occurs_at(before + needle + behind, needle, before.len() as int),
        first_occurrence(before + needle + behind, needle, before.len() as int) <==> forall|j: int|
            0 <= j < before.len() ==> !#[trigger] occurs_at(before + needle + behind, needle, j),
{
    let whole = before + needle + behind;
    assert(whole.subrange(before.len() as int, (before.len() + needle.len()) as int) =~= needle);
}

/// A byte string first stands at one place at most.
pub proof fn law_one_first_occurrence(haystack: Seq<u8>, needle: Seq<u8>, a: int, b: int)
    requires
        first_occurrence(haystack, needle, a),
        occurs_at(haystack, needle, b),
    ensures
        a <= b,
        occurs_at(haystack, needle, a),
        first_occurrence(haystack, needle, b) ==> a == b,
{
}

/// The digits of a number to the base 256, the highest first.
pub open spec fn be_bytes(n: int) -> Seq<u8> {
    seq![
        (n / 0x100_0000 % 0x100) as u8,
        (n / 0x1_0000 % 0x100) as u8,
        (n / 0x100 % 0x100) as u8,
        (n % 0x100) as u8,
    ]
}

/// Every number of 32 bits is read back from its four bytes.
pub proof fn law_be_u32(before: Seq<u8>, n: int, behind: Seq<u8>)
    requires
        0 <= n < 0x1_0000_0000,
    ensures
        be_u32(before + be_bytes(n) + behind, before.len() as int) == n,
{
    let whole = before + be_bytes(n) + behind;
    let at = before.len() as int;
    assert(whole[at] == be_bytes(n)[0]);
    assert(whole[at + 1] == be_bytes(n)[1]);
    assert(whole[at + 2] == be_bytes(n)[2]);
    assert(whole[at + 3] == be_bytes(n)[3]);
}

/// Any four bytes are the bytes of the number that they are read as, so that
/// different bytes give different numbers.
pub proof fn law_be_bytes(data: Seq<u8>, at: int)
    requires
        0 <= at,
        at + 4 <= data.len(),
    ensures
        0 <= be_u32(data, at) < 0x1_0000_0000,
        be_bytes(be_u32(data, at)) == data.subrange(at, at + 4),
{
    let n = be_u32(data, at);
    let a = data[at] as int;
    let b = data[at + 1] as int;
    let c = data[at + 2] as int;
    let d = data[at + 3] as int;
    assert(n / 0x100 == a * 0x1_0000 + b * 0x100 + c);
    assert(n / 0x1_0000 == a * 0x100 + b);
    assert(n / 0x100_0000 == a);
    assert(be_bytes(n) =~= data.subrange(at, at + 4));
}

} // verus!
