//! Ordering names and finding the largest of several sizes.

use vstd::prelude::*;
use vstd::relations::{sorted_by, total_ordering};

verus! {

// ---------------------------------------------------------------------------
// Names, byte by byte
// ---------------------------------------------------------------------------

/// `a` is `b` or stands before it: the first differing byte decides, and a name
/// stands before those that it begins.
pub open spec fn not_after(a: Seq<u8>, b: Seq<u8>) -> bool
    decreases a.len(),
{
    if a.len() == 0 {
        true
    } else if b.len() == 0 {
        false
    } else if a[0] != b[0] {
        a[0] < b[0]
    } else {
        not_after(a.drop_first(), b.drop_first())
    }
}

/// The order of names.
pub open spec fn name_order() -> spec_fn(Seq<u8>, Seq<u8>) -> bool {
    |a: Seq<u8>, b: Seq<u8>| not_after(a, b)
}

/// What several names say.
pub open spec fn names_view(names: Seq<Vec<u8>>) -> Seq<Seq<u8>> {
    names.map_values(|n: Vec<u8>| n@)
}

proof fn lemma_antisymmetric(a: Seq<u8>, b: Seq<u8>)
    requires
        not_after(a, b),
        not_after(b, a),
    ensures
        a == b,
    decreases a.len(),
{
    if a.len() > 0 && b.len() > 0 {
        lemma_antisymmetric(a.drop_first(), b.drop_first());
        assert(a =~= seq![a[0]] + a.drop_first());
        assert(b =~= seq![b[0]] + b.drop_first());
    } else {
        assert(a =~= b);
    }
}

proof fn lemma_transitive(a: Seq<u8>, b: Seq<u8>, c: Seq<u8>)
    requires
        not_after(a, b),
        not_after(b, c),
    ensures
        not_after(a, c),
    decreases a.len(),
{
    if a.len() > 0 && b.len() > 0 && c.len() > 0 && a[0] == b[0] && b[0] == c[0] {
        lemma_transitive(a.drop_first(), b.drop_first(), c.drop_first());
    }
}

proof fn lemma_connected(a: Seq<u8>, b: Seq<u8>)
    ensures
        not_after(a, b) || not_after(b, a),
    decreases a.len(),
{
    if a.len() > 0 && b.len() > 0 && a[0] == b[0] {
        lemma_connected(a.drop_first(), b.drop_first());
    }
}

/// Of two names one stands before the other, unless they are the same.
pub proof fn law_names_are_ordered()
    ensures
        total_ordering(name_order()),
{
    let order = name_order();
    assert forall|a: Seq<u8>| #[trigger] order(a, a) by {
        lemma_connected(a, a);
    }
    assert forall|a: Seq<u8>, b: Seq<u8>| #[trigger] order(a, b) && #[trigger] order(b, a) implies a
        == b by {
        lemma_antisymmetric(a, b);
    }
    assert forall|a: Seq<u8>, b: Seq<u8>, c: Seq<u8>| #[trigger]
        order(a, b) && #[trigger] order(b, c) implies order(a, c) by {
        lemma_transitive(a, b, c);
    }
    assert forall|a: Seq<u8>, b: Seq<u8>| #[trigger] order(a, b) || #[trigger] order(b, a) by {
        lemma_connected(a, b);
    }
}

/// Compares two names.
fn stands_not_after(a: &[u8], b: &[u8]) -> (yes: bool)
    ensures
        yes == not_after(a@, b@),
{
    let mut i: usize = 0;
    assert(a@.skip(0) =~= a@);
    assert(b@.skip(0) =~= b@);
    while i < a.len() && i < b.len()
        invariant
            i <= a@.len(),
            i <= b@.len(),
            not_after(a@, b@) == not_after(a@.skip(i as int), b@.skip(i as int)),
        decreases a@.len() - i,
    {
        if a[i] != b[i] {
            return a[i] < b[i];
        }
        assert(a@.skip(i as int).drop_first() =~= a@.skip(i + 1));
        assert(b@.skip(i as int).drop_first() =~= b@.skip(i + 1));
        i += 1;
    }
    i == a.len()
}

/// Puts names in order.
pub fn sort_names(names: Vec<Vec<u8>>) -> (sorted: Vec<Vec<u8>>)
    ensures
        names_view(sorted@) == names_view(names@).sort_by(name_order()),
{
    broadcast use vstd::seq_lib::group_to_multiset_ensures;

    let mut sorted: Vec<Vec<u8>> = Vec::new();
    let ghost all = names_view(names@);
    let ghost given = names@;
    assert(names_view(sorted@) =~= all.take(0));
    for name in it: names
        invariant
            it.seq() == given,
            all == names_view(given),
            names_view(sorted@).to_multiset() == all.take(it.index() as int).to_multiset(),
            sorted_by(names_view(sorted@), name_order()),
    {
        let ghost i = it.index() as int;
        let ghost before = names_view(sorted@);
        let mut at: usize = sorted.len();
        while at > 0 && !stands_not_after(sorted[at - 1].as_slice(), name.as_slice())
            invariant
                at <= sorted@.len(),
                before == names_view(sorted@),
                forall|j: int|
                    at <= j < before.len() ==> !not_after(#[trigger] before[j], name@),
            decreases at,
        {
            at -= 1;
        }
        proof {
            assert(at > 0 ==> not_after(before[at - 1], name@));
            lemma_insert_sorted(before, name@, at as int);
            assert(all.take(i + 1) =~= all.take(i).push(name@));
            vstd::seq_lib::to_multiset_insert(before, at as int, name@);
            vstd::seq_lib::to_multiset_build(all.take(i), name@);
        }
        sorted.insert(at, name);
        assert(names_view(sorted@) =~= before.insert(at as int, name@));
    }
    proof {
        assert(all.take(all.len() as int) =~= all);
        law_names_are_ordered();
        all.lemma_sort_by_ensures(name_order());
        vstd::seq_lib::lemma_sorted_unique(
            names_view(sorted@),
            all.sort_by(name_order()),
            name_order(),
        );
    }
    sorted
}

proof fn lemma_insert_sorted(sorted: Seq<Seq<u8>>, name: Seq<u8>, at: int)
    requires
        0 <= at <= sorted.len(),
        sorted_by(sorted, name_order()),
        at > 0 ==> not_after(sorted[at - 1], name),
        forall|j: int| at <= j < sorted.len() ==> !not_after(#[trigger] sorted[j], name),
    ensures
        sorted_by(sorted.insert(at, name), name_order()),
{
    let order = name_order();
    let whole = sorted.insert(at, name);
    assert forall|i: int, j: int| 0 <= i < j < whole.len() implies #[trigger] order(
        whole[i],
        whole[j],
    ) by {
        if i < at && j == at {
            if i < at - 1 {
                assert(order(sorted[i], sorted[at - 1]));
                lemma_transitive(sorted[i], sorted[at - 1], name);
            }
        } else if i == at {
            assert(whole[j] == sorted[j - 1]);
            lemma_connected(sorted[j - 1], name);
        } else if j < at {
            assert(order(sorted[i], sorted[j]));
        } else if i < at {
            assert(order(sorted[i], sorted[j - 1]));
        } else {
            assert(order(sorted[i - 1], sorted[j - 1]));
        }
    }
}

// ---------------------------------------------------------------------------
// Sizes
// ---------------------------------------------------------------------------

/// The place of the largest number; of several largest, the first.
pub open spec fn first_largest(sizes: Seq<u64>) -> int
    decreases sizes.len(),
{
    if sizes.len() <= 1 {
        0
    } else {
        let k = first_largest(sizes.drop_last());
        if sizes.last() > sizes[k] {
            sizes.len() - 1
        } else {
            k
        }
    }
}

/// Nothing is larger than the first largest, and what stands before it is
/// smaller.
pub proof fn law_first_largest(sizes: Seq<u64>)
    requires
        sizes.len() > 0,
    ensures
        0 <= first_largest(sizes) < sizes.len(),
        forall|j: int| 0 <= j < sizes.len() ==> #[trigger] sizes[j] <= sizes[first_largest(sizes)],
        forall|j: int| 0 <= j < first_largest(sizes) ==> #[trigger] sizes[j] < sizes[first_largest(sizes)],
    decreases sizes.len(),
{
    if sizes.len() > 1 {
        let front = sizes.drop_last();
        law_first_largest(front);
        assert forall|j: int| 0 <= j < sizes.len() implies #[trigger] sizes[j] <= sizes[first_largest(
            sizes,
        )] by {
            if j < front.len() {
                assert(front[j] <= front[first_largest(front)]);
            }
        }
        assert forall|j: int| 0 <= j < first_largest(sizes) implies #[trigger] sizes[j] < sizes[first_largest(
            sizes,
        )] by {
            assert(front[j] <= front[first_largest(front)]);
        }
    }
}

/// Finds the largest of several sizes; of several largest, the first.
pub fn largest_size(sizes: &Vec<u64>) -> (place: Option<usize>)
    ensures
        match place {
            Some(k) => sizes@.len() > 0 && k == first_largest(sizes@) && k < sizes@.len(),
            None => sizes@.len() == 0,
        },
{
    if sizes.len() == 0 {
        return None;
    }
    let mut k: usize = 0;
    let mut i: usize = 1;
    while i < sizes.len()
        invariant
            0 <= k < i <= sizes@.len(),
            k == first_largest(sizes@.take(i as int)),
        decreases sizes@.len() - i,
    {
        assert(sizes@.take(i + 1).drop_last() =~= sizes@.take(i as int));
        if sizes[i] > sizes[k] {
            k = i;
        }
        i += 1;
    }
    assert(sizes@.take(sizes@.len() as int) =~= sizes@);
    Some(k)
}

/// A name stands before every longer one that it begins.
pub proof fn law_beginning_stands_before(a: Seq<u8>, more: Seq<u8>)
    ensures
        not_after(a, a + more),
        more.len() > 0 ==> !not_after(a + more, a),
    decreases a.len(),
{
    if a.len() > 0 {
        law_beginning_stands_before(a.drop_first(), more);
        assert((a + more).drop_first() =~= a.drop_first() + more);
    } else {
        assert(a + more =~= more);
    }
}

/// Of two names that begin alike, the one with the lower byte at the first
/// difference stands before the other.
pub proof fn law_first_difference_decides(
    alike: Seq<u8>,
    x: u8,
    y: u8,
    behind_x: Seq<u8>,
    behind_y: Seq<u8>,
)
    requires
        x < y,
    ensures
        not_after(alike + seq![x] + behind_x, alike + seq![y] + behind_y),
        !not_after(alike + seq![y] + behind_y, alike + seq![x] + behind_x),
    decreases alike.len(),
{
    let a = alike + seq![x] + behind_x;
    let b = alike + seq![y] + behind_y;
    if alike.len() > 0 {
        let rest = alike.drop_first();
        law_first_difference_decides(rest, x, y, behind_x, behind_y);
        assert(a.drop_first() =~= rest + seq![x] + behind_x);
        assert(b.drop_first() =~= rest + seq![y] + behind_y);
    } else {
        assert(a[0] == x && b[0] == y);
    }
}

/// Several names say what each of them says, in their order.
pub proof fn law_names_view(names: Seq<Vec<u8>>, i: int)
    requires
        0 <= i < names.len(),
    ensures
        names_view(names).len() == names.len(),
        names_view(names)[i] == names[i]@,
{
}

} // verus!
