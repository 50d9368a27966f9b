use vstd::prelude::*;

use crate::model::{pairs_view, Pair};

verus! {

/// The elements of `s` whose positions are not in `marked`, in order.
pub open spec fn without_positions<A>(s: Seq<A>, marked: Set<int>) -> Seq<A>
    decreases s.len(),
{
    if s.len() == 0 {
        s
    } else {
        let rest = without_positions(s.drop_last(), marked);
        if marked.contains(s.len() - 1) {
            rest
        } else {
            rest.push(s.last())
        }
    }
}

/// The positions listed in `marked[from..]`.
pub open spec fn listed_from(marked: Seq<usize>, from: int) -> Set<int> {
    Set::new(|x: int| exists|j: int| from <= j < marked.len() && marked[j] as int == x)
}

/// The positions listed in `marked`.
pub open spec fn listed(marked: Seq<usize>) -> Set<int> {
    listed_from(marked, 0)
}

/// `marked` lists positions below `len`, each once, in increasing order.
pub open spec fn marks_ascending(marked: Seq<usize>, len: nat) -> bool {
    &&& forall|i: int, j: int| 0 <= i < j < marked.len() ==> marked[i] < marked[j]
    &&& forall|i: int| 0 <= i < marked.len() ==> marked[i] < len
}

proof fn lemma_none_in_range<A>(s: Seq<A>, marked: Set<int>)
    requires
        forall|x: int| marked.contains(x) ==> x >= s.len(),
    ensures
        without_positions(s, marked) == s,
    decreases s.len(),
{
    if s.len() > 0 {
        lemma_none_in_range(s.drop_last(), marked);
        assert(s.drop_last().push(s.last()) =~= s);
    }
}

proof fn lemma_prefix_kept<A>(s: Seq<A>, marked: Set<int>, p: int)
    requires
        0 <= p <= s.len(),
        forall|x: int| marked.contains(x) ==> x >= p,
    ensures
        without_positions(s, marked).len() >= p,
    decreases s.len(),
{
    if s.len() == p {
        lemma_none_in_range(s, marked);
    } else {
        lemma_prefix_kept(s.drop_last(), marked, p);
    }
}

/// Taking out one more position, below every position already taken out, is
/// a removal at that position.
proof fn lemma_remove_below<A>(s: Seq<A>, marked: Set<int>, m: int)
    requires
        0 <= m < s.len(),
        forall|x: int| marked.contains(x) ==> x > m,
    ensures
        without_positions(s, marked.insert(m)) == without_positions(s, marked).remove(m),
    decreases s.len(),
{
    let dl = s.drop_last();
    let last = s.len() - 1;
    if last == m {
        lemma_none_in_range(dl, marked.insert(m));
        lemma_none_in_range(dl, marked);
        assert(dl.push(s.last()).remove(m) =~= dl);
    } else {
        lemma_remove_below(dl, marked, m);
        lemma_prefix_kept(dl, marked, m + 1);
        if !marked.contains(last) {
            assert(without_positions(dl, marked).remove(m).push(s.last()) =~= without_positions(
                dl,
                marked,
            ).push(s.last()).remove(m));
        }
    }
}

/// Whether `marked` lists positions below `len`, each once, in increasing
/// order.
pub(crate) fn check_marks(marked: &Vec<usize>, len: usize) -> (r: bool)
    ensures
        r == marks_ascending(marked@, len as nat),
{
    let mut i: usize = 0;
    while i < marked.len()
        invariant
            i <= marked@.len(),
            forall|a: int, b: int| 0 <= a < b < i ==> marked@[a] < marked@[b],
            forall|a: int| 0 <= a < i ==> marked@[a] < len,
        decreases marked@.len() - i,
    {
        if marked[i] >= len {
            return false;
        }
        if i > 0 && marked[i - 1] >= marked[i] {
            return false;
        }
        i = i + 1;
    }
    true
}

/// Removes the rows at the positions in `marked`, the highest first, so
/// that no removal shifts a position still to be removed.
pub(crate) fn remove_marked(rows: &mut Vec<Pair>, marked: &Vec<usize>)
    requires
        marks_ascending(marked@, old(rows)@.len()),
    ensures
        pairs_view(final(rows)@) == without_positions(pairs_view(old(rows)@), listed(marked@)),
{
    let ghost start = pairs_view(rows@);
    let mut k: usize = marked.len();
    proof {
        assert(listed_from(marked@, k as int) =~= Set::<int>::empty());
        lemma_none_in_range(start, Set::<int>::empty());
    }
    while k > 0
        invariant
            k <= marked@.len(),
            marks_ascending(marked@, start.len()),
            pairs_view(rows@) == without_positions(start, listed_from(marked@, k as int)),
            k > 0 ==> rows@.len() > marked@[k - 1],
        decreases k,
    {
        let m = marked[k - 1];
        let ghost after = listed_from(marked@, k as int);
        proof {
            assert forall|x: int| after.contains(x) implies x > m by {
                let j = choose|j: int| k <= j < marked@.len() && marked@[j] as int == x;
                assert(marked@[k - 1] < marked@[j]);
            }
            lemma_remove_below(start, after, m as int);
            assert(listed_from(marked@, k - 1) =~= after.insert(m as int));
            lemma_prefix_kept(start, after, m as int + 1);
        }
        let ghost before_rows = rows@;
        rows.remove(m);
        proof {
            assert(pairs_view(rows@) =~= pairs_view(before_rows).remove(m as int));
            if k > 1 {
                assert(marked@[k - 2] < marked@[k - 1]);
            }
        }
        k = k - 1;
    }
    proof {
        assert(listed(marked@) == listed_from(marked@, 0));
    }
}

} // verus!
