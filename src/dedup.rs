//! Order-preserving de-duplication of sequences, as a specification.

use vstd::prelude::*;

verus! {

/// Each distinct element of `s` once, in the order of its first appearance.
pub open spec fn first_seen<A>(s: Seq<A>) -> Seq<A>
    decreases s.len(),
{
    if s.len() == 0 {
        Seq::empty()
    } else {
        let d = first_seen(s.drop_last());
        if d.contains(s.last()) {
            d
        } else {
            d.push(s.last())
        }
    }
}

/// The position of the first occurrence of `x` in `s` (meaningful when `s` contains `x`).
pub open spec fn first_index<A>(s: Seq<A>, x: A) -> int
    decreases s.len(),
{
    if s.len() == 0 {
        0
    } else if s.drop_last().contains(x) {
        first_index(s.drop_last(), x)
    } else {
        s.len() - 1
    }
}

/// `first_seen` keeps exactly the elements of its argument, without repeats,
/// ordered by first occurrence.
pub proof fn lemma_first_seen<A>(s: Seq<A>)
    ensures
        first_seen(s).no_duplicates(),
        forall|x: A| first_seen(s).contains(x) <==> s.contains(x),
        first_seen(s).len() <= s.len(),
        forall|i: int, j: int|
            0 <= i < j < first_seen(s).len() ==> first_index(s, #[trigger] first_seen(s)[i])
                < first_index(s, #[trigger] first_seen(s)[j]),
        forall|i: int|
            0 <= i < first_seen(s).len() ==> 0 <= #[trigger] first_index(s, first_seen(s)[i]) < s.len()
                && s[first_index(s, first_seen(s)[i])] == first_seen(s)[i],
    decreases s.len(),
{
    if s.len() > 0 {
        let t = s.drop_last();
        lemma_first_seen(t);
        let d = first_seen(t);
        assert forall|x: A| s.contains(x) <==> (t.contains(x) || x == s.last()) by {
            if s.contains(x) {
                let k = choose|k: int| 0 <= k < s.len() && s[k] == x;
                if k < s.len() - 1 {
                    assert(t[k] == x);
                }
            }
            if t.contains(x) {
                let k = choose|k: int| 0 <= k < t.len() && t[k] == x;
                assert(s[k] == x);
            }
            if x == s.last() {
                assert(s[s.len() - 1] == x);
            }
        }
        assert forall|x: A| t.contains(x) implies first_index(s, x) == first_index(t, x) by {}
        if !d.contains(s.last()) {
            let e = d.push(s.last());
            assert forall|x: A| e.contains(x) <==> s.contains(x) by {
                if e.contains(x) {
                    let k = choose|k: int| 0 <= k < e.len() && e[k] == x;
                    if k < d.len() {
                        assert(d[k] == x);
                    }
                }
                if d.contains(x) {
                    let k = choose|k: int| 0 <= k < d.len() && d[k] == x;
                    assert(e[k] == x);
                }
                if x == s.last() {
                    assert(e[d.len() as int] == x);
                }
            }
            assert(!t.contains(s.last()));
            assert(first_index(s, s.last()) == s.len() - 1);
            assert forall|i: int| 0 <= i < d.len() implies t.contains(#[trigger] d[i]) by {
                assert(d.contains(d[i]));
            }
            assert forall|i: int, j: int|
                0 <= i < j < e.len() implies first_index(s, #[trigger] e[i]) < first_index(
                s,
                #[trigger] e[j],
            ) by {
                if j < d.len() {
                    assert(e[i] == d[i] && e[j] == d[j]);
                    assert(t.contains(d[i]) && t.contains(d[j]));
                } else {
                    assert(e[i] == d[i]);
                    assert(t.contains(d[i]));
                }
            }
            assert forall|i: int| 0 <= i < e.len() implies 0 <= #[trigger] first_index(
                s,
                e[i],
            ) < s.len() && s[first_index(s, e[i])] == e[i] by {
                if i < d.len() {
                    assert(e[i] == d[i]);
                    assert(t.contains(d[i]));
                }
            }
        } else {
            assert forall|i: int| 0 <= i < d.len() implies t.contains(#[trigger] d[i]) by {
                assert(d.contains(d[i]));
            }
            assert forall|x: A| d.contains(x) <==> s.contains(x) by {}
        }
    }
}

/// `first_seen` of a sequence has as many elements as the sequence has distinct ones.
pub proof fn lemma_first_seen_len<A>(s: Seq<A>)
    ensures
        first_seen(s).len() == s.to_set().len(),
        first_seen(s).to_set() == s.to_set(),
{
    lemma_first_seen(s);
    assert(first_seen(s).to_set() =~= s.to_set());
    first_seen(s).unique_seq_to_set();
}

} // verus!
