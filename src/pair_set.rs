//! An insertion-ordered set of string pairs, kept in an `indexmap::IndexSet`.
//!
//! The set is opaque to the verifier; `pair_set_items` names the pairs it
//! holds, in the order they were first inserted.

use indexmap::IndexSet;
use vstd::prelude::*;

verus! {

#[verifier::external_type_specification]
#[verifier::external_body]
#[verifier::reject_recursive_types(T)]
#[verifier::reject_recursive_types(S)]
pub struct ExIndexSet<T, S>(IndexSet<T, S>);

/// The pairs held by a set, as character sequences, in insertion order.
pub uninterp spec fn pair_set_items(s: IndexSet<(String, String)>) -> Seq<(Seq<char>, Seq<char>)>;

/// A pair of strings as a pair of character sequences.
pub open spec fn pair_view(p: (String, String)) -> (Seq<char>, Seq<char>) {
    (p.0@, p.1@)
}

/// Relies on `IndexSet::new`: a new set holds nothing.
#[verifier::external_body]
pub(crate) fn pair_set_new() -> (r: IndexSet<(String, String)>)
    ensures
        pair_set_items(r) == Seq::<(Seq<char>, Seq<char>)>::empty(),
{
    IndexSet::new()
}

/// Relies on `IndexSet::insert`: a pair already present leaves the set as it
/// was and gives `false`; a new pair goes at the end and gives `true`.
#[verifier::external_body]
pub(crate) fn pair_set_insert(s: &mut IndexSet<(String, String)>, a: String, b: String) -> (r: bool)
    ensures
        r == !pair_set_items(*old(s)).contains((a@, b@)),
        pair_set_items(*final(s)) == (if r {
            pair_set_items(*old(s)).push((a@, b@))
        } else {
            pair_set_items(*old(s))
        }),
{
    s.insert((a, b))
}

/// Relies on `IndexSet::len`: the number of pairs held.
#[verifier::external_body]
pub(crate) fn pair_set_len(s: &IndexSet<(String, String)>) -> (r: usize)
    ensures
        r == pair_set_items(*s).len(),
{
    s.len()
}

/// Relies on `IndexSet::get_index`: the pair at position `i`, if there is one.
#[verifier::external_body]
pub(crate) fn pair_set_get(s: &IndexSet<(String, String)>, i: usize) -> (r: Option<(String, String)>)
    ensures
        i < pair_set_items(*s).len() ==> r is Some && pair_view(r->0) == pair_set_items(*s)[i as int],
        i >= pair_set_items(*s).len() ==> r is None,
{
    s.get_index(i).cloned()
}

} // verus!
