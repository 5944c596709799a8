//! The names of the players present in a room, held in an
//! `indexmap::IndexSet<String>` (a set that remembers insertion order).
//!
//! Everything here but `is_other_name` is trusted: each function makes one
//! call into `indexmap` and its contract restates what that crate's source
//! shows of the call.

use indexmap::IndexSet;
use crate::model::other_than;
use vstd::prelude::*;

verus! {

/// `indexmap::IndexSet`, a hash set whose items keep their insertion order.
#[verifier::external_type_specification]
#[verifier::external_body]
#[verifier::reject_recursive_types(T)]
#[verifier::reject_recursive_types(S)]
pub struct ExIndexSet<T, S>(IndexSet<T, S>);

/// The names held in a set of room players, in the set's order.
pub uninterp spec fn members(s: IndexSet<String>) -> Seq<Seq<char>>;

/// `IndexSet::len`: the number of names held.
#[verifier::external_body]
pub(crate) fn roster_len(s: &IndexSet<String>) -> (n: usize)
    ensures
        n == members(*s).len(),
{
    s.len()
}

/// `IndexSet::get_index`: the name at position `i`, if there is one.
#[verifier::external_body]
pub(crate) fn roster_get(s: &IndexSet<String>, i: usize) -> (r: Option<&String>)
    ensures
        i < members(*s).len() ==> r is Some && r->0@ == members(*s)[i as int],
        i >= members(*s).len() ==> r is None,
{
    s.get_index(i)
}

/// `IndexSet::insert`: a name that is not held yet is appended at the end,
/// and `true` comes back; a name that is held leaves the set as it was, and
/// `false` comes back.
#[verifier::external_body]
pub(crate) fn roster_insert(s: &mut IndexSet<String>, name: String) -> (added: bool)
    ensures
        added == !members(*old(s)).contains(name@),
        added ==> members(*final(s)) == members(*old(s)).push(name@),
        !added ==> members(*final(s)) == members(*old(s)),
{
    s.insert(name)
}

/// `IndexSet::clone`: a set holding the same names in the same order.
#[verifier::external_body]
pub(crate) fn roster_clone(s: &IndexSet<String>) -> (c: IndexSet<String>)
    ensures
        members(c) == members(*s),
{
    s.clone()
}

/// Whether `n` names someone other than `name`.
pub(crate) fn is_other_name(n: &String, name: &String) -> (b: bool)
    ensures
        b == (n@ != name@),
{
    !n.eq(name)
}

/// `IndexSet::retain` with a test that keeps every name but `name`: the
/// other names stay, in their order.
#[verifier::external_body]
pub(crate) fn roster_remove(s: &mut IndexSet<String>, name: &String)
    ensures
        members(*final(s)) == members(*old(s)).filter(other_than(name@)),
{
    s.retain(|n| is_other_name(n, name))
}

} // verus!
