//! Laws the contract operations obey, stated over the same set and map
//! model that their contracts use.

use vstd::prelude::*;

verus! {

/// Approving a codehash makes it a member of the trust registry, and
/// approving it a second time is a no-op: the registry after two identical
/// approvals equals the registry after one.
pub proof fn lemma_approve_codehash_idempotent(approved: Set<Seq<char>>, c: Seq<char>)
    ensures
        approved.insert(c).contains(c),
        approved.insert(c).insert(c) == approved.insert(c),
{
    assert(approved.insert(c).insert(c) =~= approved.insert(c));
}

/// Registration is last-write-wins: after registering codehash `c1`, the
/// directory maps the caller to `c1`; a second registration with `c2`
/// overwrites, leaving exactly the directory a single registration with
/// `c2` would have left (no merge).
pub proof fn lemma_register_agent_overwrites(
    workers: Map<Seq<char>, Seq<char>>,
    x: Seq<char>,
    c1: Seq<char>,
    c2: Seq<char>,
)
    ensures
        workers.insert(x, c1)[x] == c1,
        workers.insert(x, c1).insert(x, c2) == workers.insert(x, c2),
{
    assert(workers.insert(x, c1).insert(x, c2) =~= workers.insert(x, c2));
}

} // verus!
