//! The contract root: owner identity, trust registry and worker directory.
//!
//! The registry is modelled as a set of codehash views, the directory as a
//! map from caller identity views to codehash views.  Both live in plain
//! vectors whose well-formedness (`wf`) keeps directory keys unique.

use vstd::prelude::*;
use vstd::pervasive::VecAdditionalExecFns;

use crate::errors::Error;
use crate::proxy::CallbackEvent;
use crate::proxy::GovernanceCall;
use crate::proxy::GovernanceRequest;
use crate::proxy::RemoteOutcome;

verus! {

/// A registered caller's declared identity record: the codehash of the
/// worker binary it claims to run.
#[derive(Clone, Debug)]
pub struct Worker {
    pub codehash: String,
}

/// The single root object owning all persistent state.
pub struct Contract {
    owner_id: String,
    approved_codehashes: Vec<String>,
    worker_by_account_id: Vec<(String, Worker)>,
}

/// The set of codehash views held in a vector of codehashes.
pub open spec fn approved_of(s: Seq<String>) -> Set<Seq<char>>
    decreases s.len(),
{
    if s.len() == 0 {
        Set::empty()
    } else {
        approved_of(s.drop_last()).insert(s.last()@)
    }
}

/// The identity-to-codehash map held in a vector of directory entries;
/// a later entry for the same identity wins.
pub open spec fn workers_of(s: Seq<(String, Worker)>) -> Map<Seq<char>, Seq<char>>
    decreases s.len(),
{
    if s.len() == 0 {
        Map::empty()
    } else {
        workers_of(s.drop_last()).insert(s.last().0@, s.last().1.codehash@)
    }
}

/// No two directory entries share an identity.
pub open spec fn unique_keys(s: Seq<(String, Worker)>) -> bool {
    forall|i: int, j: int| 0 <= i < j < s.len() ==> s[i].0@ != s[j].0@
}

impl Contract {
    /// The owner identity, fixed at construction.
    pub closed spec fn spec_owner(self) -> Seq<char> {
        self.owner_id@
    }

    /// The trust registry: the set of approved codehashes.
    pub closed spec fn spec_approved(self) -> Set<Seq<char>> {
        approved_of(self.approved_codehashes@)
    }

    /// The worker directory: each registered identity's current codehash.
    pub closed spec fn spec_workers(self) -> Map<Seq<char>, Seq<char>> {
        workers_of(self.worker_by_account_id@)
    }

    /// Well-formedness: directory keys are unique.
    pub closed spec fn wf(self) -> bool {
        unique_keys(self.worker_by_account_id@)
    }

    /// One-time construction: records the owner and starts with an empty
    /// registry and an empty directory.
    pub fn init(owner_id: String) -> (c: Contract)
        ensures
            c.wf(),
            c.spec_owner() == owner_id@,
            c.spec_approved() == Set::<Seq<char>>::empty(),
            c.spec_workers() == Map::<Seq<char>, Seq<char>>::empty(),
    {
        Contract {
            owner_id,
            approved_codehashes: Vec::new(),
            worker_by_account_id: Vec::new(),
        }
    }
}

/// Registry membership is exactly "some stored codehash has this view".
proof fn lemma_approved_of_contains(s: Seq<String>, x: Seq<char>)
    ensures
        approved_of(s).contains(x) <==> (exists|i: int| 0 <= i < s.len() && s[i]@ == x),
    decreases s.len(),
{
    if s.len() > 0 {
        lemma_approved_of_contains(s.drop_last(), x);
        if exists|i: int| 0 <= i < s.len() - 1 && s.drop_last()[i]@ == x {
            let i = choose|i: int| 0 <= i < s.len() - 1 && s.drop_last()[i]@ == x;
            assert(s[i]@ == x);
        }
        if exists|i: int| 0 <= i < s.len() && s[i]@ == x {
            let i = choose|i: int| 0 <= i < s.len() && s[i]@ == x;
            if i < s.len() - 1 {
                assert(s.drop_last()[i]@ == x);
            }
        }
    }
}

/// Appending one codehash adds exactly its view to the registry set.
proof fn lemma_approved_of_push(s: Seq<String>, v: String)
    ensures
        approved_of(s.push(v)) == approved_of(s).insert(v@),
{
    assert(s.push(v).drop_last() =~= s);
    assert(s.push(v).last() == v);
}

/// A directory key is present exactly when some entry carries it.
proof fn lemma_workers_of_contains(s: Seq<(String, Worker)>, k: Seq<char>)
    ensures
        workers_of(s).contains_key(k) <==> (exists|i: int| 0 <= i < s.len() && s[i].0@ == k),
    decreases s.len(),
{
    if s.len() > 0 {
        lemma_workers_of_contains(s.drop_last(), k);
        if exists|i: int| 0 <= i < s.len() - 1 && s.drop_last()[i].0@ == k {
            let i = choose|i: int| 0 <= i < s.len() - 1 && s.drop_last()[i].0@ == k;
            assert(s[i].0@ == k);
        }
        if exists|i: int| 0 <= i < s.len() && s[i].0@ == k {
            let i = choose|i: int| 0 <= i < s.len() && s[i].0@ == k;
            if i < s.len() - 1 {
                assert(s.drop_last()[i].0@ == k);
            }
        }
    }
}

/// With unique keys, the entry holding a key decides its codehash.
proof fn lemma_workers_of_index(s: Seq<(String, Worker)>, i: int)
    requires
        unique_keys(s),
        0 <= i < s.len(),
    ensures
        workers_of(s).contains_key(s[i].0@),
        workers_of(s)[s[i].0@] == s[i].1.codehash@,
    decreases s.len(),
{
    if i == s.len() - 1 {
    } else {
        assert(unique_keys(s.drop_last()));
        assert(s.drop_last()[i] == s[i]);
        lemma_workers_of_index(s.drop_last(), i);
        assert(s[i].0@ != s.last().0@);
    }
}

/// Appending one entry inserts exactly its identity and codehash.
proof fn lemma_workers_of_push(s: Seq<(String, Worker)>, p: (String, Worker))
    ensures
        workers_of(s.push(p)) == workers_of(s).insert(p.0@, p.1.codehash@),
{
    assert(s.push(p).drop_last() =~= s);
    assert(s.push(p).last() == p);
}

/// Replacing the entry that holds a key, by one with the same key,
/// is insertion into the directory map.
proof fn lemma_workers_of_update(s: Seq<(String, Worker)>, i: int, p: (String, Worker))
    requires
        unique_keys(s),
        0 <= i < s.len(),
        s[i].0@ == p.0@,
    ensures
        workers_of(s.update(i, p)) == workers_of(s).insert(p.0@, p.1.codehash@),
    decreases s.len(),
{
    let t = s.update(i, p);
    if i == s.len() - 1 {
        assert(t.drop_last() =~= s.drop_last());
        assert(t.last() == p);
        assert(workers_of(s.drop_last()).insert(s.last().0@, s.last().1.codehash@).insert(
            p.0@,
            p.1.codehash@,
        ) =~= workers_of(s.drop_last()).insert(p.0@, p.1.codehash@));
    } else {
        assert(unique_keys(s.drop_last()));
        assert(t.drop_last() =~= s.drop_last().update(i, p));
        assert(t.last() == s.last());
        lemma_workers_of_update(s.drop_last(), i, p);
        assert(s[i].0@ != s.last().0@);
        assert(workers_of(s.drop_last()).insert(p.0@, p.1.codehash@).insert(
            s.last().0@,
            s.last().1.codehash@,
        ) =~= workers_of(s.drop_last()).insert(s.last().0@, s.last().1.codehash@).insert(
            p.0@,
            p.1.codehash@,
        ));
    }
}

impl Contract {
    /// Pure read: is this codehash in the trust registry?
    pub fn is_approved(&self, codehash: &String) -> (r: bool)
        ensures
            r == self.spec_approved().contains(codehash@),
    {
        let n = self.approved_codehashes.len();
        let mut i: usize = 0;
        while i < n
            invariant
                n == self.approved_codehashes.len(),
                0 <= i <= n,
                forall|j: int| 0 <= j < i ==> self.approved_codehashes@[j]@ != codehash@,
            decreases n - i,
        {
            if self.approved_codehashes[i] == *codehash {
                proof {
                    assert(self.approved_codehashes@[i as int]@ == codehash@);
                    lemma_approved_of_contains(self.approved_codehashes@, codehash@);
                }
                return true;
            }
            i += 1;
        }
        proof {
            lemma_approved_of_contains(self.approved_codehashes@, codehash@);
        }
        false
    }

    /// Owner check: succeeds exactly when the caller is the owner.
    fn require_owner(&self, caller: &String) -> (r: Result<(), Error>)
        ensures
            r is Ok <==> caller@ == self.spec_owner(),
            r is Err ==> r == Err::<(), Error>(Error::Unauthorized),
    {
        if *caller == self.owner_id {
            Ok(())
        } else {
            Err(Error::Unauthorized)
        }
    }

    /// Owner-only: inserts a codehash into the trust registry.
    ///
    /// Idempotent: inserting a codehash already present changes nothing.
    /// A non-owner caller gets `Unauthorized` and the whole state is left
    /// as it was.
    pub fn approve_codehash(&mut self, caller: &String, codehash: String) -> (r: Result<(), Error>)
        requires
            old(self).wf(),
        ensures
            final(self).wf(),
            r is Ok <==> caller@ == old(self).spec_owner(),
            r is Err ==> r == Err::<(), Error>(Error::Unauthorized) && *final(self) == *old(self),
            r is Ok ==> final(self).spec_approved() == old(self).spec_approved().insert(codehash@),
            final(self).spec_owner() == old(self).spec_owner(),
            final(self).spec_workers() == old(self).spec_workers(),
    {
        self.require_owner(caller)?;
        if !self.is_approved(&codehash) {
            let ghost s0 = self.approved_codehashes@;
            self.approved_codehashes.push(codehash);
            proof {
                lemma_approved_of_push(s0, self.approved_codehashes@.last());
            }
        } else {
            proof {
                assert(old(self).spec_approved().insert(codehash@) =~= old(self).spec_approved());
            }
        }
        Ok(())
    }

    /// The index of the directory entry for an identity, if one exists.
    fn find_worker(&self, account_id: &String) -> (r: Option<usize>)
        ensures
            match r {
                Some(i) => i < self.worker_by_account_id@.len()
                    && self.worker_by_account_id@[i as int].0@ == account_id@,
                None => forall|j: int|
                    0 <= j < self.worker_by_account_id@.len()
                        ==> self.worker_by_account_id@[j].0@ != account_id@,
            },
    {
        let n = self.worker_by_account_id.len();
        let mut i: usize = 0;
        while i < n
            invariant
                n == self.worker_by_account_id.len(),
                0 <= i <= n,
                forall|j: int| 0 <= j < i ==> self.worker_by_account_id@[j].0@ != account_id@,
            decreases n - i,
        {
            if self.worker_by_account_id[i].0 == *account_id {
                return Some(i);
            }
            i += 1;
        }
        None
    }

    /// Pure read: the worker record registered for an identity.
    ///
    /// Fails with `NotFound` exactly when the identity never registered;
    /// the failure propagates to every operation that depends on it.
    pub fn get_agent(&self, account_id: &String) -> (r: Result<Worker, Error>)
        requires
            self.wf(),
        ensures
            r is Ok <==> self.spec_workers().contains_key(account_id@),
            r matches Ok(w) ==> w.codehash@ == self.spec_workers()[account_id@],
            r is Err ==> r == Err::<Worker, Error>(Error::NotFound),
    {
        match self.find_worker(account_id) {
            Some(i) => {
                proof {
                    lemma_workers_of_index(self.worker_by_account_id@, i as int);
                }
                Ok(Worker { codehash: self.worker_by_account_id[i].1.codehash.clone() })
            },
            None => {
                proof {
                    lemma_workers_of_contains(self.worker_by_account_id@, account_id@);
                }
                Err(Error::NotFound)
            },
        }
    }

    /// Associates the calling identity with a new worker record, replacing
    /// any prior record unconditionally (last write wins, no merge).
    ///
    /// Always succeeds and acknowledges with `true`: this build performs no
    /// attestation check on the claimed codehash, which is an explicit
    /// development-mode trust bypass.  A hardened build must demand an
    /// attestation proof before inserting.
    pub fn register_agent(&mut self, caller: &String, codehash: String) -> (r: bool)
        requires
            old(self).wf(),
        ensures
            final(self).wf(),
            r == true,
            final(self).spec_workers() == old(self).spec_workers().insert(caller@, codehash@),
            final(self).spec_owner() == old(self).spec_owner(),
            final(self).spec_approved() == old(self).spec_approved(),
    {
        let entry = (caller.clone(), Worker { codehash });
        let ghost s0 = self.worker_by_account_id@;
        match self.find_worker(caller) {
            Some(i) => {
                self.worker_by_account_id.set(i, entry);
                proof {
                    let t = self.worker_by_account_id@;
                    assert(forall|j: int| 0 <= j < t.len() ==> t[j].0@ == s0[j].0@);
                    lemma_workers_of_update(s0, i as int, t[i as int]);
                }
            },
            None => {
                self.worker_by_account_id.push(entry);
                proof {
                    let t = self.worker_by_account_id@;
                    assert(forall|j: int| 0 <= j < s0.len() ==> t[j] == s0[j]);
                    lemma_workers_of_push(s0, t.last());
                }
            },
        }
        true
    }

    /// A caller is trusted exactly when it has a worker record whose
    /// codehash is in the trust registry right now.
    pub open spec fn spec_trusted(self, caller: Seq<char>) -> bool {
        self.spec_workers().contains_key(caller) && self.spec_approved().contains(
            self.spec_workers()[caller],
        )
    }

    /// Trust check, re-evaluated on every privileged call: looks the caller
    /// up (propagating `NotFound`), then requires its current codehash to be
    /// in the registry (`Unauthorized` otherwise).  Removing a codehash from
    /// the registry would deauthorize every worker registered under it at
    /// once, with no grace period.
    fn require_approved_codehash(&self, caller: &String) -> (r: Result<(), Error>)
        requires
            self.wf(),
        ensures
            r is Ok <==> self.spec_trusted(caller@),
            !self.spec_workers().contains_key(caller@) ==> r == Err::<(), Error>(Error::NotFound),
            self.spec_workers().contains_key(caller@) && !self.spec_approved().contains(
                self.spec_workers()[caller@],
            ) ==> r == Err::<(), Error>(Error::Unauthorized),
    {
        let worker = self.get_agent(caller)?;
        if self.is_approved(&worker.codehash) {
            Ok(())
        } else {
            Err(Error::Unauthorized)
        }
    }

    /// The governance entry point.
    ///
    /// Succeeds exactly for trusted callers: registered, with their current
    /// codehash approved at call time.  On success it moves one fresh
    /// invocation `Idle -> Requested` and returns that invocation as the
    /// pending handle, paired with the single outbound request issued for
    /// it; the caller does not block on the remote outcome.  On failure
    /// (`NotFound` for an unregistered caller, `Unauthorized` for an
    /// untrusted one) no request is issued.  The contract state is never
    /// touched.
    pub fn approve_proposal(
        &mut self,
        caller: &String,
        proposal_id: u64,
        voting_start_time_sec: Option<u32>,
    ) -> (r: Result<(GovernanceCall, GovernanceRequest), Error>)
        requires
            old(self).wf(),
        ensures
            *final(self) == *old(self),
            r is Ok <==> old(self).spec_trusted(caller@),
            !old(self).spec_workers().contains_key(caller@) ==> r == Err::<
                (GovernanceCall, GovernanceRequest),
                Error,
            >(Error::NotFound),
            old(self).spec_workers().contains_key(caller@) && !old(self).spec_approved().contains(
                old(self).spec_workers()[caller@],
            ) ==> r == Err::<(GovernanceCall, GovernanceRequest), Error>(Error::Unauthorized),
            r matches Ok((call, req)) ==> {
                &&& call.phase is Requested
                &&& call.proposal_id == proposal_id
                &&& call.voting_start_time_sec == voting_start_time_sec
                &&& req.wf()
                &&& req.proposal_id == proposal_id
                &&& req.voting_start_time_sec == voting_start_time_sec
            },
    {
        self.require_approved_codehash(caller)?;
        let mut call = GovernanceCall::new(proposal_id, voting_start_time_sec);
        let request = call.request();
        Ok((call, request))
    }

    /// The acknowledgment entry point, run later as the scheduled
    /// continuation of an issued request; it must never be reachable by an
    /// external caller directly, or acknowledgments could be spoofed.
    ///
    /// Records the remote outcome as an observability event and mutates
    /// nothing: success leaves only the approval record, failure only the
    /// failure detail, and neither is retried or compensated.
    pub fn governance_callback(
        &mut self,
        proposal_id: u64,
        result: RemoteOutcome,
    ) -> (ev: CallbackEvent)
        ensures
            *final(self) == *old(self),
            result is Success ==> ev == (CallbackEvent::Approved { proposal_id }),
            result matches RemoteOutcome::Failure(d) ==> ev == (CallbackEvent::RemoteFailed {
                proposal_id,
                detail: d,
            }),
    {
        match result {
            RemoteOutcome::Success => CallbackEvent::Approved { proposal_id },
            RemoteOutcome::Failure(detail) => CallbackEvent::RemoteFailed { proposal_id, detail },
        }
    }

    /// Pure read: the owner identity.
    pub fn owner(&self) -> (r: &String)
        ensures
            r@ == self.spec_owner(),
    {
        &self.owner_id
    }
}

} // verus!
