//! The governance proxy: the outbound request to the external voting
//! system and the per-invocation state machine around it.
//!
//! Each governance call spawns one `GovernanceCall` instance that moves
//! `Idle -> Requested -> (Acknowledged | Failed)`.  The synchronous part of
//! the call issues exactly one outbound request and returns at once; the
//! remote outcome arrives later and is acknowledged exactly once.

use vstd::prelude::*;

verus! {

/// Resource budget attached to the remote voting-system execution,
/// in teragas.
pub const GAS_FOR_GOVERNANCE_TGAS: u64 = 50;

/// Smaller resource budget reserved for the acknowledgment step,
/// in teragas.
pub const GAS_FOR_CALLBACK_TGAS: u64 = 30;

/// The fixed minimal payment attached to the remote call, in yoctotokens.
pub const YOCTO_DEPOSIT: u128 = 1;

/// The fixed identity of the external voting system.
pub open spec fn spec_voting_contract() -> Seq<char> {
    "shade.ballotbox.testnet"@
}

/// The configured voting-system identity as an owned string.
pub fn voting_contract() -> (s: String)
    ensures
        s@ == spec_voting_contract(),
{
    String::from_str("shade.ballotbox.testnet")
}

/// One outbound request to the external voting system, as handed to the
/// transport layer: the target identity, the proposal to approve, the
/// optional voting start time, the attached payment and the two resource
/// budgets (remote execution, then acknowledgment).
pub struct GovernanceRequest {
    pub target: String,
    pub proposal_id: u64,
    pub voting_start_time_sec: Option<u32>,
    pub deposit_yocto: u128,
    pub gas_tgas: u64,
    pub callback_gas_tgas: u64,
}

impl GovernanceRequest {
    /// A request is well-formed when it is addressed to the configured
    /// voting system with the fixed payment and budgets.
    pub open spec fn wf(self) -> bool {
        &&& self.target@ == spec_voting_contract()
        &&& self.deposit_yocto == YOCTO_DEPOSIT
        &&& self.gas_tgas == GAS_FOR_GOVERNANCE_TGAS
        &&& self.callback_gas_tgas == GAS_FOR_CALLBACK_TGAS
    }
}

/// What the external voting system reported for one request: its success
/// payload (opaque to this proxy), or a failure detail covering remote
/// errors, rejections and resource exhaustion alike.
pub enum RemoteOutcome {
    Success,
    Failure(String),
}

/// The phase of one governance invocation.
pub enum Phase {
    Idle,
    Requested,
    Acknowledged,
    Failed,
}

/// The record an acknowledgment leaves behind for observability: which
/// proposal was approved, or which failed and why.  No durable per-proposal
/// ledger exists, so this record is the whole effect.
pub enum CallbackEvent {
    Approved { proposal_id: u64 },
    RemoteFailed { proposal_id: u64, detail: String },
}

/// One governance invocation's own state machine.  Distinct invocations
/// are independent: nothing here touches the contract root.
pub struct GovernanceCall {
    pub proposal_id: u64,
    pub voting_start_time_sec: Option<u32>,
    pub phase: Phase,
}

impl GovernanceCall {
    /// A fresh, not yet issued invocation.
    pub fn new(proposal_id: u64, voting_start_time_sec: Option<u32>) -> (c: GovernanceCall)
        ensures
            c.proposal_id == proposal_id,
            c.voting_start_time_sec == voting_start_time_sec,
            c.phase is Idle,
    {
        GovernanceCall { proposal_id, voting_start_time_sec, phase: Phase::Idle }
    }

    /// `Idle -> Requested`: issues the single outbound request.  The
    /// request carries this invocation's proposal and start time, the fixed
    /// payment and both budgets; the invocation itself does not block.
    pub fn request(&mut self) -> (r: GovernanceRequest)
        requires
            old(self).phase is Idle,
        ensures
            final(self).phase is Requested,
            final(self).proposal_id == old(self).proposal_id,
            final(self).voting_start_time_sec == old(self).voting_start_time_sec,
            r.wf(),
            r.proposal_id == old(self).proposal_id,
            r.voting_start_time_sec == old(self).voting_start_time_sec,
    {
        self.phase = Phase::Requested;
        GovernanceRequest {
            target: voting_contract(),
            proposal_id: self.proposal_id,
            voting_start_time_sec: self.voting_start_time_sec,
            deposit_yocto: YOCTO_DEPOSIT,
            gas_tgas: GAS_FOR_GOVERNANCE_TGAS,
            callback_gas_tgas: GAS_FOR_CALLBACK_TGAS,
        }
    }

    /// `Requested -> (Acknowledged | Failed)`: records the remote outcome,
    /// exactly once, and hands back the observability record.  Nothing is
    /// retried, rolled back or compensated.
    pub fn acknowledge(&mut self, outcome: RemoteOutcome) -> (ev: CallbackEvent)
        requires
            old(self).phase is Requested,
        ensures
            final(self).proposal_id == old(self).proposal_id,
            final(self).voting_start_time_sec == old(self).voting_start_time_sec,
            outcome is Success ==> final(self).phase is Acknowledged && ev
                == (CallbackEvent::Approved { proposal_id: old(self).proposal_id }),
            outcome matches RemoteOutcome::Failure(d) ==> final(self).phase is Failed && ev == (
            CallbackEvent::RemoteFailed { proposal_id: old(self).proposal_id, detail: d }),
    {
        match outcome {
            RemoteOutcome::Success => {
                self.phase = Phase::Acknowledged;
                CallbackEvent::Approved { proposal_id: self.proposal_id }
            },
            RemoteOutcome::Failure(detail) => {
                self.phase = Phase::Failed;
                CallbackEvent::RemoteFailed { proposal_id: self.proposal_id, detail }
            },
        }
    }
}

} // verus!
