use governance_proxy::contract::Contract;
use governance_proxy::errors::Error;
use governance_proxy::proxy::voting_contract;
use governance_proxy::proxy::CallbackEvent;
use governance_proxy::proxy::GovernanceCall;
use governance_proxy::proxy::Phase;
use governance_proxy::proxy::RemoteOutcome;
use governance_proxy::proxy::GAS_FOR_CALLBACK_TGAS;
use governance_proxy::proxy::GAS_FOR_GOVERNANCE_TGAS;
use governance_proxy::proxy::YOCTO_DEPOSIT;

fn owned(s: &str) -> String {
    s.to_string()
}

#[test]
fn init_starts_empty() {
    let c = Contract::init(owned("alice.testnet"));
    assert_eq!(c.owner(), "alice.testnet");
    assert!(!c.is_approved(&owned("abc123")));
    assert!(matches!(c.get_agent(&owned("alice.testnet")), Err(Error::NotFound)));
}

#[test]
fn get_agent_unregistered_is_not_found() {
    let mut c = Contract::init(owned("alice.testnet"));
    assert!(matches!(c.get_agent(&owned("worker.testnet")), Err(Error::NotFound)));
    // Registering one identity does not create records for others.
    assert!(c.register_agent(&owned("worker.testnet"), owned("abc123")));
    assert!(matches!(c.get_agent(&owned("other.testnet")), Err(Error::NotFound)));
}

#[test]
fn approve_codehash_adds_membership_and_is_idempotent() {
    let mut c = Contract::init(owned("alice.testnet"));
    let owner = owned("alice.testnet");
    assert!(c.approve_codehash(&owner, owned("abc123")).is_ok());
    assert!(c.is_approved(&owned("abc123")));
    // Repeating the call is a no-op: it still succeeds and membership holds.
    assert!(c.approve_codehash(&owner, owned("abc123")).is_ok());
    assert!(c.is_approved(&owned("abc123")));
    assert!(!c.is_approved(&owned("other")));
}

#[test]
fn approve_codehash_by_non_owner_is_unauthorized() {
    let mut c = Contract::init(owned("alice.testnet"));
    let r = c.approve_codehash(&owned("mallory.testnet"), owned("abc123"));
    assert!(matches!(r, Err(Error::Unauthorized)));
    // The registry is left unchanged.
    assert!(!c.is_approved(&owned("abc123")));
}

#[test]
fn register_agent_records_and_overwrites() {
    let mut c = Contract::init(owned("alice.testnet"));
    let w = owned("worker.testnet");
    assert!(c.register_agent(&w, owned("c1")));
    assert_eq!(c.get_agent(&w).unwrap().codehash, "c1");
    // A second registration overwrites; there is no merge.
    assert!(c.register_agent(&w, owned("c2")));
    assert_eq!(c.get_agent(&w).unwrap().codehash, "c2");
}

#[test]
fn approve_proposal_demands_live_trust() {
    let mut c = Contract::init(owned("alice.testnet"));
    let w = owned("worker.testnet");
    // Unregistered: the missing record propagates as NotFound.
    assert!(matches!(c.approve_proposal(&w, 7, None), Err(Error::NotFound)));
    // Registered under a codehash that was never approved: Unauthorized.
    c.register_agent(&w, owned("zzz999"));
    assert!(matches!(c.approve_proposal(&w, 7, None), Err(Error::Unauthorized)));
    // Approving a different codehash does not help.
    c.approve_codehash(&owned("alice.testnet"), owned("abc123")).unwrap();
    assert!(matches!(c.approve_proposal(&w, 7, None), Err(Error::Unauthorized)));
    // Re-registering under the approved codehash makes the caller trusted.
    c.register_agent(&w, owned("abc123"));
    assert!(c.approve_proposal(&w, 7, None).is_ok());
}

#[test]
fn approved_worker_flow_requests_and_acknowledges() {
    let mut c = Contract::init(owned("alice.testnet"));
    let w = owned("worker.testnet");
    c.approve_codehash(&owned("alice.testnet"), owned("abc123")).unwrap();
    assert!(c.register_agent(&w, owned("abc123")));

    let (mut call, req) = c.approve_proposal(&w, 42, None).unwrap();
    assert!(matches!(call.phase, Phase::Requested));
    assert_eq!(req.proposal_id, 42);
    assert_eq!(req.voting_start_time_sec, None);
    assert_eq!(req.target, "shade.ballotbox.testnet");
    assert_eq!(req.deposit_yocto, YOCTO_DEPOSIT);
    assert_eq!(req.gas_tgas, GAS_FOR_GOVERNANCE_TGAS);
    assert_eq!(req.callback_gas_tgas, GAS_FOR_CALLBACK_TGAS);

    // A later successful acknowledgment records success for proposal 42.
    let ev = call.acknowledge(RemoteOutcome::Success);
    assert!(matches!(call.phase, Phase::Acknowledged));
    assert!(matches!(ev, CallbackEvent::Approved { proposal_id: 42 }));

    // The callback entry point reports the same events on the contract.
    let ev2 = c.governance_callback(42, RemoteOutcome::Success);
    assert!(matches!(ev2, CallbackEvent::Approved { proposal_id: 42 }));

    // A failed acknowledgment records the detail and alters no state.
    let ev3 = c.governance_callback(42, RemoteOutcome::Failure(owned("timeout")));
    match ev3 {
        CallbackEvent::RemoteFailed { proposal_id, detail } => {
            assert_eq!(proposal_id, 42);
            assert_eq!(detail, "timeout");
        }
        _ => panic!("expected a failure record"),
    }
    assert_eq!(c.get_agent(&w).unwrap().codehash, "abc123");
    assert!(c.is_approved(&owned("abc123")));
}

#[test]
fn unapproved_worker_gets_no_request() {
    let mut c = Contract::init(owned("alice.testnet"));
    let w = owned("worker.testnet");
    assert!(c.register_agent(&w, owned("zzz999")));
    // The codehash was never approved, so no remote request is issued.
    assert!(matches!(c.approve_proposal(&w, 42, None), Err(Error::Unauthorized)));
}

#[test]
fn governance_call_walks_its_state_machine() {
    let mut call = GovernanceCall::new(9, Some(12_345));
    assert!(matches!(call.phase, Phase::Idle));
    let req = call.request();
    assert!(matches!(call.phase, Phase::Requested));
    assert_eq!(req.proposal_id, 9);
    assert_eq!(req.voting_start_time_sec, call.voting_start_time_sec);

    let ev = call.acknowledge(RemoteOutcome::Failure(owned("rejected")));
    assert!(matches!(call.phase, Phase::Failed));
    match ev {
        CallbackEvent::RemoteFailed { proposal_id, detail } => {
            assert_eq!(proposal_id, 9);
            assert_eq!(detail, "rejected");
        }
        _ => panic!("expected a failure record"),
    }
}

#[test]
fn voting_contract_is_fixed() {
    assert_eq!(voting_contract(), "shade.ballotbox.testnet");
}
