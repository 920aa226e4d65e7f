//! A minimal authorization proxy for a privileged governance action.
//!
//! The contract root owns an owner identity, a registry of approved
//! codehashes, and a directory of registered workers.  A governance call is
//! allowed only for a caller whose registered codehash is currently in the
//! registry; the call itself is relayed to an external voting system as an
//! asynchronous request whose outcome arrives later through a callback.

pub mod contract;
pub mod errors;
pub mod laws;
pub mod proxy;

pub use contract::Contract;
pub use contract::Worker;
pub use errors::Error;
pub use proxy::CallbackEvent;
pub use proxy::GovernanceCall;
pub use proxy::GovernanceRequest;
pub use proxy::RemoteOutcome;
