//! A verified core for a talent-token service.
//!
//! The library models the service's durable state — token records, faucet
//! requests, the one-token-per-user index and purchase histories — over a
//! paged byte store, together with the rules that govern it: admin
//! registration and hand-over, the faucet request state machine, the
//! delegated-transfer protocol, and the multi-step token provisioning
//! workflow.  Every operation is specified against a mathematical view of
//! the state; the calls that leave the process (ledger transfers, resource
//! creation, code installation) are represented as order values that an
//! unverified shell performs, feeding the outcome back into the next
//! verified step.  A small companion registry keeps one user profile per
//! identity over a store of its own.

pub mod identity;
pub mod errors;
pub mod codec;
pub mod store;
pub mod types;
pub mod typed;
pub mod transfer;
pub mod state;
pub mod provision;
pub mod laws;
pub mod profiles;
