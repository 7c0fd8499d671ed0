//! A delegated-authorization policy for a smart-wallet account.
//!
//! The library keeps the authorization state of the policy — the
//! administrator, one allow-list of counterparties per delegate key, and a
//! global set of policy signers — and decides, for a single action requested
//! by a delegated signing key, whether that action may proceed.
//!
//! The surrounding wallet runtime owns everything else: it authenticates the
//! administrator, persists the state between calls, executes the actions that
//! the evaluator accepts, and carries the signer registrations that the
//! administration operations direct it to perform.

pub mod ident;
pub mod store;
pub mod request;
pub mod policy;
pub mod laws;
