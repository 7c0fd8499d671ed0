//! The structured description of a requested action and of the identity
//! claiming it, as the surrounding wallet runtime hands them to the policy
//! gate. Transport and decoding of the raw host values is the runtime's
//! business; the policy receives the already-parsed shape.

use vstd::prelude::*;
use crate::ident::{DelegateKey, Identity};

verus! {

/// The shape of the identity under which an action is claimed. Only a
/// raw-key signer — a delegate registered under its public key — can pass
/// the policy gate; contract-based and policy-based signer identities are
/// refused outright.
pub enum SignerClaim {
    /// A delegate's raw 32-byte signing key.
    RawKey(DelegateKey),
    /// A contract-based signer identity.
    ContractKey(Identity),
    /// A policy-based signer identity.
    PolicyKey(Identity),
}

/// One argument of a requested contract call, as far as the policy reads
/// it: either it decodes as an account identity, or it is some other value
/// the policy never interprets.
pub enum CallArg {
    /// An argument that decodes as an account identity.
    Account(Identity),
    /// An argument holding a token amount.
    Amount(i128),
    /// Any other argument.
    Opaque,
}

/// A requested contract call: the target contract, the called function's
/// name, and the argument list.
pub struct CallRequest {
    pub contract: Identity,
    pub function: String,
    pub args: Vec<CallArg>,
}

/// One action submitted for authorization.
pub enum Action {
    /// A call of a contract function.
    Call(CallRequest),
    /// A host operation that is not a contract call, such as a contract
    /// deployment.
    HostOperation,
}

/// The name of the one function the policy whitelists: the token `transfer`
/// call.
pub open spec fn transfer_name() -> Seq<char> {
    "transfer"@
}

/// The whitelisted function name as an executable value.
pub fn transfer_function() -> (r: String)
    ensures
        r@ == transfer_name(),
{
    "transfer".to_owned()
}

/// The recipient a call is directed toward: by the transfer call's argument
/// convention, its second argument is the destination, and it must decode as
/// an account identity. The convention belongs to the external transfer
/// contract; the policy keeps it explicit here.
pub open spec fn recipient_of(req: CallRequest) -> Option<Seq<u8>> {
    if req.args@.len() >= 2 {
        match req.args@[1] {
            CallArg::Account(a) => Some(a@),
            _ => None,
        }
    } else {
        None
    }
}

/// Extracts the recipient argument, if the call carries one that decodes.
pub fn extract_recipient(req: &CallRequest) -> (r: Option<&Identity>)
    ensures
        (match r {
            Some(a) => recipient_of(*req) == Some(a@),
            None => recipient_of(*req) is None,
        }),
{
    if req.args.len() >= 2 {
        match &req.args[1] {
            CallArg::Account(a) => Some(a),
            _ => None,
        }
    } else {
        None
    }
}

} // verus!
