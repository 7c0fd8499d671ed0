//! The policy component: the administrator slot, the per-delegate
//! allow-lists and the global policy-signer set, the gated administration
//! operations over them, and the evaluator that decides a requested action.
//!
//! The surrounding wallet runtime owns the component's persistence and calls
//! it serially: every administration call and every evaluation runs to
//! completion against the state before the next call is observed. Every
//! failure is returned before any state is written, so a caller that aborts
//! on an error never observes a partial mutation.

use vstd::prelude::*;
use crate::ident::{DelegateKey, Identity, identity_eq};
use crate::store::{AllowLists, IdentitySet, id_set, distinct_ids};
use crate::request::{SignerClaim, Action, extract_recipient, transfer_function, transfer_name, recipient_of};

verus! {

/// Why the policy refuses an operation or denies an action.
#[derive(Clone, Copy, Debug, PartialEq, Eq, Structural)]
pub enum Error {
    /// `init` was called on an already-initialized policy.
    AlreadyInitialized,
    /// An administration operation was called before `init`.
    NotInitialized,
    /// `update_wallet_signer` named a delegate that was never added; or an
    /// action was claimed by a delegate with no allow-list record at all.
    NotFound,
    /// The caller is not the administrator; or the action list does not hold
    /// exactly one action; or the claiming identity is not a raw-key signer;
    /// or the single action is not a contract call.
    NotAllowed,
    /// The recipient argument is missing or does not decode as an account
    /// identity; or the recipient is in no permitted set.
    InvalidRecipient,
    /// The single action calls a function other than the whitelisted
    /// transfer.
    InvalidFunction,
}

/// What an administration operation directs the surrounding runtime to
/// carry to the external wallet-management service. The policy itself never
/// talks to the wallet; it decides, and the runtime performs.
pub enum WalletDirective {
    /// Register the delegate key as a signer on the wallet, scoped to this
    /// policy.
    Register { wallet: Identity, delegate: DelegateKey },
    /// Revoke the delegate key's signer status on the wallet.
    Revoke { wallet: Identity, delegate: DelegateKey },
}

/// The delegated-transfer policy's authorization state.
pub struct WalletTransferPolicy {
    admin: Option<Identity>,
    delegates: AllowLists,
    policy_signers: IdentitySet,
}

/// The decision the policy gate reaches for an action list claimed by a
/// signer identity, against the given allow-lists and policy-signer set.
/// The checks run in a strict order:
/// exactly one action; a raw-key claim; a contract call; the whitelisted
/// transfer function; a recipient argument that decodes; a recorded
/// allow-list for the claiming delegate; and membership of the recipient in
/// that allow-list or, failing that, in the global policy-signer set.
pub open spec fn eval_decision(
    allow: Map<Seq<u8>, Set<Seq<u8>>>,
    signers: Set<Seq<u8>>,
    claim: SignerClaim,
    actions: Seq<Action>,
) -> Result<(), Error> {
    if actions.len() != 1 {
        Err(Error::NotAllowed)
    } else {
        match claim {
            SignerClaim::RawKey(key) => match actions[0] {
                Action::Call(req) => {
                    if req.function@ != transfer_name() {
                        Err(Error::InvalidFunction)
                    } else {
                        match recipient_of(req) {
                            Option::None => Err(Error::InvalidRecipient),
                            Option::Some(rec) => {
                                if !allow.dom().contains(key@) {
                                    Err(Error::NotFound)
                                } else if allow[key@].contains(rec) || signers.contains(rec) {
                                    Ok(())
                                } else {
                                    Err(Error::InvalidRecipient)
                                }
                            },
                        }
                    }
                },
                Action::HostOperation => Err(Error::NotAllowed),
            },
            _ => Err(Error::NotAllowed),
        }
    }
}

impl WalletTransferPolicy {
    /// Both stores keep their shape: allow-lists keyed at most once per
    /// delegate, every recorded set free of duplicates.
    pub closed spec fn wf(self) -> bool {
        self.delegates.wf() && self.policy_signers.wf()
    }

    /// The administrator stored by `init`, once initialization has happened.
    pub closed spec fn admin_id(self) -> Option<Seq<u8>> {
        match self.admin {
            Option::Some(a) => Some(a@),
            Option::None => None,
        }
    }

    /// Delegate key to the set of counterparties that delegate may direct a
    /// transfer toward.
    pub closed spec fn allow_lists(self) -> Map<Seq<u8>, Set<Seq<u8>>> {
        self.delegates@
    }

    /// The counterparties that any delegate may direct a transfer toward.
    pub closed spec fn policy_signer_set(self) -> Set<Seq<u8>> {
        self.policy_signers@
    }

    /// The administrator gate every mutation passes first: refused before
    /// initialization, and refused for every caller but the administrator.
    pub open spec fn admin_gate(self, caller: Seq<u8>) -> Result<(), Error> {
        match self.admin_id() {
            Option::None => Err(Error::NotInitialized),
            Option::Some(a) => if caller == a {
                Ok(())
            } else {
                Err(Error::NotAllowed)
            },
        }
    }

    fn check_admin(&self, caller: &Identity) -> (r: Result<(), Error>)
        ensures
            r == self.admin_gate(caller@),
    {
        match &self.admin {
            Option::None => Err(Error::NotInitialized),
            Option::Some(a) => {
                if identity_eq(caller, a) {
                    Ok(())
                } else {
                    Err(Error::NotAllowed)
                }
            },
        }
    }

    /// A fresh, uninitialized policy: no administrator, no allow-lists, no
    /// policy signers.
    pub fn new() -> (r: WalletTransferPolicy)
        ensures
            r.wf(),
            r.admin_id() is None,
            r.allow_lists() == Map::<Seq<u8>, Set<Seq<u8>>>::empty(),
            r.policy_signer_set() == Set::<Seq<u8>>::empty(),
    {
        WalletTransferPolicy {
            admin: None,
            delegates: AllowLists::new(),
            policy_signers: IdentitySet::empty(),
        }
    }

    /// Stores the administrator and the empty policy-signer set. Fails with
    /// `AlreadyInitialized`, and writes nothing, if an administrator is
    /// already stored. Every other administration operation fails with
    /// `NotInitialized` until this has succeeded once.
    pub fn init(&mut self, admin: Identity) -> (r: Result<(), Error>)
        requires
            old(self).wf(),
        ensures
            final(self).wf(),
            (match old(self).admin_id() {
                Option::Some(_) => r == Err::<(), Error>(Error::AlreadyInitialized)
                    && *final(self) == *old(self),
                Option::None => {
                    &&& r == Ok::<(), Error>(())
                    &&& final(self).admin_id() == Some(admin@)
                    &&& final(self).allow_lists() == old(self).allow_lists()
                    &&& final(self).policy_signer_set() == Set::<Seq<u8>>::empty()
                },
            }),
    {
        if self.admin.is_some() {
            Err(Error::AlreadyInitialized)
        } else {
            self.admin = Some(admin);
            self.policy_signers = IdentitySet::empty();
            Ok(())
        }
    }

    /// Creates or overwrites the delegate's allow-list with the given
    /// counterparties — duplicates collapse, order carries no meaning, and a
    /// delegate that already existed is overwritten without error — and
    /// directs the runtime to register the delegate as a signer on the given
    /// wallet, scoped to this policy. Only the administrator may call this.
    pub fn add_wallet_signer(
        &mut self,
        caller: &Identity,
        signer_pubkey: &DelegateKey,
        smart_wallet: &Identity,
        authorized_recipients: &Vec<Identity>,
    ) -> (r: Result<WalletDirective, Error>)
        requires
            old(self).wf(),
        ensures
            final(self).wf(),
            (match old(self).admin_gate(caller@) {
                Result::Err(e) => r == Err::<WalletDirective, Error>(e)
                    && *final(self) == *old(self),
                Result::Ok(_) => {
                    &&& (r matches Ok(d)
                        && d matches WalletDirective::Register { wallet, delegate }
                        && wallet@ == smart_wallet@ && delegate@ == signer_pubkey@)
                    &&& final(self).allow_lists() == old(self).allow_lists()
                        .insert(signer_pubkey@, id_set(authorized_recipients@))
                    &&& final(self).admin_id() == old(self).admin_id()
                    &&& final(self).policy_signer_set() == old(self).policy_signer_set()
                },
            }),
    {
        match self.check_admin(caller) {
            Result::Err(e) => Err(e),
            Result::Ok(_) => {
                let list = IdentitySet::from_items(authorized_recipients);
                self.delegates.set_list(*signer_pubkey, list);
                Ok(WalletDirective::Register {
                    wallet: smart_wallet.clone(),
                    delegate: *signer_pubkey,
                })
            },
        }
    }

    /// The storage effect of `add_wallet_signer` alone, for harnesses that
    /// run the policy without a wallet to register the delegate on.
    pub fn add_wallet_signer_test_only(
        &mut self,
        caller: &Identity,
        signer_pubkey: &DelegateKey,
        authorized_recipients: &Vec<Identity>,
    ) -> (r: Result<(), Error>)
        requires
            old(self).wf(),
        ensures
            final(self).wf(),
            (match old(self).admin_gate(caller@) {
                Result::Err(e) => r == Err::<(), Error>(e) && *final(self) == *old(self),
                Result::Ok(_) => {
                    &&& r == Ok::<(), Error>(())
                    &&& final(self).allow_lists() == old(self).allow_lists()
                        .insert(signer_pubkey@, id_set(authorized_recipients@))
                    &&& final(self).admin_id() == old(self).admin_id()
                    &&& final(self).policy_signer_set() == old(self).policy_signer_set()
                },
            }),
    {
        match self.check_admin(caller) {
            Result::Err(e) => Err(e),
            Result::Ok(_) => {
                let list = IdentitySet::from_items(authorized_recipients);
                self.delegates.set_list(*signer_pubkey, list);
                Ok(())
            },
        }
    }

    /// Deletes the delegate's allow-list record and directs the runtime to
    /// revoke the delegate's signer status on the given wallet. Deleting an
    /// absent delegate succeeds and changes nothing: the delete is
    /// deliberately idempotent, unlike `update_wallet_signer`. Only the
    /// administrator may call this.
    pub fn remove_wallet_signer(
        &mut self,
        caller: &Identity,
        signer_pubkey: &DelegateKey,
        smart_wallet: &Identity,
    ) -> (r: Result<WalletDirective, Error>)
        requires
            old(self).wf(),
        ensures
            final(self).wf(),
            (match old(self).admin_gate(caller@) {
                Result::Err(e) => r == Err::<WalletDirective, Error>(e)
                    && *final(self) == *old(self),
                Result::Ok(_) => {
                    &&& (r matches Ok(d)
                        && d matches WalletDirective::Revoke { wallet, delegate }
                        && wallet@ == smart_wallet@ && delegate@ == signer_pubkey@)
                    &&& final(self).allow_lists() == old(self).allow_lists()
                        .remove(signer_pubkey@)
                    &&& (!old(self).allow_lists().dom().contains(signer_pubkey@)
                        ==> final(self).allow_lists() == old(self).allow_lists())
                    &&& final(self).admin_id() == old(self).admin_id()
                    &&& final(self).policy_signer_set() == old(self).policy_signer_set()
                },
            }),
    {
        match self.check_admin(caller) {
            Result::Err(e) => Err(e),
            Result::Ok(_) => {
                self.delegates.remove_key(signer_pubkey);
                proof {
                    if !old(self).allow_lists().dom().contains(signer_pubkey@) {
                        assert(old(self).allow_lists().remove(signer_pubkey@)
                            =~= old(self).allow_lists());
                    }
                }
                Ok(WalletDirective::Revoke {
                    wallet: smart_wallet.clone(),
                    delegate: *signer_pubkey,
                })
            },
        }
    }

    /// The storage effect of `remove_wallet_signer` alone, for harnesses
    /// that run the policy without a wallet to revoke the delegate on.
    pub fn remove_wallet_signer_test_only(
        &mut self,
        caller: &Identity,
        signer_pubkey: &DelegateKey,
    ) -> (r: Result<(), Error>)
        requires
            old(self).wf(),
        ensures
            final(self).wf(),
            (match old(self).admin_gate(caller@) {
                Result::Err(e) => r == Err::<(), Error>(e) && *final(self) == *old(self),
                Result::Ok(_) => {
                    &&& r == Ok::<(), Error>(())
                    &&& final(self).allow_lists() == old(self).allow_lists()
                        .remove(signer_pubkey@)
                    &&& (!old(self).allow_lists().dom().contains(signer_pubkey@)
                        ==> final(self).allow_lists() == old(self).allow_lists())
                    &&& final(self).admin_id() == old(self).admin_id()
                    &&& final(self).policy_signer_set() == old(self).policy_signer_set()
                },
            }),
    {
        match self.check_admin(caller) {
            Result::Err(e) => Err(e),
            Result::Ok(_) => {
                self.delegates.remove_key(signer_pubkey);
                proof {
                    if !old(self).allow_lists().dom().contains(signer_pubkey@) {
                        assert(old(self).allow_lists().remove(signer_pubkey@)
                            =~= old(self).allow_lists());
                    }
                }
                Ok(())
            },
        }
    }

    /// Replaces the delegate's allow-list wholesale — no merge — and fails
    /// with `NotFound`, writing nothing, if the delegate has no record: an
    /// update names a delegate that some earlier add created and no remove
    /// has deleted since. Only the administrator may call this.
    pub fn update_wallet_signer(
        &mut self,
        caller: &Identity,
        signer_pubkey: &DelegateKey,
        authorized_recipients: &Vec<Identity>,
    ) -> (r: Result<(), Error>)
        requires
            old(self).wf(),
        ensures
            final(self).wf(),
            (match old(self).admin_gate(caller@) {
                Result::Err(e) => r == Err::<(), Error>(e) && *final(self) == *old(self),
                Result::Ok(_) => (if old(self).allow_lists().dom().contains(signer_pubkey@) {
                    &&& r == Ok::<(), Error>(())
                    &&& final(self).allow_lists() == old(self).allow_lists()
                        .insert(signer_pubkey@, id_set(authorized_recipients@))
                    &&& final(self).admin_id() == old(self).admin_id()
                    &&& final(self).policy_signer_set() == old(self).policy_signer_set()
                } else {
                    r == Err::<(), Error>(Error::NotFound) && *final(self) == *old(self)
                }),
            }),
    {
        match self.check_admin(caller) {
            Result::Err(e) => Err(e),
            Result::Ok(_) => {
                if !self.delegates.contains_key(signer_pubkey) {
                    return Err(Error::NotFound);
                }
                let list = IdentitySet::from_items(authorized_recipients);
                self.delegates.set_list(*signer_pubkey, list);
                Ok(())
            },
        }
    }

    /// Adds one counterparty to the global policy-signer set; adding a
    /// present member changes nothing. Only the administrator may call this.
    pub fn add_policy_signer(&mut self, caller: &Identity, signer_address: &Identity) -> (r: Result<
        (),
        Error,
    >)
        requires
            old(self).wf(),
        ensures
            final(self).wf(),
            (match old(self).admin_gate(caller@) {
                Result::Err(e) => r == Err::<(), Error>(e) && *final(self) == *old(self),
                Result::Ok(_) => {
                    &&& r == Ok::<(), Error>(())
                    &&& final(self).policy_signer_set() == old(self).policy_signer_set()
                        .insert(signer_address@)
                    &&& final(self).admin_id() == old(self).admin_id()
                    &&& final(self).allow_lists() == old(self).allow_lists()
                },
            }),
    {
        match self.check_admin(caller) {
            Result::Err(e) => Err(e),
            Result::Ok(_) => {
                self.policy_signers.insert(signer_address.clone());
                Ok(())
            },
        }
    }

    /// Deletes one counterparty from the global policy-signer set; deleting
    /// an absent member changes nothing. Only the administrator may call
    /// this.
    pub fn remove_policy_signer(
        &mut self,
        caller: &Identity,
        signer_address: &Identity,
    ) -> (r: Result<(), Error>)
        requires
            old(self).wf(),
        ensures
            final(self).wf(),
            (match old(self).admin_gate(caller@) {
                Result::Err(e) => r == Err::<(), Error>(e) && *final(self) == *old(self),
                Result::Ok(_) => {
                    &&& r == Ok::<(), Error>(())
                    &&& final(self).policy_signer_set() == old(self).policy_signer_set()
                        .remove(signer_address@)
                    &&& final(self).admin_id() == old(self).admin_id()
                    &&& final(self).allow_lists() == old(self).allow_lists()
                },
            }),
    {
        match self.check_admin(caller) {
            Result::Err(e) => Err(e),
            Result::Ok(_) => {
                self.policy_signers.remove(signer_address);
                Ok(())
            },
        }
    }

    /// The delegate's recorded allow-list as a list of counterparties, one
    /// entry per member, in an order that carries no meaning. A delegate
    /// with no record resolves to the empty list, never to an error. No
    /// authorization is required to read.
    pub fn get_authorized_recipients(&self, signer_pubkey: &DelegateKey) -> (r: Vec<Identity>)
        requires
            self.wf(),
        ensures
            distinct_ids(r@),
            id_set(r@) == (if self.allow_lists().dom().contains(signer_pubkey@) {
                self.allow_lists()[signer_pubkey@]
            } else {
                Set::<Seq<u8>>::empty()
            }),
    {
        match self.delegates.get_list(signer_pubkey) {
            Option::Some(list) => list.to_vec(),
            Option::None => {
                let r: Vec<Identity> = Vec::new();
                proof {
                    assert(id_set(r@) =~= Set::<Seq<u8>>::empty());
                }
                r
            },
        }
    }

    /// The global policy-signer set as a list, one entry per member, in an
    /// order that carries no meaning. No authorization is required to read.
    pub fn get_policy_signers(&self) -> (r: Vec<Identity>)
        requires
            self.wf(),
        ensures
            distinct_ids(r@),
            id_set(r@) == self.policy_signer_set(),
    {
        self.policy_signers.to_vec()
    }

    /// The policy gate: decides the given action list, claimed under the
    /// given signer identity, against the current authorization state, and
    /// reaches exactly the decision of `eval_decision`. Reads only; no
    /// evaluation ever mutates the state.
    pub fn evaluate(&self, claim: &SignerClaim, actions: &Vec<Action>) -> (r: Result<(), Error>)
        requires
            self.wf(),
        ensures
            r == eval_decision(self.allow_lists(), self.policy_signer_set(), *claim, actions@),
    {
        if actions.len() != 1 {
            return Err(Error::NotAllowed);
        }
        let key = match claim {
            SignerClaim::RawKey(k) => k,
            _ => {
                return Err(Error::NotAllowed);
            },
        };
        let req = match &actions[0] {
            Action::Call(req) => req,
            Action::HostOperation => {
                return Err(Error::NotAllowed);
            },
        };
        let selector = transfer_function();
        if !(req.function == selector) {
            return Err(Error::InvalidFunction);
        }
        let recipient = match extract_recipient(req) {
            Option::Some(a) => a,
            Option::None => {
                return Err(Error::InvalidRecipient);
            },
        };
        let list = match self.delegates.get_list(key) {
            Option::Some(list) => list,
            Option::None => {
                return Err(Error::NotFound);
            },
        };
        if list.contains(recipient) {
            return Ok(());
        }
        if self.policy_signers.contains(recipient) {
            return Ok(());
        }
        Err(Error::InvalidRecipient)
    }
}

} // verus!
