//! The laws the policy obeys, stated and proved once over `eval_decision`
//! and the store views that the operations' contracts speak of.

use vstd::prelude::*;
use crate::ident::Identity;
use crate::store::{id_set, distinct_ids};
use crate::policy::{eval_decision, Error};
use crate::request::{SignerClaim, Action, recipient_of, transfer_name};

verus! {

/// A single well-formed transfer request: exactly one action, claimed under
/// the raw key `key`, calling the whitelisted transfer function with a
/// second argument that decodes as the recipient `rec`.
pub open spec fn single_transfer(
    claim: SignerClaim,
    actions: Seq<Action>,
    key: Seq<u8>,
    rec: Seq<u8>,
) -> bool {
    &&& actions.len() == 1
    &&& (claim matches SignerClaim::RawKey(k) && k@ == key)
    &&& (actions[0] matches Action::Call(req)
        && req.function@ == transfer_name()
        && recipient_of(req) == Some(rec))
}

/// For a delegate with a recorded allow-list, a single well-formed transfer
/// is accepted exactly when its recipient is in that allow-list or in the
/// global policy-signer set, and is denied `InvalidRecipient` otherwise.
pub proof fn lemma_accept_iff_permitted(
    allow: Map<Seq<u8>, Set<Seq<u8>>>,
    signers: Set<Seq<u8>>,
    claim: SignerClaim,
    actions: Seq<Action>,
    key: Seq<u8>,
    rec: Seq<u8>,
)
    requires
        single_transfer(claim, actions, key, rec),
        allow.dom().contains(key),
    ensures
        eval_decision(allow, signers, claim, actions) == Ok::<(), Error>(())
            <==> (allow[key].contains(rec) || signers.contains(rec)),
        !(allow[key].contains(rec) || signers.contains(rec))
            ==> eval_decision(allow, signers, claim, actions)
                == Err::<(), Error>(Error::InvalidRecipient),
{
}

/// A single well-formed transfer is denied `NotFound` exactly when the
/// claiming delegate has no allow-list record at all — an empty recorded
/// list denies differently — and whatever the policy-signer set holds: the
/// decision to deny `NotFound` is the same under any two signer sets.
pub proof fn lemma_not_found_iff_no_record(
    allow: Map<Seq<u8>, Set<Seq<u8>>>,
    signers: Set<Seq<u8>>,
    other_signers: Set<Seq<u8>>,
    claim: SignerClaim,
    actions: Seq<Action>,
    key: Seq<u8>,
    rec: Seq<u8>,
)
    requires
        single_transfer(claim, actions, key, rec),
    ensures
        eval_decision(allow, signers, claim, actions) == Err::<(), Error>(Error::NotFound)
            <==> !allow.dom().contains(key),
        (eval_decision(allow, signers, claim, actions) == Err::<(), Error>(Error::NotFound))
            == (eval_decision(allow, other_signers, claim, actions)
                == Err::<(), Error>(Error::NotFound)),
{
}

/// An action list that does not hold exactly one action is denied
/// `NotAllowed`, whatever the state, whoever claims it, and whatever the
/// bundled actions are — even if each of them alone would be authorized.
pub proof fn lemma_bundle_denied(
    allow: Map<Seq<u8>, Set<Seq<u8>>>,
    signers: Set<Seq<u8>>,
    claim: SignerClaim,
    actions: Seq<Action>,
)
    requires
        actions.len() != 1,
    ensures
        eval_decision(allow, signers, claim, actions) == Err::<(), Error>(Error::NotAllowed),
{
}

/// Removing a delegate's record is idempotent: removing an absent record
/// leaves the allow-lists as they are, and removing twice in a row reaches
/// the state that removing once reaches. This is the shape
/// `remove_wallet_signer` promises of the allow-lists.
pub proof fn lemma_remove_delegate_idempotent(allow: Map<Seq<u8>, Set<Seq<u8>>>, key: Seq<u8>)
    ensures
        allow.remove(key).remove(key) == allow.remove(key),
        !allow.dom().contains(key) ==> allow.remove(key) == allow,
{
    assert(allow.remove(key).remove(key) =~= allow.remove(key));
    if !allow.dom().contains(key) {
        assert(allow.remove(key) =~= allow);
    }
}

/// Round trip: storing an allow-list for a delegate and reading it back
/// yields exactly the stored counterparties, as sets — order never matters
/// and duplicates have collapsed. `add_wallet_signer` and
/// `update_wallet_signer` store `id_set(given)` under the key, and
/// `get_authorized_recipients` reads back any list `read_back` denoting the
/// recorded set.
pub proof fn lemma_allow_list_round_trip(
    allow: Map<Seq<u8>, Set<Seq<u8>>>,
    key: Seq<u8>,
    given: Seq<Identity>,
    read_back: Seq<Identity>,
)
    requires
        distinct_ids(read_back),
        id_set(read_back) == allow.insert(key, id_set(given))[key],
    ensures
        id_set(read_back) == id_set(given),
{
}

} // verus!
