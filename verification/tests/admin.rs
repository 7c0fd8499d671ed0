use wallet_transfer_policy::ident::{delegate_key_eq, DelegateKey, Identity};
use wallet_transfer_policy::policy::{Error, WalletDirective, WalletTransferPolicy};

fn ident(bytes: &[u8]) -> Identity {
    Identity::new(bytes.to_vec())
}

fn initialized_policy(admin: &Identity) -> WalletTransferPolicy {
    let mut p = WalletTransferPolicy::new();
    p.init(admin.clone()).unwrap();
    p
}

#[test]
fn test_init() {
    let admin = ident(&[1]);
    let p = initialized_policy(&admin);

    let policy_signers = p.get_policy_signers();
    assert_eq!(policy_signers.len(), 0);
}

#[test]
fn test_init_already_initialized() {
    let admin = ident(&[1]);
    let mut p = initialized_policy(&admin);

    let r = p.init(admin.clone());
    assert_eq!(r, Err(Error::AlreadyInitialized));
}

#[test]
fn test_operations_before_init() {
    let caller = ident(&[1]);
    let recipient = ident(&[10]);
    let signer_pubkey = DelegateKey::new([1u8; 32]);

    let mut p = WalletTransferPolicy::new();
    let recipients = vec![recipient.clone()];

    let r = p.add_wallet_signer_test_only(&caller, &signer_pubkey, &recipients);
    assert_eq!(r, Err(Error::NotInitialized));
    let r = p.update_wallet_signer(&caller, &signer_pubkey, &recipients);
    assert_eq!(r, Err(Error::NotInitialized));
    let r = p.remove_wallet_signer_test_only(&caller, &signer_pubkey);
    assert_eq!(r, Err(Error::NotInitialized));
    let r = p.add_policy_signer(&caller, &recipient);
    assert_eq!(r, Err(Error::NotInitialized));
    let r = p.remove_policy_signer(&caller, &recipient);
    assert_eq!(r, Err(Error::NotInitialized));
}

#[test]
fn test_non_admin_caller_denied() {
    let admin = ident(&[1]);
    let stranger = ident(&[2]);
    let recipient = ident(&[10]);
    let signer_pubkey = DelegateKey::new([1u8; 32]);

    let mut p = initialized_policy(&admin);
    let recipients = vec![recipient.clone()];

    let r = p.add_wallet_signer_test_only(&stranger, &signer_pubkey, &recipients);
    assert_eq!(r, Err(Error::NotAllowed));
    let r = p.remove_wallet_signer_test_only(&stranger, &signer_pubkey);
    assert_eq!(r, Err(Error::NotAllowed));
    let r = p.add_policy_signer(&stranger, &recipient);
    assert_eq!(r, Err(Error::NotAllowed));

    // nothing was written by the refused calls
    assert_eq!(p.get_authorized_recipients(&signer_pubkey).len(), 0);
    assert_eq!(p.get_policy_signers().len(), 0);
}

#[test]
fn test_add_and_get_wallet_signer() {
    let admin = ident(&[1]);
    let recipient1 = ident(&[10]);
    let recipient2 = ident(&[11]);
    let signer_pubkey = DelegateKey::new([1u8; 32]);

    let mut p = initialized_policy(&admin);

    let authorized_recipients = vec![recipient1.clone(), recipient2.clone()];
    p.add_wallet_signer_test_only(&admin, &signer_pubkey, &authorized_recipients)
        .unwrap();

    let retrieved_recipients = p.get_authorized_recipients(&signer_pubkey);
    assert_eq!(retrieved_recipients.len(), 2);
    assert!(retrieved_recipients.contains(&recipient1));
    assert!(retrieved_recipients.contains(&recipient2));
}

#[test]
fn test_add_wallet_signer_directive() {
    let admin = ident(&[1]);
    let smart_wallet = ident(&[20]);
    let recipient = ident(&[10]);
    let signer_pubkey = DelegateKey::new([1u8; 32]);

    let mut p = initialized_policy(&admin);
    let recipients = vec![recipient.clone()];

    let r = p.add_wallet_signer(&admin, &signer_pubkey, &smart_wallet, &recipients);
    match r {
        Ok(WalletDirective::Register { wallet, delegate }) => {
            assert!(wallet == smart_wallet);
            assert!(delegate_key_eq(&delegate, &signer_pubkey));
        }
        _ => panic!("expected a register directive"),
    }
    assert_eq!(p.get_authorized_recipients(&signer_pubkey).len(), 1);
}

#[test]
fn test_duplicate_recipients_collapse() {
    let admin = ident(&[1]);
    let recipient1 = ident(&[10]);
    let recipient2 = ident(&[11]);
    let signer_pubkey = DelegateKey::new([1u8; 32]);

    let mut p = initialized_policy(&admin);

    let authorized_recipients = vec![recipient1.clone(), recipient1.clone(), recipient2.clone()];
    p.add_wallet_signer_test_only(&admin, &signer_pubkey, &authorized_recipients)
        .unwrap();

    let retrieved_recipients = p.get_authorized_recipients(&signer_pubkey);
    assert_eq!(retrieved_recipients.len(), 2);
    assert!(retrieved_recipients.contains(&recipient1));
    assert!(retrieved_recipients.contains(&recipient2));
}

#[test]
fn test_update_wallet_signer() {
    let admin = ident(&[1]);
    let recipient1 = ident(&[10]);
    let recipient2 = ident(&[11]);
    let recipient3 = ident(&[12]);
    let signer_pubkey = DelegateKey::new([1u8; 32]);

    let mut p = initialized_policy(&admin);

    let initial_recipients = vec![recipient1.clone(), recipient2.clone()];
    p.add_wallet_signer_test_only(&admin, &signer_pubkey, &initial_recipients)
        .unwrap();

    let updated_recipients = vec![recipient2.clone(), recipient3.clone()];
    p.update_wallet_signer(&admin, &signer_pubkey, &updated_recipients)
        .unwrap();

    let retrieved_recipients = p.get_authorized_recipients(&signer_pubkey);
    assert_eq!(retrieved_recipients.len(), 2);
    assert!(retrieved_recipients.contains(&recipient2));
    assert!(retrieved_recipients.contains(&recipient3));
    assert!(!retrieved_recipients.contains(&recipient1)); // Should be removed
}

#[test]
fn test_update_nonexistent_wallet_signer() {
    let admin = ident(&[1]);
    let recipient = ident(&[10]);
    let signer_pubkey = DelegateKey::new([1u8; 32]);

    let mut p = initialized_policy(&admin);

    let recipients = vec![recipient];
    let r = p.update_wallet_signer(&admin, &signer_pubkey, &recipients);
    assert_eq!(r, Err(Error::NotFound));
}

#[test]
fn test_update_after_remove_not_found() {
    let admin = ident(&[1]);
    let recipient = ident(&[10]);
    let signer_pubkey = DelegateKey::new([1u8; 32]);

    let mut p = initialized_policy(&admin);
    let recipients = vec![recipient.clone()];

    p.add_wallet_signer_test_only(&admin, &signer_pubkey, &recipients)
        .unwrap();
    p.remove_wallet_signer_test_only(&admin, &signer_pubkey)
        .unwrap();

    let r = p.update_wallet_signer(&admin, &signer_pubkey, &recipients);
    assert_eq!(r, Err(Error::NotFound));
}

#[test]
fn test_remove_wallet_signer() {
    let admin = ident(&[1]);
    let recipient = ident(&[10]);
    let signer_pubkey = DelegateKey::new([1u8; 32]);

    let mut p = initialized_policy(&admin);

    let recipients = vec![recipient.clone()];
    p.add_wallet_signer_test_only(&admin, &signer_pubkey, &recipients)
        .unwrap();

    let retrieved_recipients = p.get_authorized_recipients(&signer_pubkey);
    assert_eq!(retrieved_recipients.len(), 1);

    p.remove_wallet_signer_test_only(&admin, &signer_pubkey)
        .unwrap();

    let retrieved_recipients = p.get_authorized_recipients(&signer_pubkey);
    assert_eq!(retrieved_recipients.len(), 0);
}

#[test]
fn test_remove_wallet_signer_directive() {
    let admin = ident(&[1]);
    let smart_wallet = ident(&[20]);
    let recipient = ident(&[10]);
    let signer_pubkey = DelegateKey::new([1u8; 32]);

    let mut p = initialized_policy(&admin);
    let recipients = vec![recipient.clone()];
    p.add_wallet_signer_test_only(&admin, &signer_pubkey, &recipients)
        .unwrap();

    let r = p.remove_wallet_signer(&admin, &signer_pubkey, &smart_wallet);
    match r {
        Ok(WalletDirective::Revoke { wallet, delegate }) => {
            assert!(wallet == smart_wallet);
            assert!(delegate_key_eq(&delegate, &signer_pubkey));
        }
        _ => panic!("expected a revoke directive"),
    }
    assert_eq!(p.get_authorized_recipients(&signer_pubkey).len(), 0);
}

#[test]
fn test_remove_absent_wallet_signer_idempotent() {
    let admin = ident(&[1]);
    let recipient = ident(&[10]);
    let kept_pubkey = DelegateKey::new([1u8; 32]);
    let absent_pubkey = DelegateKey::new([2u8; 32]);

    let mut p = initialized_policy(&admin);
    let recipients = vec![recipient.clone()];
    p.add_wallet_signer_test_only(&admin, &kept_pubkey, &recipients)
        .unwrap();

    // removing a delegate that was never added succeeds and changes nothing
    let r = p.remove_wallet_signer_test_only(&admin, &absent_pubkey);
    assert_eq!(r, Ok(()));
    assert_eq!(p.get_authorized_recipients(&kept_pubkey).len(), 1);

    // removing twice in a row ends in the same state as removing once
    p.remove_wallet_signer_test_only(&admin, &kept_pubkey)
        .unwrap();
    let once = p.get_authorized_recipients(&kept_pubkey);
    let r = p.remove_wallet_signer_test_only(&admin, &kept_pubkey);
    assert_eq!(r, Ok(()));
    let twice = p.get_authorized_recipients(&kept_pubkey);
    assert_eq!(once.len(), 0);
    assert_eq!(twice.len(), 0);
}

#[test]
fn test_add_and_remove_policy_signer() {
    let admin = ident(&[1]);
    let policy_signer = ident(&[30]);

    let mut p = initialized_policy(&admin);

    p.add_policy_signer(&admin, &policy_signer).unwrap();

    let policy_signers = p.get_policy_signers();
    assert_eq!(policy_signers.len(), 1);
    assert!(policy_signers.contains(&policy_signer));

    p.remove_policy_signer(&admin, &policy_signer).unwrap();

    let policy_signers = p.get_policy_signers();
    assert_eq!(policy_signers.len(), 0);
}
