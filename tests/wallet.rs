use quorum_wallet::crypto::{BackendError, LocalSigner, PUBLIC_KEY_BYTES, SECRET_KEY_BYTES};
use quorum_wallet::error::WalletError;
use quorum_wallet::ledger::SignatureLedger;
use quorum_wallet::owner_map::OwnerMap;
use quorum_wallet::registry::OwnerRegistry;
use quorum_wallet::session::{HsmSession, SessionAction, SessionEvent};
use quorum_wallet::wallet::QuantumSafeWallet;

const MESSAGE: &[u8] = b"Transfer 10 coins";

struct Party {
    public_key: Vec<u8>,
    signer: LocalSigner,
}

fn party() -> Party {
    let (public_key, signer) = LocalSigner::generate();
    Party { public_key, signer }
}

fn owners_of(names: &[&str], parties: &[Party]) -> OwnerMap {
    let mut owners = OwnerMap::new();
    for (name, p) in names.iter().zip(parties.iter()) {
        owners.insert(name, p.public_key.clone());
    }
    owners
}

fn three_party_wallet() -> (QuantumSafeWallet, Vec<Party>) {
    let parties = vec![party(), party(), party()];
    let owners = owners_of(&["Alice", "Bob", "Carol"], &parties);
    let wallet = QuantumSafeWallet::new(owners, 2, MESSAGE.to_vec()).unwrap();
    (wallet, parties)
}

fn key_owners(n: usize) -> OwnerMap {
    let mut owners = OwnerMap::new();
    for i in 0..n {
        owners.insert(&format!("owner{}", i), vec![i as u8; PUBLIC_KEY_BYTES]);
    }
    owners
}

#[test]
fn threshold_must_lie_between_one_and_owner_count() {
    for t in 0..6usize {
        let r = OwnerRegistry::new(key_owners(3), t);
        if (1..=3).contains(&t) {
            let g = r.unwrap();
            assert_eq!(g.threshold(), t);
            assert_eq!(g.owner_count(), 3);
        } else {
            assert!(matches!(r, Err(WalletError::InvalidThreshold)));
        }
    }
}

#[test]
fn empty_owner_set_is_refused() {
    assert!(matches!(OwnerRegistry::new(OwnerMap::new(), 0), Err(WalletError::InvalidThreshold)));
    assert!(matches!(OwnerRegistry::new(OwnerMap::new(), 1), Err(WalletError::InvalidThreshold)));
    assert!(matches!(
        QuantumSafeWallet::new(OwnerMap::new(), 1, MESSAGE.to_vec()),
        Err(WalletError::InvalidThreshold)
    ));
}

#[test]
fn wallet_threshold_above_owner_count_is_refused() {
    assert!(matches!(
        QuantumSafeWallet::new(key_owners(2), 3, MESSAGE.to_vec()),
        Err(WalletError::InvalidThreshold)
    ));
}

#[test]
fn owner_map_replaces_existing_entry() {
    let mut m = OwnerMap::new();
    m.insert("Alice", vec![1]);
    m.insert("Bob", vec![2]);
    m.insert("Alice", vec![3]);
    assert_eq!(m.len(), 2);
    assert_eq!(m.get("Alice"), Some(&vec![3]));
    assert_eq!(m.get("Bob"), Some(&vec![2]));
    assert_eq!(m.get("Carol"), None);
    assert_eq!(m.owner_at(0).as_str(), "Alice");
    assert!(m.contains("Bob"));
    assert!(!m.contains("Carol"));
}

#[test]
fn registry_lookup_finds_public_keys() {
    let owners = key_owners(3);
    let g = OwnerRegistry::new(owners, 2).unwrap();
    assert_eq!(g.lookup("owner1"), Some(&vec![1u8; PUBLIC_KEY_BYTES]));
    assert_eq!(g.lookup("Eve"), None);
    assert!(g.is_owner("owner2"));
    assert!(!g.is_owner("Eve"));
}

#[test]
fn generated_keys_have_scheme_lengths() {
    let p = party();
    assert_eq!(p.public_key.len(), PUBLIC_KEY_BYTES);
    let sig = p.signer.sign(MESSAGE).unwrap();
    assert_eq!(sig.len(), quorum_wallet::crypto::SIGNATURE_BYTES);
    assert_ne!(sig, MESSAGE.to_vec());
}

#[test]
fn two_of_three_authorizes_after_second_signature() {
    let (mut wallet, parties) = three_party_wallet();
    assert!(!wallet.is_authorized());
    assert_eq!(wallet.contribute("Alice", &parties[0].signer), Ok(()));
    assert_eq!(wallet.valid_signature_count(), 1);
    assert!(!wallet.is_authorized());
    assert_eq!(wallet.contribute("Bob", &parties[1].signer), Ok(()));
    assert_eq!(wallet.valid_signature_count(), 2);
    assert!(wallet.is_authorized());
    assert!(wallet.verify_transaction(MESSAGE));
}

#[test]
fn unknown_owner_leaves_ledger_unchanged() {
    let (mut wallet, parties) = three_party_wallet();
    assert_eq!(wallet.contribute("Alice", &parties[0].signer), Ok(()));
    let eve = party();
    assert_eq!(wallet.contribute("Eve", &eve.signer), Err(WalletError::UnknownOwner));
    assert_eq!(wallet.ledger().len(), 1);
    assert!(matches!(wallet.begin_hsm_contribution("Eve"), Err(WalletError::UnknownOwner)));
}

#[test]
fn repeated_contribution_keeps_one_entry() {
    let (mut wallet, parties) = three_party_wallet();
    assert_eq!(wallet.contribute("Alice", &parties[0].signer), Ok(()));
    assert_eq!(wallet.contribute("Alice", &parties[0].signer), Ok(()));
    assert_eq!(wallet.ledger().len(), 1);
    assert_eq!(wallet.valid_signature_count(), 1);
    assert!(!wallet.is_authorized());
}

#[test]
fn signature_under_wrong_key_is_rejected() {
    let (mut wallet, parties) = three_party_wallet();
    // Bob's signer does not hold Alice's key.
    assert_eq!(wallet.contribute("Alice", &parties[1].signer), Err(WalletError::SignatureRejected));
    assert_eq!(wallet.ledger().len(), 0);
}

#[test]
fn malformed_local_key_is_a_backend_failure() {
    let (mut wallet, _parties) = three_party_wallet();
    let broken = LocalSigner::from_secret_key(vec![0u8; SECRET_KEY_BYTES - 1]);
    assert_eq!(broken.sign(MESSAGE), Err(BackendError::SigningFailed));
    assert_eq!(
        wallet.contribute("Alice", &broken),
        Err(WalletError::BackendFailure(BackendError::SigningFailed))
    );
    assert_eq!(wallet.ledger().len(), 0);
}

#[test]
fn contributed_bytes_are_checked_before_recording() {
    let (mut wallet, parties) = three_party_wallet();
    let sig = parties[1].signer.sign(MESSAGE).unwrap();
    assert_eq!(wallet.contribute_signature("Bob", Ok(sig.clone())), Ok(()));
    assert_eq!(wallet.ledger().signature_of("Bob"), Some(&sig));
    let mut bad = sig.clone();
    bad[0] ^= 0xff;
    assert_eq!(wallet.contribute_signature("Carol", Ok(bad)), Err(WalletError::SignatureRejected));
    assert_eq!(
        wallet.contribute_signature("Carol", Err(BackendError::SessionOpenFailed)),
        Err(WalletError::BackendFailure(BackendError::SessionOpenFailed))
    );
    assert_eq!(wallet.contribute_signature("Eve", Ok(sig)), Err(WalletError::UnknownOwner));
    assert_eq!(wallet.ledger().len(), 1);
}

#[test]
fn tampered_signature_is_not_counted() {
    let parties = vec![party(), party()];
    let registry = OwnerRegistry::new(owners_of(&["Alice", "Bob"], &parties), 2).unwrap();
    let mut ledger = SignatureLedger::new();
    let alice = parties[0].signer.sign(MESSAGE).unwrap();
    ledger.record("Alice", alice.clone());
    ledger.record("Bob", parties[1].signer.sign(MESSAGE).unwrap());
    assert_eq!(ledger.count_valid(MESSAGE, &registry), 2);
    let mut tampered = alice;
    tampered[10] ^= 0x01;
    ledger.record("Alice", tampered.clone());
    assert_eq!(ledger.len(), 2);
    assert_eq!(ledger.signature_of("Alice"), Some(&tampered));
    assert_eq!(ledger.count_valid(MESSAGE, &registry), 1);
}

#[test]
fn signature_does_not_count_for_another_message() {
    let (mut wallet, parties) = three_party_wallet();
    assert_eq!(wallet.contribute("Alice", &parties[0].signer), Ok(()));
    assert_eq!(wallet.contribute("Bob", &parties[1].signer), Ok(()));
    assert!(wallet.verify_transaction(MESSAGE));
    assert!(!wallet.verify_transaction(b"Transfer 99 coins"));
    let other = b"Transfer 99 coins";
    assert_eq!(wallet.ledger().count_valid(other, wallet.registry()), 0);
}

#[test]
fn ledger_entries_from_unregistered_owners_are_not_counted() {
    let parties = vec![party()];
    let registry = OwnerRegistry::new(owners_of(&["Alice"], &parties), 1).unwrap();
    let stranger = party();
    let mut ledger = SignatureLedger::new();
    ledger.record("Mallory", stranger.signer.sign(MESSAGE).unwrap());
    assert_eq!(ledger.count_valid(MESSAGE, &registry), 0);
}

fn run_session(session: &mut HsmSession, events: Vec<SessionEvent>) -> Vec<SessionAction> {
    let mut actions = vec![session.pending()];
    for e in events {
        actions.push(session.step(e));
    }
    actions
}

#[test]
fn hardware_authentication_failure_closes_session() {
    let (mut wallet, parties) = three_party_wallet();
    assert_eq!(wallet.contribute("Alice", &parties[0].signer), Ok(()));
    let mut session = wallet.begin_hsm_contribution("Bob").unwrap();
    let actions = run_session(
        &mut session,
        vec![SessionEvent::Completed, SessionEvent::Failed, SessionEvent::Completed],
    );
    assert_eq!(
        actions,
        vec![
            SessionAction::OpenSession,
            SessionAction::Authenticate,
            SessionAction::CloseSession,
            SessionAction::Finished,
        ]
    );
    assert!(session.is_finished());
    assert!(!session.is_open());
    assert!(!session.is_authenticated());
    assert_eq!(session.outcome(), Err(BackendError::AuthenticationFailed));
    assert_eq!(
        wallet.sign_transaction_with_hsm("Bob", &session),
        Err(WalletError::BackendFailure(BackendError::AuthenticationFailed))
    );
    assert_eq!(wallet.ledger().len(), 1);
}

#[test]
fn hardware_session_open_failure_finishes_at_once() {
    let mut session = HsmSession::start();
    assert_eq!(session.step(SessionEvent::Failed), SessionAction::Finished);
    assert!(!session.is_open());
    assert_eq!(session.outcome(), Err(BackendError::SessionOpenFailed));
    assert_eq!(session.step(SessionEvent::Completed), SessionAction::Finished);
}

#[test]
fn hardware_signing_failure_still_releases_session() {
    let mut session = HsmSession::start();
    let actions = run_session(
        &mut session,
        vec![
            SessionEvent::Completed,
            SessionEvent::Completed,
            SessionEvent::Failed,
            SessionEvent::Failed,
            SessionEvent::Failed,
        ],
    );
    assert_eq!(
        actions,
        vec![
            SessionAction::OpenSession,
            SessionAction::Authenticate,
            SessionAction::Sign,
            SessionAction::Deauthenticate,
            SessionAction::CloseSession,
            SessionAction::Finished,
        ]
    );
    assert!(!session.is_open());
    assert!(!session.is_authenticated());
    assert_eq!(session.outcome(), Err(BackendError::SigningFailed));
}

#[test]
fn hardware_signature_is_recorded_when_it_verifies() {
    let (mut wallet, parties) = three_party_wallet();
    let sig = parties[2].signer.sign(MESSAGE).unwrap();
    let mut session = wallet.begin_hsm_contribution("Carol").unwrap();
    session.step(SessionEvent::Completed);
    session.step(SessionEvent::Completed);
    assert!(session.is_open());
    assert!(session.is_authenticated());
    session.step(SessionEvent::Produced(sig.clone()));
    session.step(SessionEvent::Completed);
    session.step(SessionEvent::Completed);
    assert!(session.is_finished());
    assert!(!session.is_open());
    assert_eq!(session.outcome(), Ok(sig.clone()));
    assert_eq!(wallet.sign_transaction_with_hsm("Carol", &session), Ok(()));
    assert_eq!(wallet.ledger().signature_of("Carol"), Some(&sig));
}

#[test]
fn hardware_signature_that_does_not_verify_is_rejected() {
    let (mut wallet, _parties) = three_party_wallet();
    let mut session = wallet.begin_hsm_contribution("Carol").unwrap();
    session.step(SessionEvent::Completed);
    session.step(SessionEvent::Completed);
    session.step(SessionEvent::Produced(vec![7u8; 64]));
    session.step(SessionEvent::Completed);
    session.step(SessionEvent::Completed);
    assert_eq!(
        wallet.sign_transaction_with_hsm("Carol", &session),
        Err(WalletError::SignatureRejected)
    );
    assert_eq!(wallet.ledger().len(), 0);
}

#[test]
fn restore_keeps_contents_and_decision() {
    let (mut wallet, parties) = three_party_wallet();
    assert_eq!(wallet.contribute("Alice", &parties[0].signer), Ok(()));
    assert_eq!(wallet.contribute("Bob", &parties[1].signer), Ok(()));
    let mut owners = OwnerMap::new();
    let table = wallet.registry().owner_table();
    for i in 0..table.len() {
        owners.insert(table.owner_at(i), table.bytes_at(i).clone());
    }
    let mut ledger = SignatureLedger::new();
    for i in 0..wallet.ledger().len() {
        ledger.record(wallet.ledger().owner_at(i), wallet.ledger().signature_at(i).clone());
    }
    let restored = QuantumSafeWallet::restore(owners, 2, ledger, wallet.message().clone()).unwrap();
    assert_eq!(restored.ledger().len(), 2);
    assert_eq!(restored.registry().threshold(), 2);
    assert_eq!(restored.is_authorized(), wallet.is_authorized());
    assert!(restored.is_authorized());
}

#[test]
fn restore_refuses_inconsistent_state() {
    let mut ledger = SignatureLedger::new();
    ledger.record("Eve", vec![1, 2, 3]);
    assert!(matches!(
        QuantumSafeWallet::restore(key_owners(2), 1, ledger, MESSAGE.to_vec()),
        Err(WalletError::SerializationFailure)
    ));
    assert!(matches!(
        QuantumSafeWallet::restore(key_owners(2), 3, SignatureLedger::new(), MESSAGE.to_vec()),
        Err(WalletError::SerializationFailure)
    ));
    assert!(QuantumSafeWallet::restore(key_owners(2), 2, SignatureLedger::new(), MESSAGE.to_vec()).is_ok());
}

#[test]
fn tampered_signature_in_wallet_revokes_authorization() {
    let (mut wallet, parties) = three_party_wallet();
    assert_eq!(wallet.contribute("Alice", &parties[0].signer), Ok(()));
    assert_eq!(wallet.contribute("Bob", &parties[1].signer), Ok(()));
    assert!(wallet.verify_transaction(MESSAGE));
    let table = wallet.registry().owner_table();
    let owners: Vec<(String, Vec<u8>)> =
        (0..table.len()).map(|i| (table.owner_at(i).clone(), table.bytes_at(i).clone())).collect();
    let mut signatures: Vec<(String, Vec<u8>)> = (0..wallet.ledger().len())
        .map(|i| (wallet.ledger().owner_at(i).clone(), wallet.ledger().signature_at(i).clone()))
        .collect();
    for (name, sig) in signatures.iter_mut() {
        if name == "Bob" {
            sig[5] ^= 0x80;
        }
    }
    let tampered = QuantumSafeWallet::restore(
        OwnerMap::from_pairs(owners).unwrap(),
        2,
        SignatureLedger::from_pairs(signatures).unwrap(),
        MESSAGE.to_vec(),
    )
    .unwrap();
    assert_eq!(tampered.valid_signature_count(), 1);
    assert!(!tampered.verify_transaction(MESSAGE));
    assert!(!tampered.is_authorized());
}

#[test]
fn from_pairs_refuses_repeated_owner() {
    let pairs = vec![("Alice".to_string(), vec![1u8]), ("Bob".to_string(), vec![2u8])];
    let m = OwnerMap::from_pairs(pairs).unwrap();
    assert_eq!(m.len(), 2);
    assert_eq!(m.owner_at(1).as_str(), "Bob");
    assert_eq!(m.get("Alice"), Some(&vec![1u8]));
    let repeated = vec![
        ("Alice".to_string(), vec![1u8]),
        ("Bob".to_string(), vec![2u8]),
        ("Alice".to_string(), vec![3u8]),
    ];
    assert!(OwnerMap::from_pairs(repeated.clone()).is_none());
    assert!(SignatureLedger::from_pairs(repeated).is_none());
    assert!(OwnerMap::from_pairs(Vec::new()).unwrap().len() == 0);
}
