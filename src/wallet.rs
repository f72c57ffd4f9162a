//! The threshold coordinator: a registry, a ledger and the transaction message
//! being authorized.

use crate::crypto::{BackendError, LocalSigner, signature_verifies, verify_detached};
use crate::error::WalletError;
use crate::ledger::{
    SignatureLedger, entry_counts, lemma_all_entries_count, lemma_tampered_entry_excluded,
    lemma_valid_count_bounded, valid_count,
};
use crate::owner_map::{Entries, OwnerMap, bytes_of, has_owner, keys_unique, upserted};
use crate::registry::{OwnerRegistry, threshold_ok};
use crate::session::{HsmSession, SessionAction, initial_view, outcome_of, session_wf};
use vstd::prelude::*;

verus! {

/// Whether every owner with a recorded signature is registered.
pub open spec fn signers_registered(signatures: Entries, owners: Entries) -> bool {
    forall|i: int| 0 <= i < signatures.len() ==> has_owner(owners, #[trigger] signatures[i].0)
}

/// A multi-owner wallet authorizing one transaction message.
pub struct QuantumSafeWallet {
    registry: OwnerRegistry,
    ledger: SignatureLedger,
    message: Vec<u8>,
}

impl QuantumSafeWallet {
    /// The registered owners with their public keys.
    pub closed spec fn owners(&self) -> Entries {
        self.registry.owners()
    }

    /// The signing threshold.
    pub closed spec fn threshold_spec(&self) -> nat {
        self.registry.threshold_spec()
    }

    /// The recorded signatures.
    pub closed spec fn signatures(&self) -> Entries {
        self.ledger@
    }

    /// The transaction message being authorized.
    pub closed spec fn message_spec(&self) -> Seq<u8> {
        self.message@
    }

    /// The wallet's invariant: a well-formed registry, one signature per
    /// owner, and signatures from registered owners only.
    pub open spec fn wf(&self) -> bool {
        &&& keys_unique(self.owners())
        &&& threshold_ok(self.threshold_spec(), self.owners().len())
        &&& keys_unique(self.signatures())
        &&& signers_registered(self.signatures(), self.owners())
    }

    /// Whether the recorded signatures authorize `msg`.
    pub open spec fn authorizes(&self, msg: Seq<u8>) -> bool {
        valid_count(self.signatures(), self.owners(), msg) >= self.threshold_spec()
    }

    proof fn lemma_wf_parts(&self)
        requires
            self.wf(),
        ensures
            self.registry.wf(),
            self.ledger.wf(),
    {
    }

    /// A wallet with an empty ledger; fails with `InvalidThreshold` exactly
    /// when the threshold is zero or exceeds the number of owners.
    pub fn new(owners: OwnerMap, threshold: usize, message: Vec<u8>) -> (r: Result<
        QuantumSafeWallet,
        WalletError,
    >)
        requires
            owners.wf(),
        ensures
            r is Ok <==> threshold_ok(threshold as nat, owners@.len()),
            r is Err ==> r == Err::<QuantumSafeWallet, WalletError>(WalletError::InvalidThreshold),
            r matches Ok(w) ==> {
                &&& w.wf()
                &&& w.owners() == owners@
                &&& w.threshold_spec() == threshold
                &&& w.signatures().len() == 0
                &&& w.message_spec() == message@
            },
    {
        match OwnerRegistry::new(owners, threshold) {
            Ok(registry) => Ok(QuantumSafeWallet { registry, ledger: SignatureLedger::new(), message }),
            Err(e) => Err(e),
        }
    }

    /// Rebuilds a wallet from persisted parts; fails with
    /// `SerializationFailure` exactly when the threshold does not suit the
    /// owners or a signature belongs to no registered owner.
    pub fn restore(
        owners: OwnerMap,
        threshold: usize,
        ledger: SignatureLedger,
        message: Vec<u8>,
    ) -> (r: Result<QuantumSafeWallet, WalletError>)
        requires
            owners.wf(),
            ledger.wf(),
        ensures
            r is Ok <==> threshold_ok(threshold as nat, owners@.len()) && signers_registered(
                ledger@,
                owners@,
            ),
            r is Err ==> r == Err::<QuantumSafeWallet, WalletError>(
                WalletError::SerializationFailure,
            ),
            r matches Ok(w) ==> {
                &&& w.wf()
                &&& w.owners() == owners@
                &&& w.threshold_spec() == threshold
                &&& w.signatures() == ledger@
                &&& w.message_spec() == message@
            },
    {
        let n = ledger.len();
        let mut i: usize = 0;
        while i < n
            invariant
                n == ledger@.len(),
                0 <= i <= n,
                forall|j: int| 0 <= j < i ==> has_owner(owners@, #[trigger] ledger@[j].0),
            decreases n - i,
        {
            if !owners.contains(ledger.owner_at(i).as_str()) {
                return Err(WalletError::SerializationFailure);
            }
            i = i + 1;
        }
        match OwnerRegistry::new(owners, threshold) {
            Ok(registry) => Ok(QuantumSafeWallet { registry, ledger, message }),
            Err(_) => Err(WalletError::SerializationFailure),
        }
    }

    /// Takes what a backend produced for `owner` and records it if it is a
    /// signature that verifies. Fails with `UnknownOwner` if `owner` is not
    /// registered, else with the backend's error wrapped in `BackendFailure`,
    /// else with `SignatureRejected` if the signature does not verify over the
    /// wallet's message under the owner's public key. The ledger changes only
    /// on success.
    pub fn contribute_signature(
        &mut self,
        owner: &str,
        produced: Result<Vec<u8>, BackendError>,
    ) -> (r: Result<(), WalletError>)
        requires
            old(self).wf(),
        ensures
            final(self).wf(),
            final(self).owners() == old(self).owners(),
            final(self).threshold_spec() == old(self).threshold_spec(),
            final(self).message_spec() == old(self).message_spec(),
            !has_owner(old(self).owners(), owner@) ==> r == Err::<(), WalletError>(
                WalletError::UnknownOwner,
            ),
            has_owner(old(self).owners(), owner@) ==> match produced {
                Err(e) => r == Err::<(), WalletError>(WalletError::BackendFailure(e)),
                Ok(s) => if signature_verifies(
                    old(self).message_spec(),
                    s@,
                    bytes_of(old(self).owners(), owner@),
                ) {
                    r is Ok
                } else {
                    r == Err::<(), WalletError>(WalletError::SignatureRejected)
                },
            },
            r is Err ==> final(self).signatures() == old(self).signatures(),
            r is Ok ==> (produced matches Ok(s) && final(self).signatures() == upserted(
                old(self).signatures(),
                owner@,
                s@,
            )),
    {
        proof {
            self.lemma_wf_parts();
        }
        let pk = match self.registry.lookup(owner) {
            Some(pk) => pk,
            None => return Err(WalletError::UnknownOwner),
        };
        let signature = match produced {
            Ok(s) => s,
            Err(e) => return Err(WalletError::BackendFailure(e)),
        };
        if !verify_detached(self.message.as_slice(), signature.as_slice(), pk.as_slice()) {
            return Err(WalletError::SignatureRejected);
        }
        let ghost old_sigs = self.ledger@;
        self.ledger.record(owner, signature);
        proof {
            let s = self.ledger@;
            assert forall|i: int| 0 <= i < s.len() implies has_owner(
                self.owners(),
                #[trigger] s[i].0,
            ) by {
                if has_owner(old_sigs, owner@) {
                    assert(s[i].0 == old_sigs[i].0 || s[i].0 == owner@);
                } else if i < old_sigs.len() {
                    assert(s[i] == old_sigs[i]);
                }
            }
        }
        Ok(())
    }

    /// Has `owner` sign the wallet's message with the in-process `signer` and
    /// records the signature if it verifies. Fails with `UnknownOwner`, before
    /// any signing, if `owner` is not registered; with
    /// `BackendFailure(SigningFailed)` if the signer's key is malformed; with
    /// `SignatureRejected` if the signature does not verify under the owner's
    /// public key. On success the ledger holds, for `owner`, a signature that
    /// verifies; on failure it is unchanged.
    pub fn contribute(&mut self, owner: &str, signer: &LocalSigner) -> (r: Result<(), WalletError>)
        requires
            old(self).wf(),
        ensures
            final(self).wf(),
            final(self).owners() == old(self).owners(),
            final(self).threshold_spec() == old(self).threshold_spec(),
            final(self).message_spec() == old(self).message_spec(),
            !has_owner(old(self).owners(), owner@) ==> r == Err::<(), WalletError>(
                WalletError::UnknownOwner,
            ),
            has_owner(old(self).owners(), owner@) && signer@.len()
                != crate::crypto::SECRET_KEY_BYTES ==> r == Err::<(), WalletError>(
                WalletError::BackendFailure(BackendError::SigningFailed),
            ),
            has_owner(old(self).owners(), owner@) ==> r != Err::<(), WalletError>(
                WalletError::UnknownOwner,
            ),
            has_owner(old(self).owners(), owner@) && signer@.len()
                == crate::crypto::SECRET_KEY_BYTES ==> (r is Ok || r == Err::<(), WalletError>(
                WalletError::SignatureRejected,
            )),
            r is Err ==> r == Err::<(), WalletError>(WalletError::UnknownOwner) || r == Err::<
                (),
                WalletError,
            >(WalletError::BackendFailure(BackendError::SigningFailed)) || r == Err::<
                (),
                WalletError,
            >(WalletError::SignatureRejected),
            r is Err ==> final(self).signatures() == old(self).signatures(),
            r is Ok ==> exists|s: Seq<u8>|
                {
                    &&& signature_verifies(
                        old(self).message_spec(),
                        s,
                        bytes_of(old(self).owners(), owner@),
                    )
                    &&& #[trigger] upserted(old(self).signatures(), owner@, s)
                        == final(self).signatures()
                },
    {
        if !self.registry.is_owner(owner) {
            return Err(WalletError::UnknownOwner);
        }
        let produced = signer.sign(self.message.as_slice());
        let ghost p = produced;
        let r = self.contribute_signature(owner, produced);
        proof {
            if r is Ok {
                let s = p->Ok_0@;
                assert(upserted(old(self).signatures(), owner@, s) == self.signatures());
            }
        }
        r
    }

    /// Starts a hardware signing session for `owner`; fails with
    /// `UnknownOwner`, before any device operation, if `owner` is not
    /// registered.
    pub fn begin_hsm_contribution(&self, owner: &str) -> (r: Result<HsmSession, WalletError>)
        ensures
            !has_owner(self.owners(), owner@) ==> r == Err::<HsmSession, WalletError>(
                WalletError::UnknownOwner,
            ),
            has_owner(self.owners(), owner@) ==> (r matches Ok(s) && s@ == initial_view()),
    {
        if !self.registry.is_owner(owner) {
            return Err(WalletError::UnknownOwner);
        }
        Ok(HsmSession::start())
    }

    /// Takes the outcome of a finished hardware session for `owner`, as
    /// `contribute_signature` does: the session's error becomes
    /// `BackendFailure`, and its signature is recorded only if it verifies.
    pub fn sign_transaction_with_hsm(&mut self, owner: &str, session: &HsmSession) -> (r: Result<
        (),
        WalletError,
    >)
        requires
            old(self).wf(),
            session_wf(session@),
            session@.pending == SessionAction::Finished,
        ensures
            final(self).wf(),
            final(self).owners() == old(self).owners(),
            final(self).threshold_spec() == old(self).threshold_spec(),
            final(self).message_spec() == old(self).message_spec(),
            !has_owner(old(self).owners(), owner@) ==> r == Err::<(), WalletError>(
                WalletError::UnknownOwner,
            ),
            has_owner(old(self).owners(), owner@) ==> match outcome_of(session@) {
                Err(e) => r == Err::<(), WalletError>(WalletError::BackendFailure(e)),
                Ok(s) => if signature_verifies(
                    old(self).message_spec(),
                    s,
                    bytes_of(old(self).owners(), owner@),
                ) {
                    r is Ok
                } else {
                    r == Err::<(), WalletError>(WalletError::SignatureRejected)
                },
            },
            r is Err ==> final(self).signatures() == old(self).signatures(),
            r is Ok ==> (outcome_of(session@) matches Ok(s) && final(self).signatures()
                == upserted(old(self).signatures(), owner@, s)),
    {
        let produced = session.outcome();
        self.contribute_signature(owner, produced)
    }

    /// Whether the recorded signatures authorize the wallet's own message: at
    /// least `threshold` of them verify under their owners' public keys.
    pub fn is_authorized(&self) -> (r: bool)
        requires
            self.wf(),
        ensures
            r == self.authorizes(self.message_spec()),
    {
        self.verify_transaction(self.message.as_slice())
    }

    /// Whether the recorded signatures authorize `message`: at least
    /// `threshold` of them verify over `message` under their owners' public
    /// keys.
    pub fn verify_transaction(&self, message: &[u8]) -> (r: bool)
        requires
            self.wf(),
        ensures
            r == self.authorizes(message@),
    {
        proof {
            self.lemma_wf_parts();
        }
        self.ledger.count_valid(message, &self.registry) >= self.registry.threshold()
    }

    /// The number of recorded signatures that verify over the wallet's message.
    pub fn valid_signature_count(&self) -> (r: usize)
        requires
            self.wf(),
        ensures
            r == valid_count(self.signatures(), self.owners(), self.message_spec()),
    {
        proof {
            self.lemma_wf_parts();
        }
        self.ledger.count_valid(self.message.as_slice(), &self.registry)
    }

    /// The owner registry.
    pub fn registry(&self) -> (r: &OwnerRegistry)
        ensures
            r.owners() == self.owners(),
            r.threshold_spec() == self.threshold_spec(),
            self.wf() ==> r.wf(),
    {
        &self.registry
    }

    /// The signature ledger.
    pub fn ledger(&self) -> (r: &SignatureLedger)
        ensures
            r@ == self.signatures(),
    {
        &self.ledger
    }

    /// The transaction message being authorized.
    pub fn message(&self) -> (r: &Vec<u8>)
        ensures
            r@ == self.message_spec(),
    {
        &self.message
    }
}

/// When every recorded signature verifies over `msg`, the wallet authorizes
/// `msg` exactly when the number of distinct owners who signed reaches the
/// threshold.
pub proof fn lemma_signers_reach_threshold(w: QuantumSafeWallet, msg: Seq<u8>)
    requires
        w.wf(),
        forall|i: int|
            0 <= i < w.signatures().len() ==> entry_counts(
                #[trigger] w.signatures()[i],
                w.owners(),
                msg,
            ),
    ensures
        w.authorizes(msg) == (w.signatures().len() >= w.threshold_spec()),
{
    lemma_all_entries_count(w.signatures(), w.owners(), msg);
}

/// Fewer distinct signers than the threshold never authorize any message,
/// whatever their signatures are.
pub proof fn lemma_too_few_signers(w: QuantumSafeWallet, msg: Seq<u8>)
    requires
        w.signatures().len() < w.threshold_spec(),
    ensures
        !w.authorizes(msg),
{
    lemma_valid_count_bounded(w.signatures(), w.owners(), msg);
}

/// Tampering in a wallet: when every recorded signature verifies over `msg`
/// and one owner's signature is overwritten with bytes that do not verify,
/// only the other owners count, so `msg` is authorized exactly when they alone
/// reach the threshold.
pub proof fn lemma_tampered_signature_in_wallet(
    w: QuantumSafeWallet,
    msg: Seq<u8>,
    o: Seq<char>,
    tampered: Seq<u8>,
)
    requires
        w.wf(),
        has_owner(w.signatures(), o),
        forall|i: int|
            0 <= i < w.signatures().len() ==> entry_counts(
                #[trigger] w.signatures()[i],
                w.owners(),
                msg,
            ),
        !signature_verifies(msg, tampered, bytes_of(w.owners(), o)),
    ensures
        valid_count(upserted(w.signatures(), o, tampered), w.owners(), msg) + 1
            == w.signatures().len(),
        (valid_count(upserted(w.signatures(), o, tampered), w.owners(), msg)
            >= w.threshold_spec()) == (w.signatures().len() > w.threshold_spec()),
{
    let s = w.signatures();
    let k = crate::owner_map::owner_index(s, o);
    assert(s[k].0 == o);
    assert(entry_counts(s[k], w.owners(), msg));
    lemma_all_entries_count(s, w.owners(), msg);
    lemma_tampered_entry_excluded(s, w.owners(), msg, o, tampered);
}

} // verus!
