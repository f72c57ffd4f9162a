//! The signatures contributed so far, one per owner, and how many of them
//! verify.

use crate::crypto::{signature_verifies, verify_detached};
use crate::owner_map::{
    Entries, OwnerMap, bytes_of, has_owner, keys_unique, owner_index, pairs_view, upserted,
};
use crate::registry::OwnerRegistry;
use vstd::prelude::*;

verus! {

/// Whether a ledger entry counts toward authorizing `msg`: its owner is
/// registered and its signature verifies under the owner's public key.
pub open spec fn entry_counts(e: (Seq<char>, Seq<u8>), owners: Entries, msg: Seq<u8>) -> bool {
    has_owner(owners, e.0) && signature_verifies(msg, e.1, bytes_of(owners, e.0))
}

/// The number of entries of `entries` that count toward authorizing `msg`.
pub open spec fn valid_count(entries: Entries, owners: Entries, msg: Seq<u8>) -> nat
    decreases entries.len(),
{
    if entries.len() == 0 {
        0
    } else {
        valid_count(entries.drop_last(), owners, msg) + if entry_counts(
            entries.last(),
            owners,
            msg,
        ) {
            1nat
        } else {
            0nat
        }
    }
}

/// Signatures keyed by owner; a later signature of an owner replaces the
/// earlier one.
pub struct SignatureLedger {
    entries: OwnerMap,
}

impl View for SignatureLedger {
    type V = Entries;

    closed spec fn view(&self) -> Entries {
        self.entries@
    }
}

impl SignatureLedger {
    /// The ledger's invariant: one entry per owner.
    pub open spec fn wf(&self) -> bool {
        keys_unique(self@)
    }

    /// The empty ledger.
    pub fn new() -> (r: SignatureLedger)
        ensures
            r@ == Seq::<(Seq<char>, Seq<u8>)>::empty(),
            r.wf(),
    {
        SignatureLedger { entries: OwnerMap::new() }
    }

    /// Builds a ledger from (owner, signature) pairs in order; `None` exactly
    /// when some owner occurs twice.
    pub fn from_pairs(pairs: Vec<(String, Vec<u8>)>) -> (r: Option<SignatureLedger>)
        ensures
            r is Some <==> keys_unique(pairs_view(pairs@)),
            r matches Some(l) ==> l.wf() && l@ == pairs_view(pairs@),
    {
        match OwnerMap::from_pairs(pairs) {
            Some(entries) => Some(SignatureLedger { entries }),
            None => None,
        }
    }

    /// The number of entries, that is of owners with a recorded signature.
    pub fn len(&self) -> (r: usize)
        ensures
            r == self@.len(),
    {
        self.entries.len()
    }

    /// The owner of the `i`-th entry.
    pub fn owner_at(&self, i: usize) -> (r: &String)
        requires
            i < self@.len(),
        ensures
            r@ == self@[i as int].0,
    {
        self.entries.owner_at(i)
    }

    /// The signature of the `i`-th entry.
    pub fn signature_at(&self, i: usize) -> (r: &Vec<u8>)
        requires
            i < self@.len(),
        ensures
            r@ == self@[i as int].1,
    {
        self.entries.bytes_at(i)
    }

    /// The signature recorded for `owner`, if any.
    pub fn signature_of(&self, owner: &str) -> (r: Option<&Vec<u8>>)
        requires
            self.wf(),
        ensures
            r is None <==> !has_owner(self@, owner@),
            r matches Some(s) ==> s@ == bytes_of(self@, owner@),
    {
        self.entries.get(owner)
    }

    /// Records `signature` for `owner`, replacing the owner's earlier one.
    pub fn record(&mut self, owner: &str, signature: Vec<u8>)
        requires
            old(self).wf(),
        ensures
            final(self).wf(),
            final(self)@ == upserted(old(self)@, owner@, signature@),
    {
        self.entries.insert(owner, signature);
    }

    /// Counts the entries whose owner is registered in `registry` and whose
    /// signature verifies over `message` under that owner's public key.
    pub fn count_valid(&self, message: &[u8], registry: &OwnerRegistry) -> (r: usize)
        requires
            registry.wf(),
        ensures
            r == valid_count(self@, registry.owners(), message@),
    {
        let n = self.entries.len();
        let mut count: usize = 0;
        let mut i: usize = 0;
        while i < n
            invariant
                n == self@.len(),
                registry.wf(),
                0 <= i <= n,
                count <= i,
                count == valid_count(self@.take(i as int), registry.owners(), message@),
            decreases n - i,
        {
            let owner = self.entries.owner_at(i);
            let signature = self.entries.bytes_at(i);
            let counts = match registry.lookup(owner.as_str()) {
                Some(pk) => verify_detached(message, signature.as_slice(), pk.as_slice()),
                None => false,
            };
            assert(self@.take(i + 1).drop_last() =~= self@.take(i as int));
            if counts {
                count = count + 1;
            }
            i = i + 1;
        }
        assert(self@.take(n as int) =~= self@);
        count
    }
}

/// No more entries count than there are entries.
pub proof fn lemma_valid_count_bounded(entries: Entries, owners: Entries, msg: Seq<u8>)
    ensures
        valid_count(entries, owners, msg) <= entries.len(),
    decreases entries.len(),
{
    if entries.len() > 0 {
        lemma_valid_count_bounded(entries.drop_last(), owners, msg);
    }
}

/// When every entry counts, the valid count is the number of entries, that
/// is the number of distinct owners who signed.
pub proof fn lemma_all_entries_count(entries: Entries, owners: Entries, msg: Seq<u8>)
    requires
        forall|i: int| 0 <= i < entries.len() ==> entry_counts(#[trigger] entries[i], owners, msg),
    ensures
        valid_count(entries, owners, msg) == entries.len(),
    decreases entries.len(),
{
    if entries.len() > 0 {
        let p = entries.drop_last();
        assert forall|i: int| 0 <= i < p.len() implies entry_counts(#[trigger] p[i], owners, msg) by {
            assert(p[i] == entries[i]);
        }
        lemma_all_entries_count(p, owners, msg);
    }
}

/// A verifying signature from an owner who had not signed yet raises the
/// valid count by exactly one.
pub proof fn lemma_new_signer_counts(
    entries: Entries,
    owners: Entries,
    msg: Seq<u8>,
    o: Seq<char>,
    sig: Seq<u8>,
)
    requires
        !has_owner(entries, o),
        has_owner(owners, o),
        signature_verifies(msg, sig, bytes_of(owners, o)),
    ensures
        valid_count(upserted(entries, o, sig), owners, msg) == valid_count(entries, owners, msg) + 1,
{
    assert(upserted(entries, o, sig).drop_last() =~= entries);
}

/// Removing an entry lowers the valid count by one if the entry counted, and
/// leaves it unchanged otherwise.
pub proof fn lemma_remove_entry(entries: Entries, owners: Entries, msg: Seq<u8>, i: int)
    requires
        0 <= i < entries.len(),
    ensures
        valid_count(entries, owners, msg) == valid_count(entries.remove(i), owners, msg) + if entry_counts(
            entries[i],
            owners,
            msg,
        ) {
            1nat
        } else {
            0nat
        },
    decreases entries.len(),
{
    if i == entries.len() - 1 {
        assert(entries.remove(i) =~= entries.drop_last());
    } else {
        let p = entries.drop_last();
        assert(p[i] == entries[i]);
        lemma_remove_entry(p, owners, msg, i);
        assert(entries.remove(i).drop_last() =~= p.remove(i));
        assert(entries.remove(i).last() == entries.last());
    }
}

/// Tampering: when an owner's recorded signature is overwritten with bytes
/// that do not verify, the valid count is that of the ledger without the
/// owner's entry: the tampered entry is excluded. If the entry counted
/// before, the valid count drops by exactly one.
pub proof fn lemma_tampered_entry_excluded(
    entries: Entries,
    owners: Entries,
    msg: Seq<u8>,
    o: Seq<char>,
    tampered: Seq<u8>,
)
    requires
        keys_unique(entries),
        has_owner(entries, o),
        !signature_verifies(msg, tampered, bytes_of(owners, o)),
    ensures
        valid_count(upserted(entries, o, tampered), owners, msg) == valid_count(
            entries.remove(owner_index(entries, o)),
            owners,
            msg,
        ),
        entry_counts((o, bytes_of(entries, o)), owners, msg) ==> valid_count(
            upserted(entries, o, tampered),
            owners,
            msg,
        ) + 1 == valid_count(entries, owners, msg),
{
    let k = owner_index(entries, o);
    let t = upserted(entries, o, tampered);
    assert(entries[k].0 == o);
    assert(t[k] == (o, tampered));
    lemma_remove_entry(t, owners, msg, k);
    lemma_remove_entry(entries, owners, msg, k);
    assert(t.remove(k) =~= entries.remove(k));
}

/// A message that no recorded signature verifies over has a valid count of
/// zero: a signature counts only for a message it verifies over.
pub proof fn lemma_unverified_message_counts_nothing(
    entries: Entries,
    owners: Entries,
    msg: Seq<u8>,
)
    requires
        forall|i: int|
            0 <= i < entries.len() ==> !signature_verifies(
                msg,
                #[trigger] entries[i].1,
                bytes_of(owners, entries[i].0),
            ),
    ensures
        valid_count(entries, owners, msg) == 0,
    decreases entries.len(),
{
    if entries.len() > 0 {
        let p = entries.drop_last();
        assert(entries.last() == entries[entries.len() - 1]);
        assert forall|i: int| 0 <= i < p.len() implies !signature_verifies(
            msg,
            #[trigger] p[i].1,
            bytes_of(owners, p[i].0),
        ) by {
            assert(p[i] == entries[i]);
        }
        lemma_unverified_message_counts_nothing(p, owners, msg);
    }
}

} // verus!
