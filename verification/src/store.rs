//! The storage engine, modelled as in-memory tables: attestations with
//! their signature rows, batches, batch membership and anchor proofs. The
//! well-formedness invariant carries the store's laws: hashes are unique,
//! sequences are unique and increasing per network in commit order, every
//! attestation belongs to at most one batch, and each batch's count equals
//! its membership rows.

use vstd::prelude::*;
use vstd::pervasive::VecAdditionalExecFns;

use crate::encoding::copy_bytes;
use crate::external_anchors::AnchorProviderType;
use crate::external_anchors::ExternalAnchorProof;
use crate::federation::AttestationBatch;
use crate::sig_codec::decodes_rows;
use crate::sig_codec::rows_from_signatures;
use crate::sig_codec::signatures_from_rows;
use crate::sig_codec::sentinel;
use crate::sig_codec::spec_join_ids;
use crate::encoding::string_views;
use crate::signature_scheme::rows_equiv;
use crate::types::Attestation;
use crate::types::SignedAttestation;
use crate::types::WitnessSignature;
use crate::types::attestation_equiv;
use crate::types::now_unix_secs;

verus! {

/// One stored attestation: the attestation itself, its signature rows, when
/// it was written, and the batch it has entered, if any.
pub struct StoredAttestation {
    pub attestation: Attestation,
    pub created_at: u64,
    pub batch_id: Option<u64>,
    pub sig_rows: Vec<WitnessSignature>,
}

/// One batch membership row: which batch a hash entered, and at which leaf
/// position.
pub struct BatchMembership {
    pub batch_id: u64,
    pub hash: [u8; 32],
    pub merkle_index: usize,
}

/// One persisted external anchor proof.
pub struct StoredAnchorProof {
    pub batch_id: u64,
    pub provider: AnchorProviderType,
    pub timestamp: u64,
    pub proof: String,
    pub anchored_data: Option<Vec<u8>>,
    pub created_at: u64,
}

/// The index of the record holding the given hash, or a negative value if
/// none does.
pub open spec fn spec_rec_index(recs: Seq<StoredAttestation>, h: Seq<u8>) -> int
    decreases recs.len(),
{
    if recs.len() == 0 {
        -1
    } else if recs[0].attestation.hash@ == h {
        0
    } else {
        let rest = spec_rec_index(recs.drop_first(), h);
        if rest < 0 {
            -1
        } else {
            1 + rest
        }
    }
}

/// True when some record holds the given hash.
pub open spec fn spec_has_hash(recs: Seq<StoredAttestation>, h: Seq<u8>) -> bool {
    spec_rec_index(recs, h) >= 0
}

/// The record index is in range and holds the hash; nothing before it does.
pub proof fn lemma_rec_index_range(recs: Seq<StoredAttestation>, h: Seq<u8>)
    ensures
        -1 <= spec_rec_index(recs, h) < recs.len(),
        spec_rec_index(recs, h) >= 0 ==> recs[spec_rec_index(recs, h)].attestation.hash@ == h,
        spec_rec_index(recs, h) < 0 ==> (forall|j: int|
            0 <= j < recs.len() ==> (#[trigger] recs[j]).attestation.hash@ != h),
        forall|j: int|
            0 <= j < spec_rec_index(recs, h) ==> (#[trigger] recs[j]).attestation.hash@ != h,
    decreases recs.len(),
{
    if recs.len() > 0 && recs[0].attestation.hash@ != h {
        lemma_rec_index_range(recs.drop_first(), h);
        if spec_rec_index(recs, h) < 0 {
            assert forall|j: int|
                0 <= j < recs.len() implies (#[trigger] recs[j]).attestation.hash@ != h by {
                if j >= 1 {
                    assert(recs.drop_first()[j - 1] == recs[j]);
                }
            }
        }
        assert forall|j: int|
            0 <= j < spec_rec_index(recs, h) implies (#[trigger] recs[j]).attestation.hash@
            != h by {
            if j >= 1 {
                assert(recs.drop_first()[j - 1] == recs[j]);
            }
        }
    }
}

/// With no match before `i` and a match at `i`, the record index is `i`.
proof fn lemma_rec_index_at(recs: Seq<StoredAttestation>, h: Seq<u8>, i: int)
    requires
        0 <= i < recs.len(),
        forall|j: int| 0 <= j < i ==> (#[trigger] recs[j]).attestation.hash@ != h,
        recs[i].attestation.hash@ == h,
    ensures
        spec_rec_index(recs, h) == i,
    decreases i,
{
    if i > 0 {
        assert(recs.drop_first()[i - 1] == recs[i]);
        assert forall|j: int|
            0 <= j < i - 1 implies (#[trigger] recs.drop_first()[j]).attestation.hash@ != h by {
            assert(recs.drop_first()[j] == recs[j + 1]);
        }
        lemma_rec_index_at(recs.drop_first(), h, i - 1);
    }
}

/// With no match anywhere, the record index is negative.
proof fn lemma_rec_index_none(recs: Seq<StoredAttestation>, h: Seq<u8>)
    requires
        forall|j: int| 0 <= j < recs.len() ==> (#[trigger] recs[j]).attestation.hash@ != h,
    ensures
        spec_rec_index(recs, h) == -1,
    decreases recs.len(),
{
    if recs.len() > 0 {
        assert forall|j: int|
            0 <= j < recs.drop_first().len() implies (#[trigger] recs.drop_first()[j]).attestation.hash@
            != h by {
            assert(recs.drop_first()[j] == recs[j + 1]);
        }
        lemma_rec_index_none(recs.drop_first(), h);
    }
}

/// The record index depends only on the records' hashes.
proof fn lemma_rec_index_same_hashes(
    a: Seq<StoredAttestation>,
    b: Seq<StoredAttestation>,
    h: Seq<u8>,
)
    requires
        a.len() == b.len(),
        forall|j: int|
            0 <= j < a.len() ==> (#[trigger] a[j]).attestation.hash@ == b[j].attestation.hash@,
    ensures
        spec_rec_index(a, h) == spec_rec_index(b, h),
    decreases a.len(),
{
    if a.len() > 0 {
        assert forall|j: int|
            0 <= j < a.drop_first().len() implies (#[trigger] a.drop_first()[j]).attestation.hash@
            == b.drop_first()[j].attestation.hash@ by {
            assert(a.drop_first()[j] == a[j + 1]);
            assert(b.drop_first()[j] == b[j + 1]);
        }
        lemma_rec_index_same_hashes(a.drop_first(), b.drop_first(), h);
    }
}

/// The highest sequence among records of a network, continued from `acc`;
/// `acc` itself if the network has none.
pub open spec fn spec_max_seq_from(recs: Seq<StoredAttestation>, net: Seq<char>, acc: u64) -> u64
    decreases recs.len(),
{
    if recs.len() == 0 {
        acc
    } else {
        spec_max_seq_from(
            recs.drop_first(),
            net,
            if recs[0].attestation.network_id@ == net && recs[0].attestation.sequence > acc {
                recs[0].attestation.sequence
            } else {
                acc
            },
        )
    }
}

/// The highest sequence among records of a network; zero if it has none.
pub open spec fn spec_max_seq(recs: Seq<StoredAttestation>, net: Seq<char>) -> u64 {
    spec_max_seq_from(recs, net, 0)
}

/// The running maximum never decreases, and bounds every matching record.
pub proof fn lemma_max_seq_from_bounds(recs: Seq<StoredAttestation>, net: Seq<char>, acc: u64)
    ensures
        spec_max_seq_from(recs, net, acc) >= acc,
        forall|k: int|
            0 <= k < recs.len() && (#[trigger] recs[k]).attestation.network_id@ == net
                ==> recs[k].attestation.sequence <= spec_max_seq_from(recs, net, acc),
    decreases recs.len(),
{
    if recs.len() > 0 {
        let acc2 = if recs[0].attestation.network_id@ == net && recs[0].attestation.sequence
            > acc {
            recs[0].attestation.sequence
        } else {
            acc
        };
        lemma_max_seq_from_bounds(recs.drop_first(), net, acc2);
        assert forall|k: int|
            0 <= k < recs.len() && (#[trigger] recs[k]).attestation.network_id@ == net
                implies recs[k].attestation.sequence <= spec_max_seq_from(recs, net, acc) by {
            if k >= 1 {
                assert(recs.drop_first()[k - 1] == recs[k]);
            }
        }
    }
}

/// How many records carry a timestamp at or after `since`.
pub open spec fn spec_count_since(recs: Seq<StoredAttestation>, since: u64) -> nat
    decreases recs.len(),
{
    if recs.len() == 0 {
        0
    } else {
        (if recs[0].attestation.timestamp >= since {
            1nat
        } else {
            0nat
        }) + spec_count_since(recs.drop_first(), since)
    }
}

/// The unbatched records with a timestamp at or after `since`, in commit
/// order.
pub open spec fn spec_unbatched(recs: Seq<StoredAttestation>, since: u64) -> Seq<
    StoredAttestation,
>
    decreases recs.len(),
{
    if recs.len() == 0 {
        Seq::empty()
    } else {
        (if recs[0].batch_id is None && recs[0].attestation.timestamp >= since {
            seq![recs[0]]
        } else {
            Seq::<StoredAttestation>::empty()
        }) + spec_unbatched(recs.drop_first(), since)
    }
}

/// How many membership rows belong to a batch.
pub open spec fn spec_membership_count(ms: Seq<BatchMembership>, b: u64) -> nat
    decreases ms.len(),
{
    if ms.len() == 0 {
        0
    } else {
        (if ms[0].batch_id == b {
            1nat
        } else {
            0nat
        }) + spec_membership_count(ms.drop_first(), b)
    }
}

/// Membership counts add over concatenation.
proof fn lemma_membership_count_append(a: Seq<BatchMembership>, b: Seq<BatchMembership>, id: u64)
    ensures
        spec_membership_count(a + b, id) == spec_membership_count(a, id)
            + spec_membership_count(b, id),
    decreases a.len(),
{
    if a.len() == 0 {
        assert(a + b =~= b);
    } else {
        assert((a + b).drop_first() =~= a.drop_first() + b);
        assert((a + b)[0] == a[0]);
        lemma_membership_count_append(a.drop_first(), b, id);
    }
}

/// Appending one row raises its batch's count by one and no other's.
proof fn lemma_membership_count_snoc(ms: Seq<BatchMembership>, m: BatchMembership, id: u64)
    ensures
        spec_membership_count(ms.push(m), id) == spec_membership_count(ms, id) + (if m.batch_id
            == id {
            1nat
        } else {
            0nat
        }),
{
    assert(ms.push(m) =~= ms + seq![m]);
    lemma_membership_count_append(ms, seq![m], id);
    assert(seq![m][0] == m);
    assert(seq![m].drop_first() =~= Seq::<BatchMembership>::empty());
    assert(spec_membership_count(seq![m].drop_first(), id) == 0);
}

/// A sequence whose rows all belong to a batch counts its full length.
proof fn lemma_membership_count_all(ms: Seq<BatchMembership>, id: u64)
    requires
        forall|j: int| 0 <= j < ms.len() ==> (#[trigger] ms[j]).batch_id == id,
    ensures
        spec_membership_count(ms, id) == ms.len(),
    decreases ms.len(),
{
    if ms.len() > 0 {
        assert forall|j: int|
            0 <= j < ms.drop_first().len() implies (#[trigger] ms.drop_first()[j]).batch_id
            == id by {
            assert(ms.drop_first()[j] == ms[j + 1]);
        }
        lemma_membership_count_all(ms.drop_first(), id);
    }
}

/// A sequence without rows of a batch counts zero for it.
proof fn lemma_membership_count_zero(ms: Seq<BatchMembership>, id: u64)
    requires
        forall|j: int| 0 <= j < ms.len() ==> (#[trigger] ms[j]).batch_id != id,
    ensures
        spec_membership_count(ms, id) == 0,
    decreases ms.len(),
{
    if ms.len() > 0 {
        assert forall|j: int|
            0 <= j < ms.drop_first().len() implies (#[trigger] ms.drop_first()[j]).batch_id
            != id by {
            assert(ms.drop_first()[j] == ms[j + 1]);
        }
        lemma_membership_count_zero(ms.drop_first(), id);
    }
}

/// The hashes of a batch's membership rows, in store order.
pub open spec fn spec_batch_hashes_rows(ms: Seq<BatchMembership>, b: u64) -> Seq<[u8; 32]>
    decreases ms.len(),
{
    if ms.len() == 0 {
        Seq::empty()
    } else {
        (if ms[0].batch_id == b {
            seq![ms[0].hash]
        } else {
            Seq::<[u8; 32]>::empty()
        }) + spec_batch_hashes_rows(ms.drop_first(), b)
    }
}

/// When rows before `split` belong to other batches and rows from `split`
/// on all belong to batch `b`, the batch's hashes are exactly the suffix's
/// hashes, in order.
proof fn lemma_batch_hashes_suffix(ms: Seq<BatchMembership>, b: u64, split: int)
    requires
        0 <= split <= ms.len(),
        forall|j: int| 0 <= j < split ==> (#[trigger] ms[j]).batch_id != b,
        forall|j: int| split <= j < ms.len() ==> (#[trigger] ms[j]).batch_id == b,
    ensures
        spec_batch_hashes_rows(ms, b) =~= ms.subrange(split, ms.len() as int).map_values(
            |m: BatchMembership| m.hash,
        ),
    decreases ms.len(),
{
    if ms.len() == 0 {
    } else if split > 0 {
        let rest = ms.drop_first();
        assert forall|j: int| 0 <= j < split - 1 implies (#[trigger] rest[j]).batch_id != b by {
            assert(rest[j] == ms[j + 1]);
        }
        assert forall|j: int|
            split - 1 <= j < rest.len() implies (#[trigger] rest[j]).batch_id == b by {
            assert(rest[j] == ms[j + 1]);
        }
        lemma_batch_hashes_suffix(rest, b, split - 1);
        assert(rest.subrange(split - 1, rest.len() as int) =~= ms.subrange(
            split,
            ms.len() as int,
        ));
    } else {
        let rest = ms.drop_first();
        assert forall|j: int| 0 <= j < rest.len() implies (#[trigger] rest[j]).batch_id == b by {
            assert(rest[j] == ms[j + 1]);
        }
        lemma_batch_hashes_suffix(rest, b, 0);
        assert(rest.subrange(0, rest.len() as int) =~= rest);
        assert(spec_batch_hashes_rows(ms, b) =~= seq![ms[0].hash] + spec_batch_hashes_rows(
            rest,
            b,
        ));
        assert(ms.subrange(0, ms.len() as int) =~= ms);
        assert(ms.map_values(|m: BatchMembership| m.hash) =~= seq![ms[0].hash] + rest.map_values(
            |m: BatchMembership| m.hash,
        ));
    }
}

/// The durable store: attestations, batches, membership and anchor proofs.
pub struct Storage {
    attestations: Vec<StoredAttestation>,
    batches: Vec<AttestationBatch>,
    memberships: Vec<BatchMembership>,
    anchor_proofs: Vec<StoredAnchorProof>,
}

impl Storage {
    /// The stored attestation records, in commit order.
    pub closed spec fn records(self) -> Seq<StoredAttestation> {
        self.attestations@
    }

    /// The stored batches; the batch with id `b` sits at position `b - 1`.
    pub closed spec fn spec_batches(self) -> Seq<AttestationBatch> {
        self.batches@
    }

    /// The batch membership rows, in insertion order.
    pub closed spec fn spec_memberships(self) -> Seq<BatchMembership> {
        self.memberships@
    }

    /// The persisted anchor proofs, in insertion order.
    pub closed spec fn spec_anchor_proofs(self) -> Seq<StoredAnchorProof> {
        self.anchor_proofs@
    }

    /// The store's invariant: unique hashes; per-network sequences strictly
    /// increasing in commit order; ordinal batch ids; membership rows whose
    /// batch exists, whose hashes are unique, whose owning record is marked
    /// with the same batch, and whose leaf position counts the batch's
    /// earlier rows; record batch marks that point at existing batches; and
    /// batch counts that equal their membership rows.
    pub open spec fn wf(self) -> bool {
        let recs = self.records();
        let bs = self.spec_batches();
        let ms = self.spec_memberships();
        &&& (forall|i: int, j: int|
            0 <= i < j < recs.len() ==> (#[trigger] recs[i]).attestation.hash@ != (
            #[trigger] recs[j]).attestation.hash@)
        &&& (forall|i: int, j: int|
            0 <= i < j < recs.len() && (#[trigger] recs[i]).attestation.network_id@ == (
            #[trigger] recs[j]).attestation.network_id@ ==> recs[i].attestation.sequence
                < recs[j].attestation.sequence)
        &&& (forall|i: int| 0 <= i < bs.len() ==> (#[trigger] bs[i]).id == i + 1)
        &&& (forall|j: int| 0 <= j < ms.len() ==> 1 <= (#[trigger] ms[j]).batch_id <= bs.len())
        &&& (forall|i: int, j: int|
            0 <= i < j < ms.len() ==> (#[trigger] ms[i]).hash@ != (#[trigger] ms[j]).hash@)
        &&& (forall|j: int|
            0 <= j < ms.len() ==> spec_rec_index(recs, (#[trigger] ms[j]).hash@) >= 0
                && recs[spec_rec_index(recs, ms[j].hash@)].batch_id == Some(ms[j].batch_id))
        &&& (forall|j: int|
            0 <= j < ms.len() ==> (#[trigger] ms[j]).merkle_index == spec_membership_count(
                ms.subrange(0, j),
                ms[j].batch_id,
            ))
        &&& (forall|k: int|
            0 <= k < recs.len() ==> ((#[trigger] recs[k]).batch_id matches Some(b) ==> 1 <= b
                <= bs.len()))
        &&& (forall|i: int|
            0 <= i < bs.len() ==> (#[trigger] bs[i]).attestation_count == spec_membership_count(
                ms,
                bs[i].id,
            ))
    }

    /// An empty store.
    pub fn new() -> (r: Storage)
        ensures
            r.wf(),
            r.records().len() == 0,
            r.spec_batches().len() == 0,
            r.spec_memberships().len() == 0,
            r.spec_anchor_proofs().len() == 0,
    {
        Storage {
            attestations: Vec::new(),
            batches: Vec::new(),
            memberships: Vec::new(),
            anchor_proofs: Vec::new(),
        }
    }

    /// Finds the record index for a hash; `Some` exactly when it is stored.
    fn find_record(&self, hash: &[u8; 32]) -> (r: Option<usize>)
        ensures
            r is Some <==> spec_has_hash(self.records(), hash@),
            r matches Some(k) ==> k == spec_rec_index(self.records(), hash@),
    {
        let ghost recs = self.records();
        let n = self.attestations.len();
        let mut i: usize = 0;
        while i < n
            invariant
                n == recs.len(),
                recs == self.records(),
                i <= n,
                forall|j: int| 0 <= j < i ==> (#[trigger] recs[j]).attestation.hash@ != hash@,
            decreases n - i,
        {
            if crate::crypto::hash_eq(&self.attestations[i].attestation.hash, hash) {
                proof {
                    lemma_rec_index_at(recs, hash@, i as int);
                }
                return Some(i);
            }
            i = i + 1;
        }
        proof {
            lemma_rec_index_none(recs, hash@);
        }
        None
    }

    /// True exactly when the hash is already stored.
    pub fn check_duplicate(&self, hash: &[u8; 32]) -> (r: bool)
        ensures
            r == spec_has_hash(self.records(), hash@),
    {
        self.find_record(hash).is_some()
    }

    /// The next free sequence number for a network: one above the highest
    /// stored, one for an empty network.
    pub fn get_next_sequence(&self, network_id: &str) -> (r: u64)
        requires
            spec_max_seq(self.records(), network_id@) < u64::MAX,
        ensures
            r == spec_max_seq(self.records(), network_id@) + 1,
    {
        let ghost recs = self.records();
        let n = self.attestations.len();
        let mut max_seq: u64 = 0;
        let mut i: usize = 0;
        assert(recs.skip(0) =~= recs);
        while i < n
            invariant
                n == recs.len(),
                recs == self.records(),
                i <= n,
                spec_max_seq(recs, network_id@) == spec_max_seq_from(
                    recs.skip(i as int),
                    network_id@,
                    max_seq,
                ),
            decreases n - i,
        {
            let ghost tail = recs.skip(i as int);
            assert(tail[0] == recs[i as int]);
            assert(tail.drop_first() =~= recs.skip(i + 1));
            let rec = &self.attestations[i];
            if crate::encoding::str_eq(rec.attestation.network_id.as_str(), network_id)
                && rec.attestation.sequence > max_seq {
                max_seq = rec.attestation.sequence;
            }
            i = i + 1;
        }
        assert(recs.skip(n as int) =~= Seq::<StoredAttestation>::empty());
        proof {
            lemma_max_seq_from_bounds(recs, network_id@, 0);
        }
        max_seq + 1
    }

    /// Writes a signed attestation. A new hash is appended with its encoded
    /// signature rows; re-storing a stored hash replaces its signature rows
    /// and leaves its batch membership untouched.
    pub fn store_attestation(&mut self, signed: &SignedAttestation)
        requires
            old(self).wf(),
            signed.signatures is Aggregated ==> signed.signatures.spec_signers().len() >= 1,
            spec_has_hash(old(self).records(), signed.attestation.hash@) ==> attestation_equiv(
                old(self).records()[spec_rec_index(
                    old(self).records(),
                    signed.attestation.hash@,
                )].attestation,
                signed.attestation,
            ),
            !spec_has_hash(old(self).records(), signed.attestation.hash@) ==> (forall|k: int|
                0 <= k < old(self).records().len() && (#[trigger] old(
                    self,
                ).records()[k]).attestation.network_id@ == signed.attestation.network_id@ ==> old(
                    self,
                ).records()[k].attestation.sequence < signed.attestation.sequence),
        ensures
            final(self).wf(),
            final(self).spec_batches() == old(self).spec_batches(),
            final(self).spec_memberships() == old(self).spec_memberships(),
            final(self).spec_anchor_proofs() == old(self).spec_anchor_proofs(),
            !spec_has_hash(old(self).records(), signed.attestation.hash@) ==> {
                &&& final(self).records().len() == old(self).records().len() + 1
                &&& final(self).records().subrange(0, old(self).records().len() as int) == old(
                    self,
                ).records()
                &&& attestation_equiv(
                    final(self).records().last().attestation,
                    signed.attestation,
                )
                &&& final(self).records().last().batch_id is None
                &&& rows_encode_signatures(
                    final(self).records().last().sig_rows@,
                    signed.signatures,
                )
            },
            spec_has_hash(old(self).records(), signed.attestation.hash@) ==> {
                let k = spec_rec_index(old(self).records(), signed.attestation.hash@);
                &&& final(self).records().len() == old(self).records().len()
                &&& (forall|j: int|
                    0 <= j < old(self).records().len() && j != k ==> final(self).records()[j]
                        == old(self).records()[j])
                &&& attestation_equiv(
                    final(self).records()[k].attestation,
                    old(self).records()[k].attestation,
                )
                &&& final(self).records()[k].batch_id == old(self).records()[k].batch_id
                &&& rows_encode_signatures(final(self).records()[k].sig_rows@, signed.signatures)
            },
    {
        let ghost old_recs = self.records();
        let rows = rows_from_signatures(&signed.signatures);
        let created_at = now_unix_secs();
        match self.find_record(&signed.attestation.hash) {
            Option::None => {
                proof {
                    lemma_rec_index_range(old_recs, signed.attestation.hash@);
                }
                let record = StoredAttestation {
                    attestation: signed.attestation.duplicate(),
                    created_at,
                    batch_id: None,
                    sig_rows: rows,
                };
                self.attestations.push(record);
                proof {
                    let recs = self.records();
                    assert(self.spec_batches() == old(self).spec_batches());
                    assert(self.spec_memberships() == old(self).spec_memberships());
                    assert(recs.subrange(0, old_recs.len() as int) =~= old_recs);
                    assert forall|j: int| 0 <= j < old_recs.len() implies recs[j] == old_recs[j] by {
                        assert(recs.subrange(0, old_recs.len() as int)[j] == recs[j]);
                    }
                    assert(recs.last().attestation.hash@ == signed.attestation.hash@);
                    assert forall|i: int, j: int|
                        0 <= i < j < recs.len() implies (#[trigger] recs[i]).attestation.hash@ != (
                        #[trigger] recs[j]).attestation.hash@ by {
                        if j == recs.len() - 1 {
                            assert(recs[i] == old_recs[i]);
                        }
                    }
                    assert forall|i: int, j: int|
                        0 <= i < j < recs.len() && (#[trigger] recs[i]).attestation.network_id@
                            == (#[trigger] recs[j]).attestation.network_id@ implies
                        recs[i].attestation.sequence < recs[j].attestation.sequence by {
                        if j == recs.len() - 1 {
                            assert(recs[i] == old_recs[i]);
                        }
                    }
                                        assert forall|j: int|
                        0 <= j < self.spec_memberships().len() implies spec_rec_index(
                        recs,
                        (#[trigger] self.spec_memberships()[j]).hash@,
                    ) >= 0 && recs[spec_rec_index(
                        recs,
                        self.spec_memberships()[j].hash@,
                    )].batch_id == Some(self.spec_memberships()[j].batch_id) by {
                        let h = self.spec_memberships()[j].hash@;
                        lemma_rec_index_range(old_recs, h);
                        lemma_rec_index_at(recs, h, spec_rec_index(old_recs, h));
                    }
                }
            },
            Option::Some(k) => {
                proof {
                    lemma_rec_index_range(old_recs, signed.attestation.hash@);
                }
                let record = StoredAttestation {
                    attestation: self.attestations[k].attestation.duplicate(),
                    created_at,
                    batch_id: self.attestations[k].batch_id,
                    sig_rows: rows,
                };
                self.attestations.set(k, record);
                proof {
                    let recs = self.records();
                    lemma_rec_index_range(old_recs, signed.attestation.hash@);
                    assert(self.spec_batches() == old(self).spec_batches());
                    assert(self.spec_memberships() == old(self).spec_memberships());
                    assert forall|j: int|
                        0 <= j < recs.len() implies (#[trigger] recs[j]).attestation.hash@
                        == old_recs[j].attestation.hash@ by {}
                    assert forall|i: int, j: int|
                        0 <= i < j < recs.len() implies (#[trigger] recs[i]).attestation.hash@
                        != (#[trigger] recs[j]).attestation.hash@ by {
                        assert(old_recs[i].attestation.hash@ != old_recs[j].attestation.hash@);
                    }
                    assert forall|j: int|
                        0 <= j < recs.len() implies (#[trigger] recs[j]).attestation.network_id@
                        == old_recs[j].attestation.network_id@ && recs[j].attestation.sequence
                        == old_recs[j].attestation.sequence && recs[j].batch_id
                        == old_recs[j].batch_id by {}
                    assert forall|i: int, j: int|
                        0 <= i < j < recs.len() && (#[trigger] recs[i]).attestation.network_id@
                            == (#[trigger] recs[j]).attestation.network_id@ implies
                        recs[i].attestation.sequence < recs[j].attestation.sequence by {
                        assert(old_recs[i].attestation.network_id@
                            == old_recs[j].attestation.network_id@);
                    }
                    assert forall|j: int|
                        0 <= j < self.spec_memberships().len() implies spec_rec_index(
                        recs,
                        (#[trigger] self.spec_memberships()[j]).hash@,
                    ) >= 0 && recs[spec_rec_index(
                        recs,
                        self.spec_memberships()[j].hash@,
                    )].batch_id == Some(self.spec_memberships()[j].batch_id) by {
                        let h = self.spec_memberships()[j].hash@;
                        lemma_rec_index_same_hashes(old_recs, recs, h);
                        lemma_rec_index_range(old_recs, h);
                    }
                }
            },
        }
    }

    /// Reads a stored attestation back, rebuilding its signatures from the
    /// stored rows; `Some` exactly when the hash is stored with at least one
    /// signature row.
    pub fn get_attestation(&self, hash: &[u8; 32]) -> (r: Option<SignedAttestation>)
        ensures
            r is Some <==> (spec_has_hash(self.records(), hash@) && self.records()[spec_rec_index(
                self.records(),
                hash@,
            )].sig_rows@.len() > 0),
            r matches Some(sa) ==> {
                let rec = self.records()[spec_rec_index(self.records(), hash@)];
                &&& attestation_equiv(sa.attestation, rec.attestation)
                &&& decodes_rows(sa.signatures, rec.sig_rows@)
            },
    {
        match self.find_record(hash) {
            Option::None => None,
            Option::Some(k) => {
                proof {
                    lemma_rec_index_range(self.records(), hash@);
                }
                let rec = &self.attestations[k];
                if rec.sig_rows.len() == 0 {
                    return None;
                }
                let signatures = signatures_from_rows(&rec.sig_rows);
                Some(SignedAttestation { attestation: rec.attestation.duplicate(), signatures })
            },
        }
    }
}

/// How encoded signature rows relate to the signatures they came from: the
/// multi-sig form row for row, the aggregated form as one sentinel row.
pub open spec fn rows_encode_signatures(
    rows: Seq<WitnessSignature>,
    sigs: crate::signature_scheme::AttestationSignatures,
) -> bool {
    if sigs is MultiSig {
        rows_equiv(rows, sigs.spec_multisig_rows())
    } else {
        &&& rows.len() == 1
        &&& rows[0].witness_id@ == sentinel() + spec_join_ids(string_views(sigs.spec_signers()))
        &&& rows[0].signature@ == sigs.spec_agg_signature()
    }
}

impl Storage {
    /// Closes a batch: appends the batch row under the next ordinal id,
    /// appends one membership row per hash in leaf order, and marks each
    /// listed attestation as batched. Returns the assigned batch id.
    #[verifier::rlimit(100)]
    pub fn store_batch(&mut self, batch: &AttestationBatch, attestation_hashes: &Vec<[u8; 32]>)
        -> (r: u64)
        requires
            old(self).wf(),
            old(self).spec_batches().len() < usize::MAX,
            attestation_hashes@.len() >= 1,
            batch.attestation_count == attestation_hashes@.len(),
            forall|i: int, j: int|
                0 <= i < j < attestation_hashes@.len() ==> (#[trigger] attestation_hashes@[i])@
                    != (#[trigger] attestation_hashes@[j])@,
            forall|i: int|
                0 <= i < attestation_hashes@.len() ==> spec_has_hash(
                    old(self).records(),
                    (#[trigger] attestation_hashes@[i])@,
                ) && old(self).records()[spec_rec_index(
                    old(self).records(),
                    attestation_hashes@[i]@,
                )].batch_id is None,
        ensures
            final(self).wf(),
            r == old(self).spec_batches().len() + 1,
            final(self).spec_anchor_proofs() == old(self).spec_anchor_proofs(),
            final(self).spec_batches().len() == old(self).spec_batches().len() + 1,
            final(self).spec_batches().subrange(0, old(self).spec_batches().len() as int) == old(
                self,
            ).spec_batches(),
            final(self).spec_batches().last().id == r,
            final(self).spec_batches().last().network_id == batch.network_id,
            final(self).spec_batches().last().merkle_root == batch.merkle_root,
            final(self).spec_batches().last().period_start == batch.period_start,
            final(self).spec_batches().last().period_end == batch.period_end,
            final(self).spec_batches().last().attestation_count == batch.attestation_count,
            final(self).spec_memberships().len() == old(self).spec_memberships().len()
                + attestation_hashes@.len(),
            final(self).spec_memberships().subrange(
                0,
                old(self).spec_memberships().len() as int,
            ) == old(self).spec_memberships(),
            forall|i: int|
                0 <= i < attestation_hashes@.len() ==> {
                    let m = #[trigger] final(self).spec_memberships()[old(
                        self,
                    ).spec_memberships().len() + i];
                    &&& m.batch_id == r
                    &&& m.hash == attestation_hashes@[i]
                    &&& m.merkle_index == i
                },
            final(self).records().len() == old(self).records().len(),
            forall|i: int|
                0 <= i < attestation_hashes@.len() ==> {
                    let k = spec_rec_index(old(self).records(), (#[trigger] attestation_hashes@[i])@);
                    &&& final(self).records()[k].batch_id == Some(r)
                    &&& attestation_equiv(
                        final(self).records()[k].attestation,
                        old(self).records()[k].attestation,
                    )
                },
            forall|k: int|
                0 <= k < old(self).records().len() ==> (#[trigger] final(self).records()[k]
                    == old(self).records()[k] || (final(self).records()[k].batch_id == Some(r)
                    && attestation_equiv(
                    final(self).records()[k].attestation,
                    old(self).records()[k].attestation,
                ) && old(self).records()[k].batch_id is None)),
            spec_batch_hashes_rows(final(self).spec_memberships(), r) == attestation_hashes@,
    {
        let ghost old_recs = self.records();
        let ghost old_ms = self.spec_memberships();
        let ghost old_bs = self.spec_batches();
        let ghost hviews = attestation_hashes@;
        let n = attestation_hashes.len();
        let new_index = self.batches.len();
        let new_id: u64 = (new_index + 1) as u64;
        self.batches.push(AttestationBatch {
            id: new_id,
            network_id: batch.network_id.clone(),
            merkle_root: batch.merkle_root,
            period_start: batch.period_start,
            period_end: batch.period_end,
            attestation_count: batch.attestation_count,
        });
        let ghost new_bs = self.spec_batches();
        proof {
            assert(new_bs.subrange(0, old_bs.len() as int) =~= old_bs);
        }
        let mut i: usize = 0;
        while i < n
            invariant
                n == hviews.len(),
                hviews == attestation_hashes@,
                i <= n,
                new_id == old_bs.len() + 1,
                n >= 1,
                self.spec_batches() == new_bs,
                new_bs.len() == old_bs.len() + 1,
                new_bs.subrange(0, old_bs.len() as int) == old_bs,
                new_bs.last().id == new_id,
                new_bs.last().attestation_count == n,
                self.spec_anchor_proofs() == old(self).spec_anchor_proofs(),
                old(self).records() == old_recs,
                old(self).spec_memberships() == old_ms,
                self.records().len() == old_recs.len(),
                forall|i2: int, j2: int|
                    0 <= i2 < j2 < hviews.len() ==> (#[trigger] hviews[i2])@ != (
                    #[trigger] hviews[j2])@,
                forall|j: int|
                    0 <= j < hviews.len() ==> spec_has_hash(old_recs, (#[trigger] hviews[j])@)
                        && old_recs[spec_rec_index(old_recs, hviews[j]@)].batch_id is None,
                forall|j: int|
                    0 <= j < old_recs.len() ==> {
                        let rec = #[trigger] self.records()[j];
                        &&& rec.attestation.hash@ == old_recs[j].attestation.hash@
                        &&& rec.attestation.network_id@ == old_recs[j].attestation.network_id@
                        &&& rec.attestation.sequence == old_recs[j].attestation.sequence
                    },
                forall|j: int|
                    0 <= j < i ==> {
                        let k = spec_rec_index(old_recs, (#[trigger] hviews[j])@);
                        &&& self.records()[k].batch_id == Some(new_id)
                        &&& attestation_equiv(
                            self.records()[k].attestation,
                            old_recs[k].attestation,
                        )
                    },
                forall|k: int|
                    0 <= k < old_recs.len() ==> (#[trigger] self.records()[k] == old_recs[k] || (
                    self.records()[k].batch_id == Some(new_id) && attestation_equiv(
                        self.records()[k].attestation,
                        old_recs[k].attestation,
                    ) && old_recs[k].batch_id is None)),
                self.spec_memberships().len() == old_ms.len() + i,
                self.spec_memberships().subrange(0, old_ms.len() as int) == old_ms,
                forall|j: int|
                    0 <= j < i ==> {
                        let m = #[trigger] self.spec_memberships()[old_ms.len() + j];
                        &&& m.batch_id == new_id
                        &&& m.hash == hviews[j]
                        &&& m.merkle_index == j
                    },
            decreases n - i,
        {
            let ghost cur_recs = self.records();
            proof {
                lemma_rec_index_range(old_recs, hviews[i as int]@);
                lemma_rec_index_same_hashes(old_recs, cur_recs, hviews[i as int]@);
            }
            let k = match self.find_record(&attestation_hashes[i]) {
                Option::Some(k) => k,
                Option::None => {
                    proof {
                        assert(false);
                    }
                    0
                },
            };
            let updated = StoredAttestation {
                attestation: self.attestations[k].attestation.duplicate(),
                created_at: self.attestations[k].created_at,
                batch_id: Some(new_id),
                sig_rows: crate::sig_codec::copy_rows(&self.attestations[k].sig_rows),
            };
            self.attestations.set(k, updated);
            self.memberships.push(BatchMembership {
                batch_id: new_id,
                hash: attestation_hashes[i],
                merkle_index: i,
            });
            proof {
                assert(self.spec_memberships().subrange(0, old_ms.len() as int) =~= old_ms);
                assert forall|j: int|
                    0 <= j < i + 1 implies {
                        let kj = spec_rec_index(old_recs, (#[trigger] hviews[j])@);
                        &&& self.records()[kj].batch_id == Some(new_id)
                        &&& attestation_equiv(
                            self.records()[kj].attestation,
                            old_recs[kj].attestation,
                        )
                    } by {
                    let kj = spec_rec_index(old_recs, hviews[j]@);
                    lemma_rec_index_range(old_recs, hviews[j]@);
                    if j < i {
                        if kj == k {
                            assert(old_recs[kj].attestation.hash@ == hviews[j]@);
                            assert(old_recs[k as int].attestation.hash@ == hviews[i as int]@);
                        }
                    }
                }
            }
            i = i + 1;
        }
        proof {
            let recs = self.records();
            let ms = self.spec_memberships();
            let bs = self.spec_batches();
            assert(ms.subrange(0, old_ms.len() as int) =~= old_ms);
            assert forall|j: int| 0 <= j < old_ms.len() implies ms[j] == old_ms[j] by {
                assert(ms.subrange(0, old_ms.len() as int)[j] == ms[j]);
            }
            assert forall|j2: int| 0 <= j2 < old_bs.len() implies bs[j2] == old_bs[j2] by {
                assert(bs.subrange(0, old_bs.len() as int)[j2] == bs[j2]);
            }
            // hashes stay distinct and sequences increasing: views unchanged
            assert forall|i2: int, j2: int|
                0 <= i2 < j2 < recs.len() implies (#[trigger] recs[i2]).attestation.hash@ != (
                #[trigger] recs[j2]).attestation.hash@ by {
                assert(old_recs[i2].attestation.hash@ != old_recs[j2].attestation.hash@);
            }
            assert forall|i2: int, j2: int|
                0 <= i2 < j2 < recs.len() && (#[trigger] recs[i2]).attestation.network_id@ == (
                #[trigger] recs[j2]).attestation.network_id@ implies recs[i2].attestation.sequence
                < recs[j2].attestation.sequence by {
                assert(old_recs[i2].attestation.network_id@
                    == old_recs[j2].attestation.network_id@);
            }
            assert forall|j2: int|
                0 <= j2 < ms.len() implies 1 <= (#[trigger] ms[j2]).batch_id <= bs.len() by {
                if j2 >= old_ms.len() {
                    let q = j2 - old_ms.len();
                    assert(self.spec_memberships()[old_ms.len() + q].batch_id == new_id);
                }
            }
            assert forall|k2: int|
                0 <= k2 < recs.len() implies ((#[trigger] recs[k2]).batch_id matches Some(b)
                ==> 1 <= b <= bs.len()) by {
                assert(recs[k2] == old_recs[k2] || (recs[k2].batch_id == Some(new_id)
                    && attestation_equiv(recs[k2].attestation, old_recs[k2].attestation)
                    && old_recs[k2].batch_id is None));
            }
            // membership hashes stay distinct: a new hash cannot sit in an
            // old row, whose record was already batched
            assert forall|i2: int, j2: int|
                0 <= i2 < j2 < ms.len() implies (#[trigger] ms[i2]).hash@ != (
                #[trigger] ms[j2]).hash@ by {
                if j2 >= old_ms.len() {
                    let q = j2 - old_ms.len();
                    assert(self.spec_memberships()[old_ms.len() + q].hash == hviews[q]);
                    let h = ms[j2].hash@;
                    assert(h == hviews[q]@);
                    if i2 < old_ms.len() {
                        if ms[i2].hash@ == h {
                            assert(old_recs[spec_rec_index(old_recs, h)].batch_id is None);
                            assert(old_recs[spec_rec_index(old_recs, ms[i2].hash@)].batch_id
                                == Some(old_ms[i2].batch_id));
                        }
                    } else {
                        let p = i2 - old_ms.len();
                        assert(self.spec_memberships()[old_ms.len() + p].hash == hviews[p]);
                        assert(hviews[p]@ != hviews[q]@);
                    }
                }
            }
            // every membership row's record carries its batch id
            assert forall|j2: int|
                0 <= j2 < ms.len() implies spec_rec_index(recs, (#[trigger] ms[j2]).hash@) >= 0
                && recs[spec_rec_index(recs, ms[j2].hash@)].batch_id == Some(ms[j2].batch_id) by {
                let h = ms[j2].hash@;
                lemma_rec_index_same_hashes(old_recs, recs, h);
                lemma_rec_index_range(old_recs, h);
                if j2 < old_ms.len() {
                    let kk = spec_rec_index(old_recs, h);
                    assert(old_recs[kk].batch_id == Some(old_ms[j2].batch_id));
                    assert(recs[kk] == old_recs[kk] || old_recs[kk].batch_id is None);
                } else {
                    let q = j2 - old_ms.len();
                    assert(self.spec_memberships()[old_ms.len() + q].hash == hviews[q]);
                }
            }
            // leaf positions count the batch's earlier rows
            assert forall|j2: int|
                0 <= j2 < ms.len() implies (#[trigger] ms[j2]).merkle_index
                == spec_membership_count(ms.subrange(0, j2), ms[j2].batch_id) by {
                if j2 < old_ms.len() {
                    assert(ms.subrange(0, j2) =~= old_ms.subrange(0, j2));
                } else {
                    let p = j2 - old_ms.len();
                    let news = ms.subrange(old_ms.len() as int, j2);
                    assert(ms.subrange(0, j2) =~= old_ms + news);
                    lemma_membership_count_append(old_ms, news, new_id);
                    assert forall|q: int|
                        0 <= q < old_ms.len() implies (#[trigger] old_ms[q]).batch_id
                        != new_id by {}
                    lemma_membership_count_zero(old_ms, new_id);
                    assert forall|q: int|
                        0 <= q < news.len() implies (#[trigger] news[q]).batch_id == new_id by {
                        assert(news[q] == ms[old_ms.len() + q]);
                    }
                    lemma_membership_count_all(news, new_id);
                }
            }
            // batch counts: old batches keep their counts, the new one
            // counts its rows
            assert forall|bi: int|
                0 <= bi < bs.len() implies (#[trigger] bs[bi]).attestation_count
                == spec_membership_count(ms, bs[bi].id) by {
                let news = ms.subrange(old_ms.len() as int, ms.len() as int);
                assert(ms =~= old_ms + news);
                assert forall|q: int|
                    0 <= q < news.len() implies (#[trigger] news[q]).batch_id == new_id by {
                    assert(news[q] == ms[old_ms.len() + q]);
                }
                lemma_membership_count_append(old_ms, news, bs[bi].id);
                if bi < old_bs.len() {
                    assert(bs[bi].id == bi + 1);
                    assert forall|q: int|
                        0 <= q < news.len() implies (#[trigger] news[q]).batch_id != bs[bi].id by {}
                    lemma_membership_count_zero(news, bs[bi].id);
                } else {
                    assert(bs[bi].id == new_id);
                    assert forall|q: int|
                        0 <= q < old_ms.len() implies (#[trigger] old_ms[q]).batch_id
                        != new_id by {}
                    lemma_membership_count_zero(old_ms, new_id);
                    lemma_membership_count_all(news, new_id);
                    assert(news.len() == n);
                }
            }
            // the new batch's rows read back as exactly the given hashes
            assert forall|j2: int|
                0 <= j2 < old_ms.len() implies (#[trigger] ms[j2]).batch_id != new_id by {}
            assert forall|j2: int|
                old_ms.len() <= j2 < ms.len() implies (#[trigger] ms[j2]).batch_id == new_id by {
                let q = j2 - old_ms.len();
                assert(self.spec_memberships()[old_ms.len() + q].batch_id == new_id);
            }
            lemma_batch_hashes_suffix(ms, new_id, old_ms.len() as int);
            assert forall|j2: int|
                0 <= j2 < n implies ms.subrange(old_ms.len() as int, ms.len() as int).map_values(
                |m: BatchMembership| m.hash,
            )[j2] == hviews[j2] by {
                assert(self.spec_memberships()[old_ms.len() + j2].hash == hviews[j2]);
            }
            assert(spec_batch_hashes_rows(ms, new_id) =~= hviews);
        }
        new_id
    }
}


/// The stored anchor-proof rows for a batch, in insertion order.
pub open spec fn spec_proofs_for(ps: Seq<StoredAnchorProof>, b: u64) -> Seq<StoredAnchorProof>
    decreases ps.len(),
{
    if ps.len() == 0 {
        Seq::empty()
    } else {
        (if ps[0].batch_id == b {
            seq![ps[0]]
        } else {
            Seq::<StoredAnchorProof>::empty()
        }) + spec_proofs_for(ps.drop_first(), b)
    }
}

/// View-level equality of an anchor proof and a stored proof row.
pub open spec fn proof_equiv(p: ExternalAnchorProof, row: StoredAnchorProof) -> bool {
    &&& p.provider == row.provider
    &&& p.timestamp == row.timestamp
    &&& p.proof@ == row.proof@
    &&& (p.anchored_data is Some <==> row.anchored_data is Some)
    &&& (p.anchored_data matches Some(d) ==> row.anchored_data matches Some(d2) && d@ == d2@)
}

impl Storage {
    /// Reads a batch by id; `Some` exactly for assigned ids.
    pub fn get_batch(&self, batch_id: u64) -> (r: Option<AttestationBatch>)
        requires
            self.wf(),
        ensures
            r is Some <==> 1 <= batch_id <= self.spec_batches().len(),
            r matches Some(b) ==> {
                let stored = self.spec_batches()[batch_id - 1];
                &&& b.id == stored.id
                &&& b.network_id@ == stored.network_id@
                &&& b.merkle_root == stored.merkle_root
                &&& b.period_start == stored.period_start
                &&& b.period_end == stored.period_end
                &&& b.attestation_count == stored.attestation_count
            },
    {
        if batch_id >= 1 && batch_id <= self.batches.len() as u64 {
            let idx = (batch_id - 1) as usize;
            Some(self.batches[idx].duplicate())
        } else {
            None
        }
    }

    /// The batch an attestation has entered: `Some` exactly when the hash is
    /// stored and marked with a batch.
    pub fn get_batch_id_for_attestation(&self, hash: &[u8; 32]) -> (r: Option<u64>)
        ensures
            r is Some <==> (spec_has_hash(self.records(), hash@) && self.records()[spec_rec_index(
                self.records(),
                hash@,
            )].batch_id is Some),
            r is Some ==> r == self.records()[spec_rec_index(self.records(), hash@)].batch_id,
    {
        match self.find_record(hash) {
            Option::None => None,
            Option::Some(k) => {
                proof {
                    lemma_rec_index_range(self.records(), hash@);
                }
                self.attestations[k].batch_id
            },
        }
    }

    /// All attestation hashes of a batch, in leaf (insertion) order.
    pub fn get_batch_attestation_hashes(&self, batch_id: u64) -> (r: Vec<[u8; 32]>)
        ensures
            crate::merkle::hashes_view(r@) == crate::merkle::hashes_view(
                spec_batch_hashes_rows(self.spec_memberships(), batch_id),
            ),
            r@ == spec_batch_hashes_rows(self.spec_memberships(), batch_id),
    {
        let ghost ms = self.spec_memberships();
        let n = self.memberships.len();
        let mut out: Vec<[u8; 32]> = Vec::new();
        let mut i: usize = 0;
        assert(ms.skip(0) =~= ms);
        while i < n
            invariant
                n == ms.len(),
                ms == self.spec_memberships(),
                i <= n,
                spec_batch_hashes_rows(ms, batch_id) =~= out@ + spec_batch_hashes_rows(
                    ms.skip(i as int),
                    batch_id,
                ),
            decreases n - i,
        {
            let ghost tail = ms.skip(i as int);
            assert(tail[0] == ms[i as int]);
            assert(tail.drop_first() =~= ms.skip(i + 1));
            let ghost before = out@;
            if self.memberships[i].batch_id == batch_id {
                out.push(self.memberships[i].hash);
                assert(out@ + spec_batch_hashes_rows(ms.skip(i + 1), batch_id) =~= before
                    + spec_batch_hashes_rows(tail, batch_id));
            }
            i = i + 1;
        }
        assert(ms.skip(n as int) =~= Seq::<BatchMembership>::empty());
        assert(out@ =~= spec_batch_hashes_rows(ms, batch_id));
        out
    }

    /// An attestation's batch id, leaf index and the batch's merkle root;
    /// `Some` exactly when a membership row holds the hash.
    pub fn get_attestation_batch_info(&self, hash: &[u8; 32]) -> (r: Option<(u64, usize, [u8; 32])>)
        requires
            self.wf(),
        ensures
            r is Some <==> (exists|j: int|
                0 <= j < self.spec_memberships().len() && (
                #[trigger] self.spec_memberships()[j]).hash@ == hash@),
            r matches Some(info) ==> exists|j: int|
                0 <= j < self.spec_memberships().len() && {
                    let m = #[trigger] self.spec_memberships()[j];
                    &&& m.hash@ == hash@
                    &&& info.0 == m.batch_id
                    &&& info.1 == m.merkle_index
                    &&& info.2 == self.spec_batches()[m.batch_id - 1].merkle_root
                },
    {
        let ghost ms = self.spec_memberships();
        let n = self.memberships.len();
        let mut i: usize = 0;
        while i < n
            invariant
                n == ms.len(),
                ms == self.spec_memberships(),
                self.wf(),
                i <= n,
                forall|j: int| 0 <= j < i ==> (#[trigger] ms[j]).hash@ != hash@,
            decreases n - i,
        {
            let m = &self.memberships[i];
            if crate::crypto::hash_eq(&m.hash, hash) {
                let b = m.batch_id;
                let blen = self.batches.len();
                proof {
                    assert(1 <= ms[i as int].batch_id <= self.spec_batches().len());
                    assert(b <= blen as u64);
                }
                let idx = (b - 1) as usize;
                let root = self.batches[idx].merkle_root;
                proof {
                    let j = i as int;
                    assert(0 <= j < ms.len());
                    assert(ms[j].hash@ == hash@);
                    assert(b == ms[j].batch_id);
                    assert(m.merkle_index == ms[j].merkle_index);
                    assert(idx as int == ms[j].batch_id - 1);
                    assert(root == self.spec_batches()[idx as int].merkle_root);
                    assert(root == self.spec_batches()[ms[j].batch_id - 1].merkle_root);
                }
                return Some((b, m.merkle_index, root));
            }
            i = i + 1;
        }
        None
    }

    /// The unbatched attestations written at or after `since`, in commit
    /// order, with their signatures rebuilt from the stored rows.
    pub fn get_unbatched_attestations(&self, since: u64) -> (r: Vec<SignedAttestation>)
        ensures
            r@.len() == spec_unbatched(self.records(), since).len(),
            forall|i: int|
                0 <= i < r@.len() ==> {
                    let rec = spec_unbatched(self.records(), since)[i];
                    &&& attestation_equiv((#[trigger] r@[i]).attestation, rec.attestation)
                    &&& decodes_rows(r@[i].signatures, rec.sig_rows@)
                },
    {
        let ghost recs = self.records();
        let n = self.attestations.len();
        let mut out: Vec<SignedAttestation> = Vec::new();
        let ghost mut sel: Seq<StoredAttestation> = Seq::empty();
        let mut i: usize = 0;
        assert(recs.skip(0) =~= recs);
        while i < n
            invariant
                n == recs.len(),
                recs == self.records(),
                i <= n,
                spec_unbatched(recs, since) =~= sel + spec_unbatched(recs.skip(i as int), since),
                out@.len() == sel.len(),
                forall|j: int|
                    0 <= j < out@.len() ==> attestation_equiv(
                        (#[trigger] out@[j]).attestation,
                        sel[j].attestation,
                    ) && decodes_rows(out@[j].signatures, sel[j].sig_rows@),
            decreases n - i,
        {
            let ghost tail = recs.skip(i as int);
            assert(tail[0] == recs[i as int]);
            assert(tail.drop_first() =~= recs.skip(i + 1));
            let rec = &self.attestations[i];
            if rec.batch_id.is_none() && rec.attestation.timestamp >= since {
                let signatures = signatures_from_rows(&rec.sig_rows);
                let ghost before = sel;
                out.push(SignedAttestation { attestation: rec.attestation.duplicate(), signatures });
                proof {
                    sel = sel.push(recs[i as int]);
                    assert(sel + spec_unbatched(recs.skip(i + 1), since) =~= before
                        + spec_unbatched(tail, since));
                }
            }
            i = i + 1;
        }
        assert(recs.skip(n as int) =~= Seq::<StoredAttestation>::empty());
        assert(sel =~= spec_unbatched(recs, since));
        out
    }

    /// Appends an anchor proof for a batch; nothing else changes.
    pub fn store_anchor_proof(&mut self, batch_id: u64, proof: &ExternalAnchorProof)
        ensures
            final(self).records() == old(self).records(),
            final(self).spec_batches() == old(self).spec_batches(),
            final(self).spec_memberships() == old(self).spec_memberships(),
            final(self).spec_anchor_proofs().len() == old(self).spec_anchor_proofs().len() + 1,
            final(self).spec_anchor_proofs().subrange(
                0,
                old(self).spec_anchor_proofs().len() as int,
            ) == old(self).spec_anchor_proofs(),
            final(self).spec_anchor_proofs().last().batch_id == batch_id,
            proof_equiv(*proof, final(self).spec_anchor_proofs().last()),
            old(self).wf() ==> final(self).wf(),
    {
        let anchored_data = match &proof.anchored_data {
            Option::Some(d) => Some(copy_bytes(d)),
            Option::None => None,
        };
        let row = StoredAnchorProof {
            batch_id,
            provider: proof.provider,
            timestamp: proof.timestamp,
            proof: proof.proof.clone(),
            anchored_data,
            created_at: now_unix_secs(),
        };
        self.anchor_proofs.push(row);
        assert(self.spec_anchor_proofs().subrange(
            0,
            old(self).spec_anchor_proofs().len() as int,
        ) =~= old(self).spec_anchor_proofs());
    }

    /// All anchor proofs stored for a batch, in insertion order.
    pub fn get_anchor_proofs(&self, batch_id: u64) -> (r: Vec<ExternalAnchorProof>)
        ensures
            r@.len() == spec_proofs_for(self.spec_anchor_proofs(), batch_id).len(),
            forall|i: int|
                0 <= i < r@.len() ==> proof_equiv(
                    #[trigger] r@[i],
                    spec_proofs_for(self.spec_anchor_proofs(), batch_id)[i],
                ),
    {
        let ghost ps = self.spec_anchor_proofs();
        let n = self.anchor_proofs.len();
        let mut out: Vec<ExternalAnchorProof> = Vec::new();
        let ghost mut sel: Seq<StoredAnchorProof> = Seq::empty();
        let mut i: usize = 0;
        assert(ps.skip(0) =~= ps);
        while i < n
            invariant
                n == ps.len(),
                ps == self.spec_anchor_proofs(),
                i <= n,
                spec_proofs_for(ps, batch_id) =~= sel + spec_proofs_for(
                    ps.skip(i as int),
                    batch_id,
                ),
                out@.len() == sel.len(),
                forall|j: int| 0 <= j < out@.len() ==> proof_equiv(#[trigger] out@[j], sel[j]),
            decreases n - i,
        {
            let ghost tail = ps.skip(i as int);
            assert(tail[0] == ps[i as int]);
            assert(tail.drop_first() =~= ps.skip(i + 1));
            let row = &self.anchor_proofs[i];
            if row.batch_id == batch_id {
                let anchored_data = match &row.anchored_data {
                    Option::Some(d) => Some(copy_bytes(d)),
                    Option::None => None,
                };
                let ghost before = sel;
                out.push(ExternalAnchorProof {
                    provider: row.provider,
                    timestamp: row.timestamp,
                    proof: row.proof.clone(),
                    anchored_data,
                });
                proof {
                    sel = sel.push(ps[i as int]);
                    assert(sel + spec_proofs_for(ps.skip(i + 1), batch_id) =~= before
                        + spec_proofs_for(tail, batch_id));
                }
            }
            i = i + 1;
        }
        assert(ps.skip(n as int) =~= Seq::<StoredAnchorProof>::empty());
        assert(sel =~= spec_proofs_for(ps, batch_id));
        out
    }

    /// How many attestations are stored.
    pub fn count_attestations(&self) -> (r: u64)
        ensures
            r == self.records().len(),
    {
        self.attestations.len() as u64
    }

    /// How many stored attestations carry a timestamp at or after `since`.
    pub fn count_attestations_since(&self, since: u64) -> (r: u64)
        ensures
            r == spec_count_since(self.records(), since),
    {
        let ghost recs = self.records();
        let n = self.attestations.len();
        let mut count: usize = 0;
        let mut i: usize = 0;
        assert(recs.skip(0) =~= recs);
        while i < n
            invariant
                n == recs.len(),
                recs == self.records(),
                i <= n,
                count <= i,
                spec_count_since(recs, since) == count + spec_count_since(
                    recs.skip(i as int),
                    since,
                ),
            decreases n - i,
        {
            let ghost tail = recs.skip(i as int);
            assert(tail[0] == recs[i as int]);
            assert(tail.drop_first() =~= recs.skip(i + 1));
            if self.attestations[i].attestation.timestamp >= since {
                count = count + 1;
            }
            i = i + 1;
        }
        assert(recs.skip(n as int) =~= Seq::<StoredAttestation>::empty());
        count as u64
    }

    /// How many batches are stored.
    pub fn count_batches(&self) -> (r: u64)
        ensures
            r == self.spec_batches().len(),
    {
        self.batches.len() as u64
    }
}

/// Sequence uniqueness: in a well-formed store, two distinct records of the
/// same network never share a sequence number.
pub proof fn lemma_sequence_uniqueness(s: Storage, i: int, j: int)
    requires
        s.wf(),
        0 <= i < s.records().len(),
        0 <= j < s.records().len(),
        i != j,
        s.records()[i].attestation.network_id@ == s.records()[j].attestation.network_id@,
    ensures
        s.records()[i].attestation.sequence != s.records()[j].attestation.sequence,
{
}

/// Batch disjointness: in a well-formed store, every attestation hash sits
/// in at most one membership row, and each batch's count equals its rows.
pub proof fn lemma_batch_disjointness(s: Storage, i: int, j: int)
    requires
        s.wf(),
        0 <= i < s.spec_memberships().len(),
        0 <= j < s.spec_memberships().len(),
        i != j,
    ensures
        s.spec_memberships()[i].hash@ != s.spec_memberships()[j].hash@,
        forall|bi: int|
            0 <= bi < s.spec_batches().len() ==> (#[trigger] s.spec_batches()[bi]).attestation_count
                == spec_membership_count(s.spec_memberships(), s.spec_batches()[bi].id),
{
}


} // verus!
