//! Merkle commitment over 32-byte leaves. Internal nodes hash the
//! lexicographically smaller child first, so a proof needs no direction
//! bits: it authenticates set membership, not position. An unpaired node is
//! promoted unchanged, and the empty tree's root is all zeroes.

use vstd::prelude::*;

use crate::crypto::sha256;
use crate::crypto::sha256_of;
use crate::crypto::to_hash32;
use crate::encoding::push_bytes;

verus! {

/// The sequence of byte views of a list of 32-byte hashes.
pub open spec fn hashes_view(s: Seq<[u8; 32]>) -> Seq<Seq<u8>> {
    s.map_values(|a: [u8; 32]| a@)
}

/// The all-zero root of the empty tree.
pub open spec fn zero_root() -> Seq<u8> {
    Seq::new(32, |i: int| 0u8)
}

/// Lexicographic order on byte sequences.
pub open spec fn lex_le(a: Seq<u8>, b: Seq<u8>) -> bool
    decreases a.len(),
{
    if a.len() == 0 {
        true
    } else if b.len() == 0 {
        false
    } else if a[0] < b[0] {
        true
    } else if a[0] > b[0] {
        false
    } else {
        lex_le(a.drop_first(), b.drop_first())
    }
}

/// The pair hash: SHA-256 of the smaller child followed by the larger.
pub open spec fn spec_hash_sorted(a: Seq<u8>, b: Seq<u8>) -> Seq<u8> {
    if lex_le(a, b) {
        sha256_of(a + b)
    } else {
        sha256_of(b + a)
    }
}

/// One level up: adjacent nodes are pair-hashed; a final unpaired node is
/// promoted unchanged.
pub open spec fn spec_build_level(level: Seq<Seq<u8>>) -> Seq<Seq<u8>> {
    Seq::new((level.len() + 1) / 2, |i: int|
        if 2 * i + 1 < level.len() {
            spec_hash_sorted(level[2 * i], level[2 * i + 1])
        } else {
            level[2 * i]
        })
}

/// The root reached by building levels until one node is left; the zero
/// root for no leaves.
pub open spec fn spec_root_from(level: Seq<Seq<u8>>) -> Seq<u8>
    decreases level.len(),
{
    if level.len() == 0 {
        zero_root()
    } else if level.len() == 1 {
        level[0]
    } else {
        spec_root_from(spec_build_level(level))
    }
}

/// The sibling path for the node at `idx`: at each level the node's
/// neighbour, if it has one, then upward.
pub open spec fn spec_proof_path(level: Seq<Seq<u8>>, idx: int) -> Seq<Seq<u8>>
    decreases level.len(),
{
    if level.len() <= 1 {
        Seq::empty()
    } else {
        let sib = if idx % 2 == 0 { idx + 1 } else { idx - 1 };
        let head = if 0 <= sib < level.len() { seq![level[sib]] } else { Seq::<Seq<u8>>::empty() };
        head + spec_proof_path(spec_build_level(level), idx / 2)
    }
}

/// Folding a sibling path from a leaf: pair-hash with each sibling in turn.
pub open spec fn spec_fold(leaf: Seq<u8>, path: Seq<Seq<u8>>) -> Seq<u8>
    decreases path.len(),
{
    if path.len() == 0 {
        leaf
    } else {
        spec_fold(spec_hash_sorted(leaf, path[0]), path.drop_first())
    }
}

/// Lexicographic order is total.
proof fn lemma_lex_le_total(a: Seq<u8>, b: Seq<u8>)
    ensures
        lex_le(a, b) || lex_le(b, a),
    decreases a.len(),
{
    if a.len() == 0 {
    } else if b.len() == 0 {
    } else if a[0] == b[0] {
        lemma_lex_le_total(a.drop_first(), b.drop_first());
    }
}

/// Lexicographic order is antisymmetric.
proof fn lemma_lex_le_antisym(a: Seq<u8>, b: Seq<u8>)
    requires
        lex_le(a, b),
        lex_le(b, a),
    ensures
        a == b,
    decreases a.len(),
{
    if a.len() == 0 {
        assert(b.len() == 0);
        assert(a =~= b);
    } else {
        assert(b.len() > 0);
        assert(a[0] == b[0]);
        lemma_lex_le_antisym(a.drop_first(), b.drop_first());
        assert(a.len() == b.len());
        assert forall|i: int| 0 <= i < a.len() implies a[i] == b[i] by {
            if i >= 1 {
                assert(a[i] == a.drop_first()[i - 1]);
                assert(b[i] == b.drop_first()[i - 1]);
            }
        }
        assert(a =~= b);
    }
}

/// The pair hash does not depend on the order of its arguments.
proof fn lemma_hash_sorted_sym(a: Seq<u8>, b: Seq<u8>)
    ensures
        spec_hash_sorted(a, b) == spec_hash_sorted(b, a),
{
    lemma_lex_le_total(a, b);
    if lex_le(a, b) && lex_le(b, a) {
        lemma_lex_le_antisym(a, b);
    }
}

/// The merkle commitment law: for any leaf level and any index in it,
/// folding the sibling path from that node reaches the level's root.
pub proof fn lemma_merkle_path(level: Seq<Seq<u8>>, idx: int)
    requires
        0 <= idx < level.len(),
    ensures
        spec_fold(level[idx], spec_proof_path(level, idx)) == spec_root_from(level),
    decreases level.len(),
{
    if level.len() == 1 {
        assert(spec_proof_path(level, idx) =~= Seq::<Seq<u8>>::empty());
    } else {
        let next = spec_build_level(level);
        let nidx = idx / 2;
        assert(next.len() == (level.len() + 1) / 2);
        assert(0 <= nidx < next.len());
        lemma_merkle_path(next, nidx);
        let rest = spec_proof_path(next, nidx);
        let sib = if idx % 2 == 0 { idx + 1 } else { idx - 1 };
        if 0 <= sib && sib < level.len() {
            assert(spec_proof_path(level, idx) == seq![level[sib]] + rest);
            assert((seq![level[sib]] + rest)[0] == level[sib]);
            assert((seq![level[sib]] + rest).drop_first() =~= rest);
            if idx % 2 == 0 {
                assert(2 * nidx == idx);
                assert(next[nidx] == spec_hash_sorted(level[idx], level[sib]));
            } else {
                assert(2 * nidx == idx - 1);
                assert(next[nidx] == spec_hash_sorted(level[sib], level[idx]));
                lemma_hash_sorted_sym(level[sib], level[idx]);
            }
            assert(spec_fold(level[idx], spec_proof_path(level, idx))
                == spec_fold(spec_hash_sorted(level[idx], level[sib]), rest));
        } else {
            assert(idx % 2 == 0 && idx == level.len() - 1);
            assert(spec_proof_path(level, idx) =~= rest);
            assert(2 * nidx == idx);
            assert(next[nidx] == level[idx]);
        }
    }
}

/// Folding a path extended by one sibling pair-hashes the fold so far.
proof fn lemma_fold_snoc(leaf: Seq<u8>, path: Seq<Seq<u8>>, x: Seq<u8>)
    ensures
        spec_fold(leaf, path.push(x)) == spec_hash_sorted(spec_fold(leaf, path), x),
    decreases path.len(),
{
    let snoc = path.push(x);
    if path.len() == 0 {
        assert(snoc[0] == x);
        assert(snoc.drop_first() =~= Seq::<Seq<u8>>::empty());
        assert(spec_fold(leaf, snoc) == spec_fold(spec_hash_sorted(leaf, x), snoc.drop_first()));
        assert(spec_fold(spec_hash_sorted(leaf, x), snoc.drop_first()) == spec_hash_sorted(leaf, x));
        assert(spec_fold(leaf, path) == leaf);
    } else {
        assert(snoc[0] == path[0]);
        assert(snoc.drop_first() =~= path.drop_first().push(x));
        lemma_fold_snoc(spec_hash_sorted(leaf, path[0]), path.drop_first(), x);
        assert(spec_fold(leaf, snoc) == spec_fold(spec_hash_sorted(leaf, path[0]), snoc.drop_first()));
        assert(spec_fold(leaf, path) == spec_fold(spec_hash_sorted(leaf, path[0]), path.drop_first()));
    }
}

/// True when `a` is lexicographically at most `b`.
fn lex_le_bytes(a: &[u8; 32], b: &[u8; 32]) -> (r: bool)
    ensures
        r == lex_le(a@, b@),
{
    let mut i: usize = 0;
    assert(a@.skip(0) =~= a@);
    assert(b@.skip(0) =~= b@);
    while i < 32
        invariant
            i <= 32,
            forall|j: int| 0 <= j < i ==> a@[j] == b@[j],
            lex_le(a@, b@) == lex_le(a@.skip(i as int), b@.skip(i as int)),
        decreases 32 - i,
    {
        let ghost sa = a@.skip(i as int);
        let ghost sb = b@.skip(i as int);
        assert(sa[0] == a@[i as int] && sb[0] == b@[i as int]);
        if a[i] < b[i] {
            return true;
        }
        if a[i] > b[i] {
            return false;
        }
        assert(sa.drop_first() =~= a@.skip(i + 1));
        assert(sb.drop_first() =~= b@.skip(i + 1));
        i = i + 1;
    }
    assert(a@.skip(32) =~= Seq::<u8>::empty());
    true
}

/// Pair-hashes two nodes, smaller first.
fn hash_pair(a: &[u8; 32], b: &[u8; 32]) -> (r: [u8; 32])
    ensures
        r@ == spec_hash_sorted(a@, b@),
{
    let mut data: Vec<u8> = Vec::new();
    if lex_le_bytes(a, b) {
        push_bytes(&mut data, a.as_slice());
        push_bytes(&mut data, b.as_slice());
        assert(data@ =~= a@ + b@);
    } else {
        push_bytes(&mut data, b.as_slice());
        push_bytes(&mut data, a.as_slice());
        assert(data@ =~= b@ + a@);
        proof {
            lemma_lex_le_total(a@, b@);
        }
    }
    let digest = sha256(data.as_slice());
    to_hash32(&digest)
}

/// A merkle inclusion proof: the leaf, its sibling path, its index and the
/// root it folds to.
#[derive(Debug, Clone)]
pub struct MerkleProof {
    /// The leaf hash being proven.
    pub leaf: [u8; 32],
    /// Sibling hashes from leaf to root.
    pub siblings: Vec<[u8; 32]>,
    /// Index of the leaf in the tree.
    pub index: usize,
    /// The merkle root.
    pub root: [u8; 32],
}

/// A merkle tree over a fixed, ordered list of 32-byte leaves.
#[derive(Debug, Clone)]
pub struct MerkleTree {
    leaves: Vec<[u8; 32]>,
    root: [u8; 32],
}

/// Copies a list of hashes.
fn copy_hashes(v: &Vec<[u8; 32]>) -> (r: Vec<[u8; 32]>)
    ensures
        r@ == v@,
{
    let mut out: Vec<[u8; 32]> = Vec::new();
    let n = v.len();
    let mut i: usize = 0;
    while i < n
        invariant
            n == v@.len(),
            i <= n,
            out@ == v@.subrange(0, i as int),
        decreases n - i,
    {
        out.push(v[i]);
        i = i + 1;
        assert(out@ =~= v@.subrange(0, i as int));
    }
    assert(out@ =~= v@);
    out
}

/// Builds the next level up from the given one.
fn build_level(level: &Vec<[u8; 32]>) -> (r: Vec<[u8; 32]>)
    ensures
        hashes_view(r@) == spec_build_level(hashes_view(level@)),
{
    let n = level.len();
    let half = n / 2 + n % 2;
    let mut out: Vec<[u8; 32]> = Vec::new();
    let mut k: usize = 0;
    while k < half
        invariant
            n == level@.len(),
            half == (n as int + 1) / 2,
            k <= half,
            out@.len() == k,
            hashes_view(out@) =~= spec_build_level(hashes_view(level@)).subrange(0, k as int),
        decreases half - k,
    {
        assert(2 * k + 1 <= n);
        let node = if 2 * k + 1 < n {
            hash_pair(&level[2 * k], &level[2 * k + 1])
        } else {
            level[2 * k]
        };
        out.push(node);
        k = k + 1;
        assert(hashes_view(out@) =~= spec_build_level(hashes_view(level@)).subrange(0, k as int));
    }
    assert(hashes_view(out@) =~= spec_build_level(hashes_view(level@)));
    out
}

impl MerkleTree {
    /// The leaf hashes the tree was built from, as byte sequences.
    pub closed spec fn spec_leaves(self) -> Seq<Seq<u8>> {
        hashes_view(self.leaves@)
    }

    /// The tree's root field always equals the root recomputed from its
    /// leaves.
    pub closed spec fn wf(self) -> bool {
        self.root@ == spec_root_from(self.spec_leaves())
    }

    /// Builds the tree for an ordered list of leaf hashes.
    pub fn new(leaves: Vec<[u8; 32]>) -> (t: Self)
        ensures
            t.wf(),
            t.spec_leaves() == hashes_view(leaves@),
    {
        if leaves.len() == 0 {
            let root: [u8; 32] = [0u8; 32];
            assert(root@ =~= zero_root());
            return MerkleTree { leaves, root };
        }
        let mut current = copy_hashes(&leaves);
        while current.len() > 1
            invariant
                current@.len() >= 1,
                spec_root_from(hashes_view(current@)) == spec_root_from(hashes_view(leaves@)),
            decreases current@.len(),
        {
            let ghost before = hashes_view(current@);
            let next = build_level(&current);
            proof {
                assert(hashes_view(next@).len() == (before.len() + 1) / 2);
            }
            current = next;
        }
        let root = current[0];
        MerkleTree { leaves, root }
    }

    /// The merkle root: the fold of all leaves, or all zeroes for none.
    pub fn root(&self) -> (r: [u8; 32])
        requires
            self.wf(),
        ensures
            r@ == spec_root_from(self.spec_leaves()),
    {
        self.root
    }

    /// The sibling path for the leaf at `index`; `None` past the leaves.
    /// Folding the returned path from that leaf reaches the tree's root
    /// (`lemma_merkle_path`).
    pub fn proof_path(&self, index: usize) -> (r: Option<Vec<[u8; 32]>>)
        requires
            self.wf(),
        ensures
            r is Some <==> index < self.spec_leaves().len(),
            r matches Some(p) ==> hashes_view(p@) == spec_proof_path(
                self.spec_leaves(),
                index as int,
            ),
    {
        if index >= self.leaves.len() {
            return None;
        }
        let mut path: Vec<[u8; 32]> = Vec::new();
        let mut current_index: usize = index;
        let mut current_level = copy_hashes(&self.leaves);
        while current_level.len() > 1
            invariant
                current_index < current_level@.len(),
                hashes_view(path@) + spec_proof_path(
                    hashes_view(current_level@),
                    current_index as int,
                ) =~= spec_proof_path(self.spec_leaves(), index as int),
            decreases current_level@.len(),
        {
            let ghost lv = hashes_view(current_level@);
            let ghost before_proof = hashes_view(path@);
            let n = current_level.len();
            let sibling_index = if current_index % 2 == 0 {
                current_index + 1
            } else {
                current_index - 1
            };
            if sibling_index < n {
                path.push(current_level[sibling_index]);
                assert(hashes_view(path@) =~= before_proof.push(lv[sibling_index as int]));
            }
            let next = build_level(&current_level);
            proof {
                assert(hashes_view(next@).len() == (lv.len() + 1) / 2);
                if sibling_index < n {
                    assert(spec_proof_path(lv, current_index as int) == seq![
                        lv[sibling_index as int],
                    ] + spec_proof_path(hashes_view(next@), current_index as int / 2));
                } else {
                    assert(spec_proof_path(lv, current_index as int) == Seq::<Seq<u8>>::empty()
                        + spec_proof_path(hashes_view(next@), current_index as int / 2));
                }
                assert(hashes_view(path@) + spec_proof_path(
                    hashes_view(next@),
                    current_index as int / 2,
                ) =~= before_proof + spec_proof_path(lv, current_index as int));
            }
            current_level = next;
            current_index = current_index / 2;
        }
        proof {
            assert(spec_proof_path(hashes_view(current_level@), current_index as int)
                =~= Seq::<Seq<u8>>::empty());
            assert(hashes_view(path@) =~= spec_proof_path(self.spec_leaves(), index as int));
        }
        Some(path)
    }

    /// Folds `proof` from `leaf` and compares with `root`; true exactly when
    /// the fold reaches the root.
    pub fn verify_proof(leaf: [u8; 32], proof: &[[u8; 32]], root: [u8; 32]) -> (r: bool)
        ensures
            r == (spec_fold(leaf@, hashes_view(proof@)) == root@),
    {
        let mut current: [u8; 32] = leaf;
        let n = proof.len();
        let mut i: usize = 0;
        while i < n
            invariant
                n == proof@.len(),
                i <= n,
                current@ == spec_fold(leaf@, hashes_view(proof@).subrange(0, i as int)),
            decreases n - i,
        {
            let ghost prefix = hashes_view(proof@).subrange(0, i as int);
            current = hash_pair(&current, &proof[i]);
            i = i + 1;
            proof {
                lemma_fold_snoc(leaf@, prefix, hashes_view(proof@)[i - 1]);
                assert(hashes_view(proof@).subrange(0, i as int) =~= prefix.push(
                    hashes_view(proof@)[i - 1],
                ));
            }
        }
        assert(hashes_view(proof@).subrange(0, n as int) =~= hashes_view(proof@));
        let mut j: usize = 0;
        while j < 32
            invariant
                j <= 32,
                current@ == spec_fold(leaf@, hashes_view(proof@)),
                forall|k: int| 0 <= k < j ==> current@[k] == root@[k],
            decreases 32 - j,
        {
            if current[j] != root[j] {
                return false;
            }
            j = j + 1;
        }
        assert(current@ =~= root@);
        true
    }
}

} // verus!
