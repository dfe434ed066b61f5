use vstd::prelude::*;

use crate::digest::{digest_eq, is_zero_digest, zero_digest, Digest};
use crate::hashing::{compress_pair, poseidon2_compress_of};

verus! {

/// Two to the power `n`.
pub open spec fn pow2(n: nat) -> nat
    decreases n,
{
    if n == 0 {
        1
    } else {
        2 * pow2((n - 1) as nat)
    }
}

/// The parent of `value` and `sibling`; the low bit of `index` says whether `value` is the
/// right-hand child.
pub open spec fn hash_step(value: Digest, sibling: Digest, index: nat) -> Digest {
    if index % 2 == 0 {
        poseidon2_compress_of(value, sibling)
    } else {
        poseidon2_compress_of(sibling, value)
    }
}

/// The root reached by hashing `value` up along `path`, starting at leaf position `index`.
pub open spec fn root_from_path(value: Digest, index: nat, path: Seq<Digest>) -> Digest
    decreases path.len(),
{
    if path.len() == 0 {
        value
    } else {
        root_from_path(hash_step(value, path[0], index), index / 2, path.drop_first())
    }
}

/// The layer above `layer`: each pair of neighbours compressed into one node.
pub open spec fn next_layer(layer: Seq<Digest>) -> Seq<Digest> {
    Seq::new(layer.len() / 2, |j: int| poseidon2_compress_of(layer[2 * j], layer[2 * j + 1]))
}

/// The position of the node that shares a parent with position `j`.
pub open spec fn sibling_index(j: nat) -> nat {
    if j % 2 == 0 {
        j + 1
    } else {
        (j - 1) as nat
    }
}

/// The siblings met on the way from position `j` of `layer` up through `levels` layers.
pub open spec fn open_path(layer: Seq<Digest>, j: nat, levels: nat) -> Seq<Digest>
    decreases levels,
{
    if levels == 0 {
        Seq::empty()
    } else {
        seq![layer[sibling_index(j) as int]] + open_path(next_layer(layer), j / 2, (levels - 1) as nat)
    }
}

/// The root of the tree whose bottom layer is `layer`, `levels` layers high.
pub open spec fn tree_root(layer: Seq<Digest>, levels: nat) -> Digest
    decreases levels,
{
    if levels == 0 {
        layer[0]
    } else {
        tree_root(next_layer(layer), (levels - 1) as nat)
    }
}

/// Hashing a leaf up along its opened path gives the root of the tree.
pub proof fn lemma_open_path_reaches_root(layer: Seq<Digest>, j: nat, levels: nat)
    requires
        layer.len() == pow2(levels),
        j < layer.len(),
    ensures
        root_from_path(layer[j as int], j, open_path(layer, j, levels)) == tree_root(layer, levels),
    decreases levels,
{
    if levels > 0 {
        let next = next_layer(layer);
        let p = open_path(layer, j, levels);
        assert(next.len() == pow2((levels - 1) as nat));
        assert(hash_step(layer[j as int], layer[sibling_index(j) as int], j) == next[(j / 2) as int]);
        assert(p.drop_first() =~= open_path(next, j / 2, (levels - 1) as nat));
        lemma_open_path_reaches_root(next, j / 2, (levels - 1) as nat);
    }
}

/// An opening of one leaf: its position and the siblings from the leaf up to the root.
pub struct MerkleProof {
    pub index: usize,
    pub path: Vec<Digest>,
}

impl MerkleProof {
    /// The root that this opening gives for `value`.
    pub open spec fn root_for(&self, value: Digest) -> Digest {
        root_from_path(value, self.index as nat, self.path@)
    }
}

/// Recomputes the root from a leaf value and its opening, node by node.
pub fn compute_root(proof: &MerkleProof, value: &Digest) -> (r: Digest)
    ensures
        r == proof.root_for(*value),
{
    let mut acc: Digest = *value;
    let mut idx: usize = proof.index;
    let mut i: usize = 0;
    assert(proof.path@.skip(0) =~= proof.path@);
    while i < proof.path.len()
        invariant
            0 <= i <= proof.path@.len(),
            root_from_path(acc, idx as nat, proof.path@.skip(i as int)) == proof.root_for(*value),
        decreases proof.path@.len() - i,
    {
        let sibling: Digest = proof.path[i];
        if idx % 2 == 0 {
            acc = compress_pair(&acc, &sibling);
        } else {
            acc = compress_pair(&sibling, &acc);
        }
        assert(proof.path@.skip(i as int).drop_first() =~= proof.path@.skip(i + 1));
        idx = idx / 2;
        i = i + 1;
    }
    acc
}

/// Checks that `value` hashes up along `proof` to `root`.
pub fn verify_path(proof: &MerkleProof, value: &Digest, root: &Digest) -> (r: bool)
    ensures
        r == (proof.root_for(*value) == *root),
{
    let computed = compute_root(proof, value);
    digest_eq(&computed, root)
}

/// A tree committed over a power-of-two row of leaves; `layers[0]` holds the leaves and
/// `layers[height]` the root alone.
pub struct MerkleTree {
    pub height: usize,
    pub layers: Vec<Vec<Digest>>,
}

impl MerkleTree {
    pub open spec fn wf(&self) -> bool {
        &&& self.layers@.len() == self.height + 1
        &&& forall|k: int|
            0 <= k <= self.height ==> #[trigger] self.layers@[k]@.len() == pow2(
                (self.height - k) as nat,
            )
        &&& forall|k: int|
            0 <= k < self.height ==> #[trigger] self.layers@[k + 1]@ == next_layer(
                self.layers@[k]@,
            )
    }

    /// The padded row of leaves.
    pub open spec fn leaves(&self) -> Seq<Digest> {
        self.layers@[0]@
    }

    /// The single node of the top layer.
    pub open spec fn root(&self) -> Digest {
        self.layers@[self.height as int]@[0]
    }

    proof fn lemma_root_from_layer(&self, k: nat)
        requires
            self.wf(),
            k <= self.height,
        ensures
            tree_root(self.layers@[k as int]@, (self.height - k) as nat) == self.root(),
        decreases self.height - k,
    {
        if k < self.height {
            self.lemma_root_from_layer(k + 1);
            assert(self.layers@[(k + 1) as int]@ == next_layer(self.layers@[k as int]@));
        }
    }

    /// The tree's root is the root of its leaves.
    pub proof fn lemma_root_of_leaves(&self)
        requires
            self.wf(),
        ensures
            tree_root(self.leaves(), self.height as nat) == self.root(),
    {
        self.lemma_root_from_layer(0);
    }

    /// Commits to `leaves`, padded with zero digests up to the next power of two.
    pub fn commit(leaves: &Vec<Digest>) -> (r: (Digest, MerkleTree))
        requires
            1 <= leaves@.len() <= 0x4000_0000,
        ensures
            r.1.wf(),
            r.0 == r.1.root(),
            r.0 == tree_root(r.1.leaves(), r.1.height as nat),
            leaves@.len() <= r.1.leaves().len(),
            r.1.height == 0 || pow2((r.1.height - 1) as nat) < leaves@.len(),
            forall|i: int| 0 <= i < leaves@.len() ==> r.1.leaves()[i] == leaves@[i],
            forall|i: int|
                leaves@.len() <= i < r.1.leaves().len() ==> is_zero_digest(r.1.leaves()[i]),
    {
        let mut n: usize = 1;
        let mut height: usize = 0;
        while n < leaves.len()
            invariant
                n == pow2(height as nat),
                1 <= n,
                height == 0 || pow2((height - 1) as nat) < leaves@.len(),
                leaves@.len() <= 0x4000_0000,
                n <= 2 * leaves@.len(),
                height < n,
            decreases 2 * leaves@.len() - n,
        {
            n = n * 2;
            height = height + 1;
        }
        let mut bottom: Vec<Digest> = Vec::new();
        let mut i: usize = 0;
        while i < n
            invariant
                bottom@.len() == i,
                i <= n,
                forall|t: int| 0 <= t < i && t < leaves@.len() ==> bottom@[t] == leaves@[t],
                forall|t: int| leaves@.len() <= t < i ==> is_zero_digest(bottom@[t]),
            decreases n - i,
        {
            if i < leaves.len() {
                bottom.push(leaves[i]);
            } else {
                bottom.push(zero_digest());
            }
            i = i + 1;
        }
        let mut layers: Vec<Vec<Digest>> = Vec::new();
        layers.push(bottom);
        let mut k: usize = 0;
        while k < height
            invariant
                k <= height,
                n == pow2(height as nat),
                layers@.len() == k + 1,
                forall|t: int| 0 <= t < bottom@.len() ==> layers@[0]@[t] == bottom@[t],
                layers@[0]@.len() == bottom@.len(),
                forall|t: int|
                    0 <= t <= k ==> #[trigger] layers@[t]@.len() == pow2((height - t) as nat),
                forall|t: int|
                    0 <= t < k ==> #[trigger] layers@[t + 1]@ == next_layer(layers@[t]@),
            decreases height - k,
        {
            let half: usize = layers[k].len() / 2;
            let mut next: Vec<Digest> = Vec::new();
            let mut j: usize = 0;
            while j < half
                invariant
                    j <= half,
                    k < height,
                    half <= usize::MAX / 2,
                    layers@.len() == k + 1,
                    half == layers@[k as int]@.len() / 2,
                    next@ =~= next_layer(layers@[k as int]@).take(j as int),
                decreases half - j,
            {
                let a: Digest = layers[k][2 * j];
                let b: Digest = layers[k][2 * j + 1];
                next.push(compress_pair(&a, &b));
                j = j + 1;
            }
            assert(next@ =~= next_layer(layers@[k as int]@));
            assert(pow2((height - k) as nat) == 2 * pow2((height - (k + 1)) as nat));
            layers.push(next);
            k = k + 1;
        }
        let root: Digest = layers[height][0];
        let tree = MerkleTree { height, layers };
        proof {
            assert(tree.leaves() =~= bottom@);
            tree.lemma_root_of_leaves();
        }
        (root, tree)
    }

    /// Opens the leaf at `index`: its value and the siblings on its way to the root.
    pub fn open(&self, index: usize) -> (r: (Digest, MerkleProof))
        requires
            self.wf(),
            index < self.leaves().len(),
        ensures
            r.0 == self.leaves()[index as int],
            r.1.index == index,
            r.1.path@ == open_path(self.leaves(), index as nat, self.height as nat),
            r.1.root_for(r.0) == self.root(),
    {
        let mut path: Vec<Digest> = Vec::new();
        let mut j: usize = index;
        let mut k: usize = 0;
        while k < self.height
            invariant
                self.wf(),
                k <= self.height,
                j < pow2((self.height - k) as nat),
                path@ + open_path(self.layers@[k as int]@, j as nat, (self.height - k) as nat)
                    == open_path(self.leaves(), index as nat, self.height as nat),
            decreases self.height - k,
        {
            assert(pow2((self.height - k) as nat) == 2 * pow2((self.height - (k + 1)) as nat));
            let s: Digest = if j % 2 == 0 {
                self.layers[k][j + 1]
            } else {
                self.layers[k][j - 1]
            };
            proof {
                let op = open_path(self.layers@[k as int]@, j as nat, (self.height - k) as nat);
                assert(self.layers@[k + 1]@ == next_layer(self.layers@[k as int]@));
                assert(op =~= seq![s] + open_path(
                    self.layers@[k + 1]@,
                    (j / 2) as nat,
                    (self.height - (k + 1)) as nat,
                ));
                assert(path@.push(s) + open_path(
                    self.layers@[k + 1]@,
                    (j / 2) as nat,
                    (self.height - (k + 1)) as nat,
                ) =~= path@ + op);
            }
            path.push(s);
            j = j / 2;
            k = k + 1;
        }
        assert(path@ =~= open_path(self.leaves(), index as nat, self.height as nat));
        let value: Digest = self.layers[0][index];
        proof {
            lemma_open_path_reaches_root(self.leaves(), index as nat, self.height as nat);
            self.lemma_root_of_leaves();
        }
        (value, MerkleProof { index, path })
    }
}

/// Membership witnesses for a batch of verifying-key digests: one opening and one leaf value per
/// digest, all against one root.
pub struct MONEROCHANMerkleProofWitnessValues {
    pub vk_merkle_proofs: Vec<MerkleProof>,
    pub values: Vec<Digest>,
    pub root: Digest,
}

impl MONEROCHANMerkleProofWitnessValues {
    /// The witness holds one opening and one value for each of `n` digests.
    pub open spec fn has_len(&self, n: nat) -> bool {
        &&& self.vk_merkle_proofs@.len() == n
        &&& self.values@.len() == n
    }

    /// The value of entry `i` hashes up to the root.
    pub open spec fn path_holds(&self, i: int) -> bool {
        self.vk_merkle_proofs@[i].root_for(self.values@[i]) == self.root
    }

    /// Entry `i` passes: its path reaches the root and, when values are asserted, its value is
    /// the expected digest.
    pub open spec fn entry_holds(&self, digests: Seq<Digest>, i: int, value_assertions: bool) -> bool {
        &&& self.path_holds(i)
        &&& value_assertions ==> digests[i] == self.values@[i]
    }

    /// A padding witness: `num_proofs` openings at index 0, each with `height` zero siblings,
    /// zero values and a zero root.
    pub fn dummy(num_proofs: usize, height: usize) -> (r: Self)
        ensures
            r.has_len(num_proofs as nat),
            is_zero_digest(r.root),
            forall|i: int|
                0 <= i < num_proofs ==> {
                    &&& (#[trigger] r.vk_merkle_proofs@[i]).index == 0
                    &&& r.vk_merkle_proofs@[i].path@.len() == height
                    &&& forall|t: int|
                        0 <= t < height ==> is_zero_digest(
                            #[trigger] r.vk_merkle_proofs@[i].path@[t],
                        )
                    &&& is_zero_digest(r.values@[i])
                },
    {
        let mut vk_merkle_proofs: Vec<MerkleProof> = Vec::new();
        let mut values: Vec<Digest> = Vec::new();
        let mut i: usize = 0;
        while i < num_proofs
            invariant
                i <= num_proofs,
                vk_merkle_proofs@.len() == i,
                values@.len() == i,
                forall|u: int|
                    0 <= u < i ==> {
                        &&& (#[trigger] vk_merkle_proofs@[u]).index == 0
                        &&& vk_merkle_proofs@[u].path@.len() == height
                        &&& forall|t: int|
                            0 <= t < height ==> is_zero_digest(
                                #[trigger] vk_merkle_proofs@[u].path@[t],
                            )
                        &&& is_zero_digest(values@[u])
                    },
            decreases num_proofs - i,
        {
            let mut path: Vec<Digest> = Vec::new();
            let mut t: usize = 0;
            while t < height
                invariant
                    t <= height,
                    path@.len() == t,
                    forall|v: int| 0 <= v < t ==> is_zero_digest(#[trigger] path@[v]),
                decreases height - t,
            {
                path.push(zero_digest());
                t = t + 1;
            }
            vk_merkle_proofs.push(MerkleProof { index: 0, path });
            values.push(zero_digest());
            i = i + 1;
        }
        MONEROCHANMerkleProofWitnessValues { vk_merkle_proofs, values, root: zero_digest() }
    }
}

/// Why a membership check failed.
pub enum MerkleError {
    /// The witness does not hold exactly one opening and one value per digest.
    LengthMismatch,
    /// The value of this entry does not hash up to the root.
    RootMismatch { index: usize },
    /// The value of this entry is not the digest it should vouch for.
    ValueMismatch { index: usize },
}

/// Checks that a batch of verifying-key digests belongs to the set committed by a Merkle root.
pub struct MONEROCHANMerkleProofVerifier;

impl MONEROCHANMerkleProofVerifier {
    /// Every entry of the witness passes.
    pub open spec fn accepts(
        digests: Seq<Digest>,
        input: MONEROCHANMerkleProofWitnessValues,
        value_assertions: bool,
    ) -> bool {
        &&& input.has_len(digests.len())
        &&& forall|i: int|
            0 <= i < digests.len() ==> #[trigger] input.entry_holds(digests, i, value_assertions)
    }

    /// For each digest, recomputes its opening up to the root and fails on the first entry whose
    /// path does not reach it. With `value_assertions`, the leaf value must also equal the digest;
    /// without it (padding), the value is only compared with itself.
    pub fn verify(
        digests: &Vec<Digest>,
        input: &MONEROCHANMerkleProofWitnessValues,
        value_assertions: bool,
    ) -> (r: Result<(), MerkleError>)
        ensures
            r is Ok <== Self::accepts(digests@, *input, value_assertions),
            r is Ok ==> Self::accepts(digests@, *input, value_assertions),
            (r matches Err(MerkleError::LengthMismatch)) <==> !input.has_len(digests@.len()),
            r matches Err(MerkleError::RootMismatch { index }) ==> {
                &&& input.has_len(digests@.len())
                &&& index < digests@.len()
                &&& forall|i: int| 0 <= i < index ==> input.entry_holds(digests@, i, value_assertions)
                &&& !input.path_holds(index as int)
            },
            r matches Err(MerkleError::ValueMismatch { index }) ==> {
                &&& input.has_len(digests@.len())
                &&& index < digests@.len()
                &&& forall|i: int| 0 <= i < index ==> input.entry_holds(digests@, i, value_assertions)
                &&& input.path_holds(index as int)
                &&& value_assertions
                &&& digests@[index as int] != input.values@[index as int]
            },
    {
        let n = digests.len();
        if input.vk_merkle_proofs.len() != n || input.values.len() != n {
            return Err(MerkleError::LengthMismatch);
        }
        let mut i: usize = 0;
        while i < n
            invariant
                n == digests@.len(),
                input.has_len(n as nat),
                i <= n,
                forall|u: int| 0 <= u < i ==> #[trigger] input.entry_holds(digests@, u, value_assertions),
            decreases n - i,
        {
            if !verify_path(&input.vk_merkle_proofs[i], &input.values[i], &input.root) {
                assert(!input.entry_holds(digests@, i as int, value_assertions));
                return Err(MerkleError::RootMismatch { index: i });
            }
            let equal = if value_assertions {
                digest_eq(&digests[i], &input.values[i])
            } else {
                digest_eq(&input.values[i], &input.values[i])
            };
            if !equal {
                assert(!input.entry_holds(digests@, i as int, value_assertions));
                return Err(MerkleError::ValueMismatch { index: i });
            }
            assert(input.entry_holds(digests@, i as int, value_assertions));
            i = i + 1;
        }
        Ok(())
    }
}

impl MerkleTree {
    /// Opens the leaves at `indices`, giving a witness that vouches for exactly those leaves.
    pub fn witness_for(&self, indices: &Vec<usize>) -> (r: MONEROCHANMerkleProofWitnessValues)
        requires
            self.wf(),
            forall|i: int| 0 <= i < indices@.len() ==> indices@[i] < self.leaves().len(),
        ensures
            r.has_len(indices@.len()),
            r.root == self.root(),
            forall|i: int|
                0 <= i < indices@.len() ==> r.values@[i] == self.leaves()[indices@[i] as int],
            MONEROCHANMerkleProofVerifier::accepts(r.values@, r, true),
    {
        let mut vk_merkle_proofs: Vec<MerkleProof> = Vec::new();
        let mut values: Vec<Digest> = Vec::new();
        let root: Digest = self.layers[self.height][0];
        let mut i: usize = 0;
        while i < indices.len()
            invariant
                self.wf(),
                root == self.root(),
                forall|u: int| 0 <= u < indices@.len() ==> indices@[u] < self.leaves().len(),
                i <= indices@.len(),
                vk_merkle_proofs@.len() == i,
                values@.len() == i,
                forall|u: int| 0 <= u < i ==> #[trigger] values@[u] == self.leaves()[indices@[u] as int],
                forall|u: int|
                    0 <= u < i ==> (#[trigger] vk_merkle_proofs@[u]).root_for(values@[u]) == root,
            decreases indices@.len() - i,
        {
            let (value, proof) = self.open(indices[i]);
            vk_merkle_proofs.push(proof);
            values.push(value);
            i = i + 1;
        }
        let r = MONEROCHANMerkleProofWitnessValues { vk_merkle_proofs, values, root };
        assert forall|u: int| 0 <= u < r.values@.len() implies #[trigger] r.entry_holds(r.values@, u, true) by {
            assert(r.vk_merkle_proofs@[u].root_for(r.values@[u]) == root);
        }
        r
    }
}

/// An opening produced from a committed tree always hashes its leaf back to the tree's root.
pub proof fn lemma_opened_leaf_reaches_root(tree: MerkleTree, index: nat)
    requires
        tree.wf(),
        index < tree.leaves().len(),
    ensures
        root_from_path(tree.leaves()[index as int], index, open_path(tree.leaves(), index, tree.height as nat))
            == tree.root(),
{
    lemma_open_path_reaches_root(tree.leaves(), index, tree.height as nat);
    tree.lemma_root_of_leaves();
}

/// A path that reaches one root reaches no other: any change to the claimed root is caught.
pub proof fn lemma_changed_root_rejected(proof: MerkleProof, value: Digest, root: Digest, claimed: Digest)
    requires
        proof.root_for(value) == root,
        claimed != root,
    ensures
        proof.root_for(value) != claimed,
{
}

/// A witness with at least one entry that passes under its root fails under any other claimed
/// root.
pub proof fn lemma_changed_root_fails_membership(
    digests: Seq<Digest>,
    input: MONEROCHANMerkleProofWitnessValues,
    value_assertions: bool,
    claimed: Digest,
)
    requires
        digests.len() > 0,
        MONEROCHANMerkleProofVerifier::accepts(digests, input, value_assertions),
        claimed != input.root,
    ensures
        !MONEROCHANMerkleProofVerifier::accepts(
            digests,
            MONEROCHANMerkleProofWitnessValues {
                vk_merkle_proofs: input.vk_merkle_proofs,
                values: input.values,
                root: claimed,
            },
            value_assertions,
        ),
{
    assert(input.entry_holds(digests, 0, value_assertions));
    let changed = MONEROCHANMerkleProofWitnessValues {
        vk_merkle_proofs: input.vk_merkle_proofs,
        values: input.values,
        root: claimed,
    };
    assert(!changed.entry_holds(digests, 0, value_assertions));
}

} // verus!
