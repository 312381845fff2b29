//! A Merkle tree over SHA-256 with domain-separated leaf and node hashes,
//! used for hash-based set membership: build a tree over elements, hand
//! out sibling paths, and fold a path back to the root to check it.

use vstd::prelude::*;
use vstd::slice::slice_to_vec;
use crate::commitment::{bytes_eq, sha256, sha256_of};
use crate::serialization::push_bytes;

verus! {

/// The ASCII bytes of the `"LEAF:"` domain prefix.
pub const LEAF_PREFIX: [u8; 5] = [76u8, 69u8, 65u8, 70u8, 58u8];

/// The ASCII bytes of the `"NODE:"` domain prefix.
pub const NODE_PREFIX: [u8; 5] = [78u8, 79u8, 68u8, 69u8, 58u8];

pub open spec fn spec_leaf_prefix() -> Seq<u8> {
    seq![76u8, 69u8, 65u8, 70u8, 58u8]
}

pub open spec fn spec_node_prefix() -> Seq<u8> {
    seq![78u8, 79u8, 68u8, 69u8, 58u8]
}

/// The hash of a leaf element: SHA-256 over `"LEAF:" ‖ element`.
pub open spec fn spec_leaf_hash(data: Seq<u8>) -> Seq<u8> {
    sha256_of(spec_leaf_prefix() + data)
}

/// The hash of an internal node: SHA-256 over `"NODE:" ‖ left ‖ right`.
pub open spec fn spec_node_hash(left: Seq<u8>, right: Seq<u8>) -> Seq<u8> {
    sha256_of(spec_node_prefix() + left + right)
}

/// The per-slot byte views of a vector of hash vectors.
pub open spec fn views_of(v: Seq<Vec<u8>>) -> Seq<Seq<u8>> {
    Seq::new(v.len(), |i: int| v[i]@)
}

/// The all-zero padding hash.
pub open spec fn spec_zero_hash() -> Seq<u8> {
    Seq::new(32, |i: int| 0u8)
}

/// One level reduced: the level padded to even length with the zero hash,
/// then each adjacent pair combined.
pub open spec fn spec_level_up(level: Seq<Seq<u8>>) -> Seq<Seq<u8>> {
    let padded = if level.len() % 2 == 1 {
        level.push(spec_zero_hash())
    } else {
        level
    };
    Seq::new((padded.len() / 2) as nat, |j: int| spec_node_hash(padded[2 * j], padded[2 * j + 1]))
}

/// The root hash over a level of hashes; the single hash when one is
/// left, and the empty sequence for an empty level.
pub open spec fn spec_root(level: Seq<Seq<u8>>) -> Seq<u8>
    decreases level.len(),
{
    if level.len() == 0 {
        Seq::<u8>::empty()
    } else if level.len() == 1 {
        level[0]
    } else {
        spec_root(spec_level_up(level))
    }
}

/// The smallest depth whose full tree covers `n` leaves.
pub open spec fn spec_ceil_log2(n: nat) -> nat
    decreases n,
{
    if n <= 1 {
        0
    } else {
        1 + spec_ceil_log2(((n + 1) / 2) as nat)
    }
}

/// Computes a leaf hash.
pub fn hash_leaf(data: &[u8]) -> (r: Vec<u8>)
    ensures
        r@ == spec_leaf_hash(data@),
        r@.len() == 32,
{
    let mut bytes: Vec<u8> = Vec::new();
    push_bytes(&mut bytes, LEAF_PREFIX.as_slice());
    push_bytes(&mut bytes, data);
    proof {
        assert(LEAF_PREFIX@ =~= spec_leaf_prefix());
        assert(bytes@ =~= spec_leaf_prefix() + data@);
    }
    sha256(bytes.as_slice())
}

/// Computes an internal node hash.
pub fn hash_internal(left: &[u8], right: &[u8]) -> (r: Vec<u8>)
    ensures
        r@ == spec_node_hash(left@, right@),
        r@.len() == 32,
{
    let mut bytes: Vec<u8> = Vec::new();
    push_bytes(&mut bytes, NODE_PREFIX.as_slice());
    push_bytes(&mut bytes, left);
    push_bytes(&mut bytes, right);
    proof {
        assert(NODE_PREFIX@ =~= spec_node_prefix());
        assert(bytes@ =~= spec_node_prefix() + left@ + right@);
    }
    sha256(bytes.as_slice())
}

/// A node of the tree; the stored tree keeps only the root node.
#[derive(Debug)]
pub struct MerkleNode {
    pub hash: Vec<u8>,
    pub left: Option<Box<MerkleNode>>,
    pub right: Option<Box<MerkleNode>>,
}

/// A Merkle tree: the leaf hashes in insertion order, the root, and the
/// tree depth.
#[derive(Debug)]
pub struct MerkleTree {
    pub root: Option<MerkleNode>,
    pub leaves: Vec<Vec<u8>>,
    pub depth: usize,
}

/// A sibling path from a leaf to the root; each entry carries the sibling
/// hash and whether that sibling sits on the right.
#[derive(Debug, Clone)]
pub struct MerkleProof {
    pub leaf_hash: Vec<u8>,
    pub leaf_index: usize,
    pub siblings: Vec<(Vec<u8>, bool)>,
    pub root_hash: Vec<u8>,
}

/// Folds a sibling path upward from a starting hash.
pub open spec fn spec_fold_path(h: Seq<u8>, siblings: Seq<(Vec<u8>, bool)>) -> Seq<u8>
    decreases siblings.len(),
{
    if siblings.len() == 0 {
        h
    } else {
        let next = if siblings[0].1 {
            spec_node_hash(h, siblings[0].0@)
        } else {
            spec_node_hash(siblings[0].0@, h)
        };
        spec_fold_path(next, siblings.drop_first())
    }
}

/// The leaf hashes of an element list, in order.
pub open spec fn spec_leaf_level(elements: Seq<Vec<u8>>) -> Seq<Seq<u8>> {
    Seq::new(elements.len(), |i: int| spec_leaf_hash(elements[i]@))
}

/// Whether some leaf slot holds the given hash.
pub open spec fn spec_holds_hash(leaves: Seq<Vec<u8>>, h: Seq<u8>) -> bool {
    exists|i: int| 0 <= i < leaves.len() && (#[trigger] leaves[i])@ == h
}

impl MerkleTree {
    /// Validity: 32-byte leaf hashes, a root exactly when there are
    /// leaves, the root hash equal to the reduction of the leaf level, and
    /// the depth covering the leaf count.
    pub open spec fn wf(&self) -> bool {
        &&& forall|i: int| 0 <= i < self.leaves@.len() ==> (#[trigger] self.leaves@[i])@.len()
            == 32
        &&& self.root is Some <==> self.leaves@.len() > 0
        &&& self.root matches Some(n) ==> n.hash@ == spec_root(views_of(self.leaves@))
        &&& self.depth == spec_ceil_log2(self.leaves@.len())
    }

    /// Reduces a hash level to the root hash.
    fn reduce_root(level: Vec<Vec<u8>>) -> (r: Vec<u8>)
        requires
            level@.len() >= 1,
            forall|i: int| 0 <= i < level@.len() ==> (#[trigger] level@[i])@.len() == 32,
        ensures
            r@ == spec_root(views_of(level@)),
            r@.len() == 32,
    {
        let mut current = level;
        while current.len() > 1
            invariant
                current@.len() >= 1,
                forall|i: int| 0 <= i < current@.len() ==> (#[trigger] current@[i])@.len() == 32,
                spec_root(views_of(current@)) == spec_root(views_of(level@)),
            decreases current@.len(),
        {
            if current.len() % 2 == 1 {
                let ghost before = views_of(current@);
                let zero = zero_hash();
                current.push(zero);
                proof {
                    assert(views_of(current@) =~= before.push(spec_zero_hash()));
                    lemma_root_pad(before);
                }
            }
            let ghost padded = views_of(current@);
            let mut next: Vec<Vec<u8>> = Vec::new();
            let mut j: usize = 0;
            while j < current.len() / 2
                invariant
                    current@.len() % 2 == 0,
                    current@.len() >= 2,
                    padded == views_of(current@),
                    forall|i: int| 0 <= i < current@.len() ==> (#[trigger] current@[i])@.len()
                        == 32,
                    j <= current@.len() / 2,
                    next@.len() == j,
                    forall|q: int| 0 <= q < j ==> (#[trigger] next@[q])@ == spec_node_hash(
                        padded[2 * q],
                        padded[2 * q + 1],
                    ),
                    forall|q: int| 0 <= q < j ==> (#[trigger] next@[q])@.len() == 32,
                decreases current@.len() / 2 - j,
            {
                let parent = hash_internal(
                    current[2 * j].as_slice(),
                    current[2 * j + 1].as_slice(),
                );
                next.push(parent);
                j = j + 1;
            }
            proof {
                assert(views_of(next@) =~= spec_level_up(padded));
                lemma_root_step(padded);
            }
            current = next;
        }
        proof {
            assert(spec_root(views_of(current@)) == views_of(current@)[0]);
        }
        let r = slice_to_vec(current[0].as_slice());
        r
    }

    /// Builds a tree over the elements; each leaf is the domain-separated
    /// hash of one element, in order.
    pub fn new(elements: Vec<Vec<u8>>) -> (r: MerkleTree)
        ensures
            r.wf(),
            r.leaves@.len() == elements@.len(),
            forall|i: int| 0 <= i < elements@.len() ==> (#[trigger] r.leaves@[i])@
                == spec_leaf_hash(elements@[i]@),
            r.root matches Some(n) ==> n.hash@ == spec_root(spec_leaf_level(elements@)),
    {
        let mut leaves: Vec<Vec<u8>> = Vec::new();
        let mut i: usize = 0;
        while i < elements.len()
            invariant
                i <= elements@.len(),
                leaves@.len() == i,
                forall|q: int| 0 <= q < i ==> (#[trigger] leaves@[q])@ == spec_leaf_hash(
                    elements@[q]@,
                ),
                forall|q: int| 0 <= q < i ==> (#[trigger] leaves@[q])@.len() == 32,
            decreases elements@.len() - i,
        {
            let h = hash_leaf(elements[i].as_slice());
            leaves.push(h);
            i = i + 1;
        }
        let r = Self::from_leaf_hashes(leaves);
        proof {
            if r.root is Some {
                assert(views_of(r.leaves@) =~= spec_leaf_level(elements@));
            }
        }
        r
    }

    /// Builds a tree from already-hashed leaves.
    fn from_leaf_hashes(leaves: Vec<Vec<u8>>) -> (r: MerkleTree)
        requires
            forall|i: int| 0 <= i < leaves@.len() ==> (#[trigger] leaves@[i])@.len() == 32,
        ensures
            r.wf(),
            r.leaves@ == leaves@,
    {
        let depth = ceil_log2(leaves.len());
        if leaves.len() == 0 {
            return MerkleTree { root: None, leaves, depth };
        }
        let cloned = clone_hashes(&leaves);
        proof {
            assert(views_of(cloned@) =~= views_of(leaves@));
        }
        let root_hash = Self::reduce_root(cloned);
        MerkleTree {
            root: Some(MerkleNode { hash: root_hash, left: None, right: None }),
            leaves,
            depth,
        }
    }

    /// The root hash, absent for an empty tree.
    pub fn root_hash(&self) -> (r: Option<Vec<u8>>)
        ensures
            r is Some <==> self.root is Some,
            r matches Some(h) ==> self.root matches Some(n) && h@ == n.hash@,
    {
        match &self.root {
            Some(node) => Some(slice_to_vec(node.hash.as_slice())),
            None => None,
        }
    }

    /// Generates a sibling path for an element, when its leaf hash is in
    /// the tree.
    pub fn generate_proof(&self, element: &[u8]) -> (r: Option<MerkleProof>)
        requires
            self.wf(),
        ensures
            r is Some <==> spec_holds_hash(self.leaves@, spec_leaf_hash(element@)),
            r matches Some(p) ==> {
                &&& p.leaf_hash@ == spec_leaf_hash(element@)
                &&& p.leaf_index < self.leaves@.len()
                &&& self.leaves@[p.leaf_index as int]@ == p.leaf_hash@
                &&& forall|j: int|
                    0 <= j < p.leaf_index ==> (#[trigger] self.leaves@[j])@ != p.leaf_hash@
                &&& p.siblings@.len() == spec_ceil_log2(self.leaves@.len())
                &&& self.root matches Some(n) && p.root_hash@ == n.hash@
                &&& spec_fold_path(p.leaf_hash@, p.siblings@) == p.root_hash@
            },
    {
        let leaf_hash = hash_leaf(element);
        let leaf_index = match self.find_leaf(leaf_hash.as_slice()) {
            Some(i) => i,
            None => {
                return None;
            },
        };
        let root_hash = match self.root_hash() {
            Some(h) => h,
            None => {
                return None;
            },
        };
        let siblings = self.collect_siblings(leaf_index);
        let folded = fold_path(leaf_hash.as_slice(), &siblings);
        if !bytes_eq(folded.as_slice(), root_hash.as_slice()) {
            // Unreachable for a well-formed tree; kept so that the sibling
            // path handed out is checked rather than assumed.
            return None;
        }
        proof {
            assert(spec_holds_hash(self.leaves@, spec_leaf_hash(element@)));
        }
        Some(MerkleProof { leaf_hash, leaf_index, siblings, root_hash })
    }

    /// Finds the slot of a leaf hash.
    fn find_leaf(&self, leaf_hash: &[u8]) -> (r: Option<usize>)
        ensures
            r is Some <==> spec_holds_hash(self.leaves@, leaf_hash@),
            r matches Some(i) ==> i < self.leaves@.len() && self.leaves@[i as int]@ == leaf_hash@
                && forall|j: int| 0 <= j < i ==> (#[trigger] self.leaves@[j])@ != leaf_hash@,
    {
        let mut i: usize = 0;
        while i < self.leaves.len()
            invariant
                i <= self.leaves@.len(),
                forall|q: int| 0 <= q < i ==> (#[trigger] self.leaves@[q])@ != leaf_hash@,
            decreases self.leaves@.len() - i,
        {
            if bytes_eq(self.leaves[i].as_slice(), leaf_hash) {
                return Some(i);
            }
            i = i + 1;
        }
        None
    }

    /// Collects the sibling hashes along the path from a leaf slot to the
    /// root, recomputing each level of the tree; folding the collected
    /// path from the leaf hash lands on the root hash.
    fn collect_siblings(&self, leaf_index: usize) -> (r: Vec<(Vec<u8>, bool)>)
        requires
            self.wf(),
            leaf_index < self.leaves@.len(),
        ensures
            r@.len() == spec_ceil_log2(self.leaves@.len()),
            self.root matches Some(n) ==> spec_fold_path(
                self.leaves@[leaf_index as int]@,
                r@,
            ) == n.hash@,
    {
        let ghost leaf0 = self.leaves@[leaf_index as int]@;
        let ghost n0 = self.leaves@.len();
        let mut siblings: Vec<(Vec<u8>, bool)> = Vec::new();
        let mut current = clone_hashes(&self.leaves);
        let mut idx = leaf_index;
        proof {
            assert(views_of(current@) =~= views_of(self.leaves@));
            assert(views_of(current@)[idx as int] == leaf0);
        }
        while current.len() > 1
            invariant
                idx < current@.len(),
                forall|i: int| 0 <= i < current@.len() ==> (#[trigger] current@[i])@.len() == 32,
                spec_fold_path(leaf0, siblings@) == views_of(current@)[idx as int],
                spec_root(views_of(current@)) == spec_root(views_of(self.leaves@)),
                siblings@.len() + spec_ceil_log2(current@.len()) == spec_ceil_log2(n0),
            decreases current@.len(),
        {
            let ghost len_before = current@.len();
            if current.len() % 2 == 1 {
                let ghost before = views_of(current@);
                let zero = zero_hash();
                current.push(zero);
                proof {
                    assert(views_of(current@) =~= before.push(spec_zero_hash()));
                    lemma_root_pad(before);
                    assert(views_of(current@)[idx as int] == before[idx as int]);
                }
            }
            let ghost padded = views_of(current@);
            let is_left = idx % 2 == 0;
            let sibling_index = if is_left {
                idx + 1
            } else {
                idx - 1
            };
            let sibling = slice_to_vec(current[sibling_index].as_slice());
            let ghost old_siblings = siblings@;
            siblings.push((sibling, is_left));
            proof {
                lemma_fold_push(leaf0, old_siblings, siblings@.last());
            }
            let mut next: Vec<Vec<u8>> = Vec::new();
            let mut j: usize = 0;
            while j < current.len() / 2
                invariant
                    current@.len() % 2 == 0,
                    current@.len() >= 2,
                    padded == views_of(current@),
                    forall|i: int| 0 <= i < current@.len() ==> (#[trigger] current@[i])@.len()
                        == 32,
                    j <= current@.len() / 2,
                    next@.len() == j,
                    forall|q: int| 0 <= q < j ==> (#[trigger] next@[q])@.len() == 32,
                    forall|q: int| 0 <= q < j ==> (#[trigger] next@[q])@ == spec_node_hash(
                        padded[2 * q],
                        padded[2 * q + 1],
                    ),
                decreases current@.len() / 2 - j,
            {
                let parent = hash_internal(
                    current[2 * j].as_slice(),
                    current[2 * j + 1].as_slice(),
                );
                next.push(parent);
                j = j + 1;
            }
            proof {
                assert(views_of(next@) =~= spec_level_up(padded));
                lemma_root_step(padded);
                assert(views_of(next@)[idx as int / 2] == spec_node_hash(
                    padded[2 * (idx as int / 2)],
                    padded[2 * (idx as int / 2) + 1],
                ));
            }
            proof {
                assert(next@.len() == (len_before + 1) / 2);
                assert(spec_ceil_log2(len_before as nat) == 1 + spec_ceil_log2(
                    ((len_before + 1) / 2) as nat,
                ));
            }
            idx = idx / 2;
            current = next;
        }
        proof {
            assert(spec_root(views_of(current@)) == views_of(current@)[0]);
            assert(idx == 0);
            assert(spec_ceil_log2(current@.len()) == 0);
        }
        siblings
    }

    /// Folds a sibling path and compares it with the recorded root.
    pub fn verify_proof(proof_path: &MerkleProof) -> (r: bool)
        ensures
            r == (spec_fold_path(proof_path.leaf_hash@, proof_path.siblings@)
                == proof_path.root_hash@),
    {
        let folded = fold_path(proof_path.leaf_hash.as_slice(), &proof_path.siblings);
        bytes_eq(folded.as_slice(), proof_path.root_hash.as_slice())
    }

    /// Adds an element unless its leaf hash is already present, rebuilding
    /// the tree.
    pub fn add_element(&mut self, element: &[u8])
        requires
            old(self).wf(),
        ensures
            final(self).wf(),
            spec_holds_hash(old(self).leaves@, spec_leaf_hash(element@)) ==> *final(self) == *old(
                self,
            ),
            !spec_holds_hash(old(self).leaves@, spec_leaf_hash(element@)) ==> {
                &&& final(self).leaves@.len() == old(self).leaves@.len() + 1
                &&& final(self).leaves@.last()@ == spec_leaf_hash(element@)
                &&& forall|i: int|
                    0 <= i < old(self).leaves@.len() ==> (#[trigger] final(self).leaves@[i])@
                        == old(self).leaves@[i]@
            },
    {
        let leaf_hash = hash_leaf(element);
        if self.find_leaf(leaf_hash.as_slice()).is_some() {
            return ;
        }
        let mut leaves = clone_hashes(&self.leaves);
        proof {
            assert(views_of(leaves@) =~= views_of(self.leaves@));
        }
        leaves.push(leaf_hash);
        let rebuilt = Self::from_leaf_hashes(leaves);
        *self = rebuilt;
    }

    /// Whether an element's leaf hash is in the tree.
    pub fn contains(&self, element: &[u8]) -> (r: bool)
        ensures
            r == spec_holds_hash(self.leaves@, spec_leaf_hash(element@)),
    {
        let leaf_hash = hash_leaf(element);
        self.find_leaf(leaf_hash.as_slice()).is_some()
    }

    /// The number of leaves.
    pub fn size(&self) -> (r: usize)
        ensures
            r == self.leaves@.len(),
    {
        self.leaves.len()
    }
}

/// Folding one more collected sibling applies a node hash on top of the
/// fold of the earlier path.
proof fn lemma_fold_push(h: Seq<u8>, s: Seq<(Vec<u8>, bool)>, x: (Vec<u8>, bool))
    ensures
        spec_fold_path(h, s.push(x)) == (if x.1 {
            spec_node_hash(spec_fold_path(h, s), x.0@)
        } else {
            spec_node_hash(x.0@, spec_fold_path(h, s))
        }),
    decreases s.len(),
{
    let w = s.push(x);
    if s.len() == 0 {
        assert(w[0] == x);
        assert(w.drop_first() =~= Seq::<(Vec<u8>, bool)>::empty());
        let step = if x.1 {
            spec_node_hash(h, x.0@)
        } else {
            spec_node_hash(x.0@, h)
        };
        assert(spec_fold_path(h, w) == spec_fold_path(step, w.drop_first()));
        assert(spec_fold_path(step, w.drop_first()) == step);
        assert(spec_fold_path(h, s) == h);
    } else {
        assert(w[0] == s[0]);
        let h1 = if s[0].1 {
            spec_node_hash(h, s[0].0@)
        } else {
            spec_node_hash(s[0].0@, h)
        };
        assert(spec_fold_path(h, w) == spec_fold_path(h1, w.drop_first()));
        assert(w.drop_first() =~= s.drop_first().push(x));
        lemma_fold_push(h1, s.drop_first(), x);
        assert(spec_fold_path(h, s) == spec_fold_path(h1, s.drop_first()));
    }
}

/// Builds the 32-byte zero padding hash.
fn zero_hash() -> (r: Vec<u8>)
    ensures
        r@ == spec_zero_hash(),
{
    let mut zero: Vec<u8> = Vec::new();
    let mut z: usize = 0;
    while z < 32
        invariant
            z <= 32,
            zero@ == Seq::new(z as nat, |i: int| 0u8),
        decreases 32 - z,
    {
        zero.push(0u8);
        proof {
            assert(zero@ =~= Seq::new((z + 1) as nat, |i: int| 0u8));
        }
        z = z + 1;
    }
    proof {
        assert(zero@ =~= spec_zero_hash());
    }
    zero
}

/// Reducing past the single-hash stage keeps the root.
proof fn lemma_root_step(level: Seq<Seq<u8>>)
    requires
        level.len() >= 2,
        level.len() % 2 == 0,
    ensures
        spec_root(spec_level_up(level)) == spec_root(level),
{
}

/// Padding an odd level with the zero hash keeps the root.
proof fn lemma_root_pad(level: Seq<Seq<u8>>)
    requires
        level.len() >= 2,
        level.len() % 2 == 1,
    ensures
        spec_root(level.push(spec_zero_hash())) == spec_root(level),
{
    assert(spec_level_up(level.push(spec_zero_hash())) =~= spec_level_up(level));
}

/// Clones a vector of hash vectors.
fn clone_hashes(hashes: &Vec<Vec<u8>>) -> (r: Vec<Vec<u8>>)
    ensures
        r@.len() == hashes@.len(),
        forall|i: int| 0 <= i < hashes@.len() ==> (#[trigger] r@[i])@ == hashes@[i]@,
{
    let mut out: Vec<Vec<u8>> = Vec::new();
    let mut i: usize = 0;
    while i < hashes.len()
        invariant
            i <= hashes@.len(),
            out@.len() == i,
            forall|q: int| 0 <= q < i ==> (#[trigger] out@[q])@ == hashes@[q]@,
        decreases hashes@.len() - i,
    {
        out.push(slice_to_vec(hashes[i].as_slice()));
        i = i + 1;
    }
    out
}

/// Folds a sibling path upward from a starting hash.
pub fn fold_path(start: &[u8], siblings: &Vec<(Vec<u8>, bool)>) -> (r: Vec<u8>)
    ensures
        r@ == spec_fold_path(start@, siblings@),
{
    let mut current = slice_to_vec(start);
    let mut i: usize = 0;
    proof {
        assert(siblings@.skip(0) =~= siblings@);
    }
    while i < siblings.len()
        invariant
            i <= siblings@.len(),
            spec_fold_path(current@, siblings@.skip(i as int)) == spec_fold_path(
                start@,
                siblings@,
            ),
        decreases siblings@.len() - i,
    {
        let next = if siblings[i].1 {
            hash_internal(current.as_slice(), siblings[i].0.as_slice())
        } else {
            hash_internal(siblings[i].0.as_slice(), current.as_slice())
        };
        proof {
            let rest = siblings@.skip(i as int);
            assert(rest[0] == siblings@[i as int]);
            assert(rest.drop_first() =~= siblings@.skip(i + 1));
        }
        current = next;
        i = i + 1;
    }
    proof {
        assert(siblings@.skip(siblings@.len() as int) =~= Seq::<(Vec<u8>, bool)>::empty());
    }
    current
}

/// The covering depth never exceeds the leaf count.
proof fn lemma_ceil_log2_le(n: nat)
    ensures
        spec_ceil_log2(n) <= n,
    decreases n,
{
    if n > 1 {
        lemma_ceil_log2_le(((n + 1) / 2) as nat);
    }
}

/// Computes the smallest depth whose full binary tree covers `n` leaves.
fn ceil_log2(n: usize) -> (r: usize)
    ensures
        r == spec_ceil_log2(n as nat),
{
    let mut m = n;
    let mut d: usize = 0;
    while m > 1
        invariant
            d + spec_ceil_log2(m as nat) == spec_ceil_log2(n as nat),
        decreases m,
    {
        proof {
            lemma_ceil_log2_le(n as nat);
            assert(spec_ceil_log2(m as nat) >= 1);
        }
        m = m / 2 + m % 2;
        d = d + 1;
    }
    d
}

/// A Merkle-tree backed set of byte-string elements.
#[derive(Debug)]
pub struct MerkleSet {
    tree: MerkleTree,
    element_map: Vec<(Vec<u8>, usize)>,
}

impl MerkleSet {
    /// Validity of the backing tree.
    pub closed spec fn wf(&self) -> bool {
        self.tree.wf()
    }

    /// Whether the backing tree holds the element's leaf hash.
    pub closed spec fn spec_contains(&self, element: Seq<u8>) -> bool {
        spec_holds_hash(self.tree.leaves@, spec_leaf_hash(element))
    }

    /// The number of elements.
    pub closed spec fn spec_len(&self) -> nat {
        self.tree.leaves@.len()
    }

    /// The root hash of the backing tree, empty for an empty set.
    pub closed spec fn spec_root_hash(&self) -> Seq<u8> {
        match self.tree.root {
            Some(n) => n.hash@,
            None => Seq::<u8>::empty(),
        }
    }

    pub fn new() -> (r: MerkleSet)
        ensures
            r.wf(),
            r.spec_len() == 0,
    {
        MerkleSet { tree: MerkleTree::new(Vec::new()), element_map: Vec::new() }
    }

    /// Builds a set from elements, keeping their order as leaf order.
    pub fn from_elements(elements: Vec<Vec<u8>>) -> (r: MerkleSet)
        ensures
            r.wf(),
            r.spec_len() == elements@.len(),
            forall|i: int| 0 <= i < elements@.len() ==> r.spec_contains(
                (#[trigger] elements@[i])@,
            ),
            r.spec_len() > 0 ==> r.spec_root_hash() == spec_root(spec_leaf_level(elements@)),
    {
        let mut element_map: Vec<(Vec<u8>, usize)> = Vec::new();
        let mut i: usize = 0;
        while i < elements.len()
            invariant
                i <= elements@.len(),
                element_map@.len() == i,
            decreases elements@.len() - i,
        {
            let e = slice_to_vec(elements[i].as_slice());
            element_map.push((e, i));
            i = i + 1;
        }
        let tree = MerkleTree::new(elements);
        proof {
            assert forall|q: int| 0 <= q < elements@.len() implies spec_holds_hash(
                tree.leaves@,
                spec_leaf_hash((#[trigger] elements@[q])@),
            ) by {
                assert(tree.leaves@[q]@ == spec_leaf_hash(elements@[q]@));
            }
        }
        MerkleSet { tree, element_map }
    }

    /// Inserts an element; returns false without change when its leaf
    /// hash is already present.
    pub fn insert(&mut self, element: Vec<u8>) -> (r: bool)
        requires
            old(self).wf(),
        ensures
            final(self).wf(),
            r == !old(self).spec_contains(element@),
            final(self).spec_contains(element@),
            r ==> final(self).spec_len() == old(self).spec_len() + 1,
            !r ==> *final(self) == *old(self),
            forall|e: Seq<u8>|
                #![auto]
                final(self).spec_contains(e) <==> old(self).spec_contains(e) || spec_leaf_hash(e)
                    == spec_leaf_hash(element@),
    {
        if self.tree.contains(element.as_slice()) {
            return false;
        }
        let index = self.tree.size();
        self.tree.add_element(element.as_slice());
        self.element_map.push((element, index));
        proof {
            assert(self.tree.leaves@[self.tree.leaves@.len() - 1]@ == spec_leaf_hash(element@));
            let old_leaves = old(self).tree.leaves@;
            let new_leaves = self.tree.leaves@;
            assert forall|e: Seq<u8>|
                #![auto]
                self.spec_contains(e) <==> old(self).spec_contains(e) || spec_leaf_hash(e)
                    == spec_leaf_hash(element@) by {
                if spec_holds_hash(new_leaves, spec_leaf_hash(e)) {
                    let w = choose|w: int|
                        0 <= w < new_leaves.len() && (#[trigger] new_leaves[w])@ == spec_leaf_hash(
                            e,
                        );
                    if w < old_leaves.len() {
                        assert(old_leaves[w]@ == spec_leaf_hash(e));
                    }
                }
                if spec_holds_hash(old_leaves, spec_leaf_hash(e)) {
                    let w = choose|w: int|
                        0 <= w < old_leaves.len() && (#[trigger] old_leaves[w])@ == spec_leaf_hash(
                            e,
                        );
                    assert(new_leaves[w]@ == spec_leaf_hash(e));
                }
                if spec_leaf_hash(e) == spec_leaf_hash(element@) {
                    assert(new_leaves[new_leaves.len() - 1]@ == spec_leaf_hash(e));
                }
            }
        }
        true
    }

    /// Whether the set holds an element.
    pub fn contains(&self, element: &[u8]) -> (r: bool)
        ensures
            r == self.spec_contains(element@),
    {
        self.tree.contains(element)
    }

    /// Generates a membership path for an element.
    pub fn prove_membership(&self, element: &[u8]) -> (r: Option<MerkleProof>)
        requires
            self.wf(),
        ensures
            r is Some <==> self.spec_contains(element@),
            r is Some ==> self.spec_len() > 0,
            r matches Some(p) ==> {
                &&& p.leaf_hash@ == spec_leaf_hash(element@)
                &&& p.root_hash@ == self.spec_root_hash()
                &&& spec_fold_path(p.leaf_hash@, p.siblings@) == p.root_hash@
            },
    {
        let r = self.tree.generate_proof(element);
        proof {
            if r is Some {
                assert(spec_holds_hash(self.tree.leaves@, spec_leaf_hash(element@)));
                let i = choose|i: int|
                    0 <= i < self.tree.leaves@.len() && (#[trigger] self.tree.leaves@[i])@
                        == spec_leaf_hash(element@);
            }
        }
        r
    }

    /// Checks a membership path against this set's root.
    pub fn verify_membership(&self, proof_path: &MerkleProof) -> (r: bool)
        requires
            self.wf(),
        ensures
            r == ({
                &&& self.spec_len() > 0
                &&& proof_path.root_hash@ == self.spec_root_hash()
                &&& spec_fold_path(proof_path.leaf_hash@, proof_path.siblings@)
                    == proof_path.root_hash@
            }),
    {
        let root = match self.tree.root_hash() {
            Some(h) => h,
            None => {
                return false;
            },
        };
        if !bytes_eq(proof_path.root_hash.as_slice(), root.as_slice()) {
            return false;
        }
        MerkleTree::verify_proof(proof_path)
    }

    /// The root hash, absent for an empty set.
    pub fn root_hash(&self) -> (r: Option<Vec<u8>>)
        requires
            self.wf(),
        ensures
            r is Some <==> self.spec_len() > 0,
            r matches Some(h) ==> h@ == self.spec_root_hash(),
    {
        self.tree.root_hash()
    }

    /// The number of elements.
    pub fn len(&self) -> (r: usize)
        ensures
            r == self.spec_len(),
    {
        self.tree.size()
    }

    /// Whether the set is empty.
    pub fn is_empty(&self) -> (r: bool)
        ensures
            r == (self.spec_len() == 0),
    {
        self.len() == 0
    }
}

} // verus!
