//! A binary hash tree over the transaction ids of a block, kept as a list of
//! levels, and inclusion proofs against its root.

use vstd::prelude::*;
use vstd::slice::slice_to_vec;
use crate::hash::{double_sha256, hash_eq, parent_hash_spec};

verus! {

/// The byte strings that a sequence of hashes holds.
pub open spec fn hashes_view(hashes: Seq<[u8; 32]>) -> Seq<Seq<u8>> {
    Seq::new(hashes.len(), |i: int| hashes[i]@)
}

/// The byte strings that a list of levels holds.
pub open spec fn levels_view(levels: Seq<Vec<[u8; 32]>>) -> Seq<Seq<Seq<u8>>> {
    Seq::new(levels.len(), |i: int| hashes_view(levels[i]@))
}

/// The right-hand node of the `i`-th pair of a level. Where the level has an
/// odd number of nodes, the last node is paired with itself.
pub open spec fn pair_right(level: Seq<Seq<u8>>, i: int) -> Seq<u8> {
    if 2 * i + 1 < level.len() {
        level[2 * i + 1]
    } else {
        level[2 * i]
    }
}

/// The level above `level`: one parent for each pair, taken left to right.
pub open spec fn next_level(level: Seq<Seq<u8>>) -> Seq<Seq<u8>> {
    Seq::new(
        ((level.len() + 1) / 2) as nat,
        |i: int| parent_hash_spec(level[2 * i], pair_right(level, i)),
    )
}

/// All levels of the tree over `level`, from `level` itself up to the level
/// that holds the root alone.
pub open spec fn tree_levels(level: Seq<Seq<u8>>) -> Seq<Seq<Seq<u8>>>
    decreases level.len(),
{
    if level.len() <= 1 {
        seq![level]
    } else {
        seq![level] + tree_levels(next_level(level))
    }
}

/// The root of the tree over a non-empty sequence of leaves. A single leaf is
/// its own root.
pub open spec fn merkle_root_spec(leaves: Seq<Seq<u8>>) -> Seq<u8>
    decreases leaves.len(),
{
    if leaves.len() <= 1 {
        leaves[0]
    } else {
        merkle_root_spec(next_level(leaves))
    }
}

/// The node that stands beside position `pos` of a level: the node to its
/// right for an even position, the node to its left for an odd one. The last
/// node of a level of odd length stands beside itself.
pub open spec fn sibling_of(level: Seq<Seq<u8>>, pos: int) -> Seq<u8> {
    if pos % 2 == 0 {
        if pos + 1 < level.len() {
            level[pos + 1]
        } else {
            level[pos]
        }
    } else {
        level[pos - 1]
    }
}

/// The siblings met on the way from position `pos` of `level` up to the
/// root, lowest first.
pub open spec fn proof_path_spec(level: Seq<Seq<u8>>, pos: int) -> Seq<Seq<u8>>
    decreases level.len(),
{
    if level.len() <= 1 {
        seq![]
    } else {
        seq![sibling_of(level, pos)] + proof_path_spec(next_level(level), pos / 2)
    }
}

/// For each step of the way from position `pos` of `level` up to the root,
/// whether the sibling stands on the right.
pub open spec fn proof_positions_spec(level: Seq<Seq<u8>>, pos: int) -> Seq<bool>
    decreases level.len(),
{
    if level.len() <= 1 {
        seq![]
    } else {
        seq![pos % 2 == 0] + proof_positions_spec(next_level(level), pos / 2)
    }
}

/// One step of recomputing a root: the parent of the running hash and a
/// sibling, the sibling on the side that the flag gives.
pub open spec fn fold_step(current: Seq<u8>, sibling: Seq<u8>, sibling_is_right: bool) -> Seq<u8> {
    if sibling_is_right {
        parent_hash_spec(current, sibling)
    } else {
        parent_hash_spec(sibling, current)
    }
}

/// The hash reached from `current` by taking the steps of a proof in order.
pub open spec fn fold_proof(current: Seq<u8>, path: Seq<Seq<u8>>, positions: Seq<bool>) -> Seq<u8>
    decreases path.len(),
{
    if path.len() == 0 {
        current
    } else {
        fold_proof(
            fold_step(current, path[0], positions[0]),
            path.drop_first(),
            positions.drop_first(),
        )
    }
}

/// The list of levels starts with the level it was made over.
pub proof fn lemma_tree_levels_head(level: Seq<Seq<u8>>)
    ensures
        tree_levels(level).len() >= 1,
        tree_levels(level)[0] == level,
        level.len() > 1 ==> tree_levels(level).skip(1) == tree_levels(next_level(level)),
        level.len() <= 1 ==> tree_levels(level).len() == 1,
{
    if level.len() > 1 {
    }
}

/// Each level above the leaves is the level made of the parents of the one
/// below it, and the last level holds the root alone.
pub proof fn lemma_levels_shape(leaves: Seq<Seq<u8>>)
    requires
        leaves.len() > 0,
    ensures
        forall|k: int|
            0 <= k < tree_levels(leaves).len() - 1 ==> #[trigger] tree_levels(leaves)[k + 1]
                == next_level(tree_levels(leaves)[k]),
        tree_levels(leaves).last() == seq![merkle_root_spec(leaves)],
    decreases leaves.len(),
{
    if leaves.len() > 1 {
        let above = next_level(leaves);
        lemma_levels_shape(above);
        lemma_tree_levels_head(above);
        assert forall|k: int| 0 <= k < tree_levels(leaves).len() - 1 implies #[trigger] tree_levels(
            leaves,
        )[k + 1] == next_level(tree_levels(leaves)[k]) by {
            if k > 0 {
            }
        }
    } else {
    }
}

/// A proof has one step for each level below the root.
pub proof fn lemma_proof_length(level: Seq<Seq<u8>>, pos: int)
    ensures
        proof_path_spec(level, pos).len() == tree_levels(level).len() - 1,
        proof_positions_spec(level, pos).len() == tree_levels(level).len() - 1,
    decreases level.len(),
{
    if level.len() > 1 {
        lemma_proof_length(next_level(level), pos / 2);
    }
}

/// Every proof that the tree over `leaves` gives for one of its leaves
/// recomputes the root of that tree.
pub proof fn lemma_generated_proof_verifies(leaves: Seq<Seq<u8>>, index: int)
    requires
        0 <= index < leaves.len(),
    ensures
        fold_proof(
            leaves[index],
            proof_path_spec(leaves, index),
            proof_positions_spec(leaves, index),
        ) == merkle_root_spec(leaves),
    decreases leaves.len(),
{
    if leaves.len() > 1 {
        let above = next_level(leaves);
        let path = proof_path_spec(leaves, index);
        let positions = proof_positions_spec(leaves, index);
        assert(path.drop_first() =~= proof_path_spec(above, index / 2));
        assert(positions.drop_first() =~= proof_positions_spec(above, index / 2));
        lemma_generated_proof_verifies(above, index / 2);
    }
}

/// A proof that a well-formed tree gives for one of its leaves has as many
/// position flags as siblings and recomputes the root of the tree: checked
/// against that root, it is found valid.
pub proof fn lemma_round_trip(tree: MerkleTree, proof: MerkleProof, index: int)
    requires
        tree.well_formed(),
        0 <= index < tree.leaves@.len(),
        proof.is_proof_of(hashes_view(tree.leaves@), index),
    ensures
        proof.path@.len() == proof.positions@.len(),
        proof.recomputed_root() == tree.merkle_root@,
{
    let leaves = hashes_view(tree.leaves@);
    lemma_proof_length(leaves, index);
    lemma_generated_proof_verifies(leaves, index);
}

/// The tree over a single leaf has that leaf as its root, and the proof for
/// it has no step.
pub proof fn lemma_single_leaf(leaf: Seq<u8>)
    ensures
        merkle_root_spec(seq![leaf]) == leaf,
        tree_levels(seq![leaf]) == seq![seq![leaf]],
        proof_path_spec(seq![leaf], 0) == Seq::<Seq<u8>>::empty(),
        proof_positions_spec(seq![leaf], 0) == Seq::<bool>::empty(),
        fold_proof(leaf, proof_path_spec(seq![leaf], 0), proof_positions_spec(seq![leaf], 0))
            == leaf,
{
}

/// Two different pairs of nodes have the same parent hash.
pub open spec fn parent_collision() -> bool {
    exists|l1: Seq<u8>, r1: Seq<u8>, l2: Seq<u8>, r2: Seq<u8>|
        (l1 != l2 || r1 != r2) && #[trigger] parent_hash_spec(l1, r1) == #[trigger] parent_hash_spec(
            l2,
            r2,
        )
}

/// Two different sequences of the same number of leaves have the same root
/// only where two different pairs of nodes have the same parent hash.
pub proof fn lemma_equal_roots_collide(a: Seq<Seq<u8>>, b: Seq<Seq<u8>>)
    requires
        a.len() == b.len(),
        a.len() > 0,
        a != b,
        merkle_root_spec(a) == merkle_root_spec(b),
    ensures
        parent_collision(),
    decreases a.len(),
{
    if a.len() == 1 {
        assert(a =~= b);
    } else {
        let above_a = next_level(a);
        let above_b = next_level(b);
        if above_a == above_b {
            if forall|k: int| 0 <= k < a.len() ==> a[k] == b[k] {
                assert(a =~= b);
            }
            let k = choose|k: int| 0 <= k < a.len() && a[k] != b[k];
            let p = k / 2;
            assert(above_a[p] == above_b[p]);
            assert(a[2 * p] != b[2 * p] || pair_right(a, p) != pair_right(b, p));
        } else {
            lemma_equal_roots_collide(above_a, above_b);
        }
    }
}

/// Swapping two leaves that differ changes the root, unless two different
/// pairs of nodes have the same parent hash.
pub proof fn lemma_swap_changes_root(leaves: Seq<Seq<u8>>, i: int, j: int)
    requires
        0 <= i < leaves.len(),
        0 <= j < leaves.len(),
        leaves[i] != leaves[j],
    ensures
        merkle_root_spec(leaves.update(i, leaves[j]).update(j, leaves[i])) != merkle_root_spec(
            leaves,
        ) || parent_collision(),
{
    let swapped = leaves.update(i, leaves[j]).update(j, leaves[i]);
    if merkle_root_spec(swapped) == merkle_root_spec(leaves) {
        lemma_equal_roots_collide(swapped, leaves);
    }
}

/// Why a tree could not be built, or a proof not made or checked.
#[derive(Debug, Clone, Copy, PartialEq, Eq, Structural)]
pub enum MerkleError {
    /// No leaf was given.
    EmptyInput,
    /// The leaf position is not below the number of leaves.
    IndexError,
    /// A proof holds a different number of siblings and of position flags.
    LengthMismatch,
}

/// An inclusion proof: a leaf and, for each level below the root, the sibling
/// to hash with and the side on which that sibling stands.
#[derive(Debug, Clone, PartialEq, Eq)]
pub struct MerkleProof {
    /// The leaf that the proof is for.
    pub txid: [u8; 32],
    /// The sibling hashes, lowest level first.
    pub path: Vec<[u8; 32]>,
    /// For each sibling, `true` where it stands on the right.
    pub positions: Vec<bool>,
}

/// An inclusion proof over byte strings.
pub struct MerkleProofView {
    pub txid: Seq<u8>,
    pub path: Seq<Seq<u8>>,
    pub positions: Seq<bool>,
}

impl View for MerkleProof {
    type V = MerkleProofView;

    open spec fn view(&self) -> MerkleProofView {
        MerkleProofView {
            txid: self.txid@,
            path: hashes_view(self.path@),
            positions: self.positions@,
        }
    }
}

impl MerkleProof {
    /// The hash that the steps of the proof lead to, starting from its leaf.
    pub open spec fn recomputed_root(&self) -> Seq<u8> {
        fold_proof(self.txid@, hashes_view(self.path@), self.positions@)
    }

    /// The proof is the one that the tree over `leaves` gives for the leaf
    /// at `index`.
    pub open spec fn is_proof_of(&self, leaves: Seq<Seq<u8>>, index: int) -> bool {
        &&& self.txid@ == leaves[index]
        &&& hashes_view(self.path@) == proof_path_spec(leaves, index)
        &&& self.positions@ == proof_positions_spec(leaves, index)
    }

    /// Recomputes a root from the leaf and the steps of the proof, and says
    /// whether it is `merkle_root`. Fails only on a proof whose siblings and
    /// position flags differ in number.
    pub fn verify_proof(&self, merkle_root: &[u8; 32]) -> (result: Result<bool, MerkleError>)
        ensures
            result is Err <==> self.path@.len() != self.positions@.len(),
            result matches Err(e) ==> e == MerkleError::LengthMismatch,
            result matches Ok(valid) ==> valid == (self.recomputed_root() == merkle_root@),
    {
        if self.path.len() != self.positions.len() {
            return Err(MerkleError::LengthMismatch);
        }
        let ghost path = hashes_view(self.path@);
        let ghost positions = self.positions@;
        let mut current_hash = self.txid;
        let mut i: usize = 0;
        assert(path.skip(0) =~= path);
        assert(positions.skip(0) =~= positions);
        while i < self.path.len()
            invariant
                i <= self.path@.len(),
                self.path@.len() == self.positions@.len(),
                path == hashes_view(self.path@),
                positions == self.positions@,
                fold_proof(current_hash@, path.skip(i as int), positions.skip(i as int))
                    == self.recomputed_root(),
            decreases self.path@.len() - i,
        {
            let sibling_hash = &self.path[i];
            let is_right = self.positions[i];
            proof {
                assert(path.skip(i as int).drop_first() =~= path.skip(i + 1));
                assert(positions.skip(i as int).drop_first() =~= positions.skip(i + 1));
            }
            current_hash = if is_right {
                MerkleTree::compute_parent_hash(&current_hash, sibling_hash)
            } else {
                MerkleTree::compute_parent_hash(sibling_hash, &current_hash)
            };
            i += 1;
        }
        Ok(hash_eq(&current_hash, merkle_root))
    }
}

/// A hash tree over the transaction ids of one block.
#[derive(Debug, Clone)]
pub struct MerkleTree {
    /// The leaves as they were given.
    pub leaves: Vec<[u8; 32]>,
    /// The root of the tree.
    pub merkle_root: [u8; 32],
    /// Every level, the leaves first and the root last.
    pub tree: Vec<Vec<[u8; 32]>>,
}

impl MerkleTree {
    /// The tree holds at least one leaf, its levels are those of the tree
    /// over its leaves, and its root is that tree's root.
    pub open spec fn well_formed(&self) -> bool {
        &&& self.leaves@.len() > 0
        &&& levels_view(self.tree@) == tree_levels(hashes_view(self.leaves@))
        &&& self.merkle_root@ == merkle_root_spec(hashes_view(self.leaves@))
    }

    /// The parent of two nodes: the double SHA-256 of the left node followed
    /// by the right one.
    pub fn compute_parent_hash(left_hash: &[u8; 32], right_hash: &[u8; 32]) -> (parent: [u8; 32])
        ensures
            parent@ == parent_hash_spec(left_hash@, right_hash@),
    {
        let mut buffer: Vec<u8> = Vec::with_capacity(64);
        buffer.extend_from_slice(left_hash.as_slice());
        buffer.extend_from_slice(right_hash.as_slice());
        assert(buffer@ =~= left_hash@ + right_hash@);
        double_sha256(buffer.as_slice())
    }

    /// The number of leaves.
    pub fn count_leaves(&self) -> (count: usize)
        ensures
            count == self.leaves@.len(),
    {
        self.leaves.len()
    }

    /// Walks from the leaf at `target_index` up to the root and appends, for
    /// each level below the root, the sibling to `path` and the side on which
    /// it stands to `positions`. Fails, and appends nothing, when the tree
    /// has no leaf at `target_index`.
    pub fn collect_proof_path(
        &self,
        target_index: usize,
        path: &mut Vec<[u8; 32]>,
        positions: &mut Vec<bool>,
    ) -> (result: Result<(), MerkleError>)
        requires
            self.well_formed(),
        ensures
            result is Err <==> target_index >= self.leaves@.len(),
            result matches Err(e) ==> e == MerkleError::IndexError && final(path)@ == old(path)@
                && final(positions)@ == old(positions)@,
            result is Ok ==> {
                &&& final(path)@.subrange(0, old(path)@.len() as int) == old(path)@
                &&& hashes_view(final(path)@) == hashes_view(old(path)@) + proof_path_spec(
                    hashes_view(self.leaves@),
                    target_index as int,
                )
                &&& final(positions)@ == old(positions)@ + proof_positions_spec(
                    hashes_view(self.leaves@),
                    target_index as int,
                )
            },
    {
        if target_index >= self.leaves.len() {
            return Err(MerkleError::IndexError);
        }
        let ghost base = hashes_view(self.leaves@);
        let ghost levels = levels_view(self.tree@);
        let depth = self.tree.len();
        let mut level_index: usize = 0;
        let mut position: usize = target_index;
        proof {
            lemma_tree_levels_head(base);
        }
        while self.tree[level_index].len() > 1
            invariant
                levels == levels_view(self.tree@),
                base == hashes_view(self.leaves@),
                depth == self.tree@.len(),
                level_index < depth,
                levels.skip(level_index as int) == tree_levels(levels[level_index as int]),
                position < levels[level_index as int].len(),
                path@.len() >= old(path)@.len(),
                path@.subrange(0, old(path)@.len() as int) == old(path)@,
                hashes_view(path@) + proof_path_spec(levels[level_index as int], position as int)
                    == hashes_view(old(path)@) + proof_path_spec(base, target_index as int),
                positions@ + proof_positions_spec(levels[level_index as int], position as int)
                    == old(positions)@ + proof_positions_spec(base, target_index as int),
            decreases depth - level_index,
        {
            let level = &self.tree[level_index];
            let ghost here = levels[level_index as int];
            let is_right_sibling = position % 2 == 0;
            let sibling_hash = if is_right_sibling {
                if position + 1 < level.len() {
                    level[position + 1]
                } else {
                    level[position]
                }
            } else {
                level[position - 1]
            };
            path.push(sibling_hash);
            positions.push(is_right_sibling);
            proof {
                lemma_tree_levels_head(here);
                lemma_tree_levels_head(next_level(here));
                assert(levels[level_index + 1] == next_level(here));
                assert(sibling_hash@ == sibling_of(here, position as int));
            }
            position = position / 2;
            level_index += 1;
        }
        Ok(())
    }

    /// The inclusion proof for the leaf at `tx_index`: the leaf itself and
    /// one step for each level below the root. Fails when the tree has no
    /// leaf at `tx_index`.
    pub fn generate_proof(&self, tx_index: usize) -> (result: Result<MerkleProof, MerkleError>)
        requires
            self.well_formed(),
        ensures
            result is Err <==> tx_index >= self.leaves@.len(),
            result matches Err(e) ==> e == MerkleError::IndexError,
            result matches Ok(proof) ==> {
                &&& proof.txid == self.leaves@[tx_index as int]
                &&& proof.is_proof_of(hashes_view(self.leaves@), tx_index as int)
                &&& proof.path@.len() == self.tree@.len() - 1
                &&& proof.positions@.len() == self.tree@.len() - 1
                &&& proof.recomputed_root() == self.merkle_root@
            },
    {
        if tx_index >= self.leaves.len() {
            return Err(MerkleError::IndexError);
        }
        let txid = self.leaves[tx_index];
        let mut path: Vec<[u8; 32]> = Vec::new();
        let mut positions: Vec<bool> = Vec::new();
        match self.collect_proof_path(tx_index, &mut path, &mut positions) {
            Err(e) => Err(e),
            Ok(()) => {
                proof {
                    let base = hashes_view(self.leaves@);
                    lemma_proof_length(base, tx_index as int);
                    lemma_generated_proof_verifies(base, tx_index as int);
                }
                Ok(MerkleProof { txid, path, positions })
            },
        }
    }

    /// The level above `level`.
    fn hash_level(level: &Vec<[u8; 32]>) -> (parents: Vec<[u8; 32]>)
        ensures
            hashes_view(parents@) == next_level(hashes_view(level@)),
    {
        let n = level.len();
        let count = n / 2 + n % 2;
        let mut parents: Vec<[u8; 32]> = Vec::with_capacity(count);
        let mut k: usize = 0;
        while k < count
            invariant
                n == level@.len(),
                count == (n + 1) / 2,
                k <= count,
                parents@.len() == k,
                forall|j: int|
                    0 <= j < k ==> (#[trigger] parents@[j])@ == parent_hash_spec(
                        level@[2 * j]@,
                        pair_right(hashes_view(level@), j),
                    ),
            decreases count - k,
        {
            let left = &level[2 * k];
            let right = if 2 * k + 1 < n {
                &level[2 * k + 1]
            } else {
                &level[2 * k]
            };
            let parent = Self::compute_parent_hash(left, right);
            parents.push(parent);
            k += 1;
        }
        parents
    }

    /// Builds the tree over `txids`, level by level. The leaves stand as they
    /// were given; a level with an odd number of nodes pairs its last node
    /// with itself. Fails only when no leaf is given.
    pub fn build_merkle_tree(txids: &[[u8; 32]]) -> (result: Result<MerkleTree, MerkleError>)
        ensures
            result is Err <==> txids@.len() == 0,
            result matches Err(e) ==> e == MerkleError::EmptyInput,
            result matches Ok(t) ==> t.well_formed() && t.leaves@ == txids@,
    {
        if txids.len() == 0 {
            return Err(MerkleError::EmptyInput);
        }
        let leaves = slice_to_vec(txids);
        let bottom = slice_to_vec(txids);
        let ghost base = hashes_view(leaves@);
        let mut tree: Vec<Vec<[u8; 32]>> = Vec::new();
        tree.push(bottom);
        while tree[tree.len() - 1].len() > 1
            invariant
                tree@.len() >= 1,
                levels_view(tree@).last().len() >= 1,
                tree_levels(base) == levels_view(tree@).drop_last() + tree_levels(
                    levels_view(tree@).last(),
                ),
                merkle_root_spec(base) == merkle_root_spec(levels_view(tree@).last()),
            decreases levels_view(tree@).last().len(),
        {
            let ghost before = levels_view(tree@);
            let parents = Self::hash_level(&tree[tree.len() - 1]);
            tree.push(parents);
            proof {
                let after = levels_view(tree@);
                assert(after.drop_last() =~= before);
                assert(after.last() == next_level(before.last()));
            }
        }
        let merkle_root = tree[tree.len() - 1][0];
        proof {
            let top = levels_view(tree@).last();
            assert(levels_view(tree@) =~= levels_view(tree@).drop_last() + seq![top]);
        }
        Ok(MerkleTree { leaves, merkle_root, tree })
    }
}

} // verus!
