use vstd::prelude::*;
use crate::bytes::push_all;
use crate::privacy_utils::{digests_equal, sha256, sha256_of};

verus! {

/// The byte strings that fixed-size digests hold.
pub open spec fn digests(s: Seq<[u8; 32]>) -> Seq<Seq<u8>> {
    s.map_values(|a: [u8; 32]| a@)
}

/// The parent of two nodes.
pub open spec fn hash_pair(left: Seq<u8>, right: Seq<u8>) -> Seq<u8> {
    sha256_of(left + right)
}

/// The parent of the node at `index` and its sibling: an even index is a
/// left child, an odd one a right child.
pub open spec fn combine(node: Seq<u8>, sibling: Seq<u8>, index: nat) -> Seq<u8> {
    if index % 2 == 0 {
        hash_pair(node, sibling)
    } else {
        hash_pair(sibling, node)
    }
}

/// The root that a proof leads to from `node` at `index`, one level per
/// sibling.
pub open spec fn fold_proof(node: Seq<u8>, proof: Seq<Seq<u8>>, index: nat) -> Seq<u8>
    decreases proof.len(),
{
    if proof.len() == 0 {
        node
    } else {
        fold_proof(combine(node, proof[0], index), proof.drop_first(), index / 2)
    }
}

/// The index of a node's sibling in a level of `len` nodes. The last node
/// of an odd level is its own sibling.
pub open spec fn sibling_index(index: nat, len: nat) -> nat {
    if index % 2 == 1 {
        (index - 1) as nat
    } else if index + 1 < len {
        index + 1
    } else {
        index
    }
}

/// The level above: each pair of nodes hashed, the last node of an odd
/// level paired with itself.
pub open spec fn next_level(level: Seq<Seq<u8>>) -> Seq<Seq<u8>> {
    Seq::new(
        ((level.len() + 1) / 2) as nat,
        |j: int| hash_pair(level[2 * j], level[sibling_index((2 * j) as nat, level.len()) as int]),
    )
}

/// The root of the tree over a level of nodes; the empty tree's root is
/// empty.
pub open spec fn tree_root(level: Seq<Seq<u8>>) -> Seq<u8>
    decreases level.len(),
{
    if level.len() == 0 {
        Seq::empty()
    } else if level.len() == 1 {
        level[0]
    } else {
        tree_root(next_level(level))
    }
}

/// The siblings met on the way from the node at `index` to the root,
/// bottom up.
pub open spec fn tree_proof(level: Seq<Seq<u8>>, index: nat) -> Seq<Seq<u8>>
    decreases level.len(),
{
    if level.len() <= 1 {
        Seq::empty()
    } else {
        seq![level[sibling_index(index, level.len()) as int]] + tree_proof(next_level(level), index / 2)
    }
}

fn hash_pair_of(left: &[u8; 32], right: &[u8; 32]) -> (r: [u8; 32])
    ensures
        r@ == hash_pair(left@, right@),
{
    let mut data: Vec<u8> = Vec::new();
    push_all(&mut data, left.as_slice());
    push_all(&mut data, right.as_slice());
    sha256(data.as_slice())
}

fn build_next_level(level: &Vec<[u8; 32]>) -> (r: Vec<[u8; 32]>)
    ensures
        digests(r@) == next_level(digests(level@)),
        r@.len() == (level@.len() + 1) / 2,
{
    let len = level.len();
    let half = len / 2 + len % 2;
    let mut out: Vec<[u8; 32]> = Vec::new();
    let mut j: usize = 0;
    while j < half
        invariant
            len == level@.len(),
            half == (len + 1) / 2,
            j <= half,
            out@.len() == j,
            digests(out@) =~= next_level(digests(level@)).subrange(0, j as int),
        decreases half - j,
    {
        let left = 2 * j;
        let right = if left + 1 < len {
            left + 1
        } else {
            left
        };
        let parent = hash_pair_of(&level[left], &level[right]);
        let ghost before = out@;
        out.push(parent);
        proof {
            assert(out@ == before.push(parent));
            assert(digests(out@)[j as int] == parent@);
            assert(digests(level@)[left as int] == level@[left as int]@);
            assert(digests(level@)[right as int] == level@[right as int]@);
            assert(forall|k: int| 0 <= k < j ==> digests(out@)[k] == digests(before)[k]);
        }
        j = j + 1;
        assert(digests(out@) =~= next_level(digests(level@)).subrange(0, j as int));
    }
    assert(next_level(digests(level@)).subrange(0, half as int) =~= next_level(digests(level@)));
    out
}

fn copy_leaves(leaves: &[[u8; 32]]) -> (r: Vec<[u8; 32]>)
    ensures
        r@ == leaves@,
{
    let mut out: Vec<[u8; 32]> = Vec::new();
    let mut i: usize = 0;
    while i < leaves.len()
        invariant
            i <= leaves@.len(),
            out@ == leaves@.subrange(0, i as int),
        decreases leaves@.len() - i,
    {
        out.push(leaves[i]);
        i = i + 1;
        assert(out@ =~= leaves@.subrange(0, i as int));
    }
    assert(leaves@.subrange(0, i as int) =~= leaves@);
    out
}

/// The root of the tree over the given leaves, or `None` when there are
/// none.
pub fn merkle_tree_root(leaves: &[[u8; 32]]) -> (r: Option<[u8; 32]>)
    ensures
        r is None <==> leaves@.len() == 0,
        r matches Some(root) ==> root@ == tree_root(digests(leaves@)),
{
    if leaves.len() == 0 {
        return None;
    }
    let mut level = copy_leaves(leaves);
    while level.len() > 1
        invariant
            level@.len() >= 1,
            tree_root(digests(level@)) == tree_root(digests(leaves@)),
        decreases level@.len(),
    {
        level = build_next_level(&level);
    }
    Some(level[0])
}

/// The proof for the leaf at `leaf_index`: the sibling at each level,
/// bottom up. An index outside the tree has an empty proof.
pub fn create_merkle_proof(tree_data: &[[u8; 32]], leaf_index: usize) -> (r: Vec<[u8; 32]>)
    ensures
        leaf_index < tree_data@.len() ==> digests(r@) == tree_proof(
            digests(tree_data@),
            leaf_index as nat,
        ),
        leaf_index >= tree_data@.len() ==> r@.len() == 0,
{
    let mut proof: Vec<[u8; 32]> = Vec::new();
    if leaf_index >= tree_data.len() {
        return proof;
    }
    let mut level = copy_leaves(tree_data);
    let mut index = leaf_index;
    while level.len() > 1
        invariant
            index < level@.len(),
            digests(proof@) + tree_proof(digests(level@), index as nat) == tree_proof(
                digests(tree_data@),
                leaf_index as nat,
            ),
        decreases level@.len(),
    {
        let len = level.len();
        let sibling = if index % 2 == 1 {
            index - 1
        } else if index + 1 < len {
            index + 1
        } else {
            index
        };
        proof.push(level[sibling]);
        let ghost before = digests(level@);
        level = build_next_level(&level);
        assert(digests(proof@) + tree_proof(digests(level@), (index / 2) as nat) =~= digests(
            proof@.drop_last(),
        ) + tree_proof(before, index as nat));
        index = index / 2;
    }
    assert(digests(proof@) =~= digests(proof@) + tree_proof(digests(level@), index as nat));
    proof
}

/// The root reached from a leaf digest at `index` through `proof`.
pub fn compute_merkle_root(leaf: &[u8; 32], proof: &[[u8; 32]], index: usize) -> (r: [u8; 32])
    ensures
        r@ == fold_proof(leaf@, digests(proof@), index as nat),
{
    let mut current = *leaf;
    let mut current_index = index;
    let mut i: usize = 0;
    assert(digests(proof@).subrange(0, proof@.len() as int) =~= digests(proof@));
    while i < proof.len()
        invariant
            i <= proof@.len(),
            fold_proof(current@, digests(proof@).subrange(i as int, proof@.len() as int), current_index as nat)
                == fold_proof(leaf@, digests(proof@), index as nat),
        decreases proof@.len() - i,
    {
        let ghost rest = digests(proof@).subrange(i as int, proof@.len() as int);
        assert(rest.drop_first() =~= digests(proof@).subrange(i + 1, proof@.len() as int));
        if current_index % 2 == 0 {
            current = hash_pair_of(&current, &proof[i]);
        } else {
            current = hash_pair_of(&proof[i], &current);
        }
        current_index = current_index / 2;
        i = i + 1;
    }
    assert(digests(proof@).subrange(i as int, proof@.len() as int) =~= Seq::<Seq<u8>>::empty());
    current
}

/// Whether `proof` leads from the leaf's data at `index` to `root`.
pub fn verify_merkle_proof(leaf: &[u8], proof: &[[u8; 32]], root: &[u8; 32], index: usize) -> (r:
    bool)
    ensures
        r == (fold_proof(sha256_of(leaf@), digests(proof@), index as nat) == root@),
{
    let leaf_hash = sha256(leaf);
    let computed = compute_merkle_root(&leaf_hash, proof, index);
    digests_equal(&computed, root)
}

/// The proof of every leaf leads from that leaf to the root of its tree.
pub proof fn lemma_merkle_round_trip(level: Seq<Seq<u8>>, index: nat)
    requires
        index < level.len(),
    ensures
        fold_proof(level[index as int], tree_proof(level, index), index) == tree_root(level),
    decreases level.len(),
{
    if level.len() > 1 {
        let next = next_level(level);
        let sib = sibling_index(index, level.len());
        assert(combine(level[index as int], level[sib as int], index) == next[(index / 2) as int]);
        lemma_merkle_round_trip(next, index / 2);
        let p = tree_proof(level, index);
        assert(p.drop_first() =~= tree_proof(next, index / 2));
    }
}

proof fn lemma_prefix_cancels(x: Seq<u8>, y: Seq<u8>, s: Seq<u8>)
    requires
        x != y,
    ensures
        x + s != y + s,
        s + x != s + y,
{
    if x + s == y + s {
        assert((x + s).len() == (y + s).len());
        assert(x.len() == y.len());
        assert(x =~= (x + s).subrange(0, x.len() as int));
        assert(y =~= (y + s).subrange(0, y.len() as int));
    }
    if s + x == s + y {
        assert(x =~= (s + x).subrange(s.len() as int, (s + x).len() as int));
        assert(y =~= (s + y).subrange(s.len() as int, (s + y).len() as int));
    }
}

/// Two different nodes that a proof leads to the same root give two
/// different inputs with the same digest.
pub proof fn lemma_distinct_nodes_need_collision(x: Seq<u8>, y: Seq<u8>, proof: Seq<Seq<u8>>, index: nat)
    requires
        x != y,
        fold_proof(x, proof, index) == fold_proof(y, proof, index),
    ensures
        exists|a: Seq<u8>, b: Seq<u8>| a != b && sha256_of(a) == sha256_of(b),
    decreases proof.len(),
{
    if proof.len() > 0 {
        let s = proof[0];
        lemma_prefix_cancels(x, y, s);
        let (a, b) = if index % 2 == 0 {
            (x + s, y + s)
        } else {
            (s + x, s + y)
        };
        if sha256_of(a) == sha256_of(b) {
            assert(a != b && sha256_of(a) == sha256_of(b));
        } else {
            lemma_distinct_nodes_need_collision(sha256_of(a), sha256_of(b), proof.drop_first(), index / 2);
        }
    }
}

/// A proof with one sibling changed that still leads from the same node to
/// the same root gives two different inputs with the same SHA-256 digest:
/// forging a proof is as hard as finding a collision.
pub proof fn lemma_altered_sibling_needs_collision(
    node: Seq<u8>,
    proof: Seq<Seq<u8>>,
    k: int,
    forged: Seq<u8>,
    index: nat,
)
    requires
        0 <= k < proof.len(),
        forged != proof[k],
        fold_proof(node, proof.update(k, forged), index) == fold_proof(node, proof, index),
    ensures
        exists|a: Seq<u8>, b: Seq<u8>| a != b && sha256_of(a) == sha256_of(b),
    decreases proof.len(),
{
    let altered = proof.update(k, forged);
    if k == 0 {
        assert(altered.drop_first() =~= proof.drop_first());
        let s = proof[0];
        lemma_prefix_cancels(forged, s, node);
        let (a, b) = if index % 2 == 0 {
            (node + forged, node + s)
        } else {
            (forged + node, s + node)
        };
        if sha256_of(a) == sha256_of(b) {
            assert(a != b && sha256_of(a) == sha256_of(b));
        } else {
            lemma_distinct_nodes_need_collision(sha256_of(a), sha256_of(b), proof.drop_first(), index / 2);
        }
    } else {
        assert(altered.drop_first() =~= proof.drop_first().update(k - 1, forged));
        assert(altered[0] == proof[0]);
        lemma_altered_sibling_needs_collision(
            combine(node, proof[0], index),
            proof.drop_first(),
            k - 1,
            forged,
            index / 2,
        );
    }
}

} // verus!
