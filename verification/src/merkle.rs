//! Merkle aggregation over Poseidon digests.
//!
//! A batch of leaf digests is padded with the canonical zero digest to a
//! power of two, then adjacent pairs are compressed repeatedly until one
//! root remains.  An inclusion proof for a leaf is the list of siblings
//! met on the way up together with direction bits (`true` when the
//! running node is the right child); folding the compression function
//! along that path must reproduce the root.

use vstd::prelude::*;

use crate::field::{compress_of, fe_zero, lemma_as_int_injective, poseidon_hash, Fe};

verus! {

/// The integer values of a sequence of field elements.
pub open spec fn ints_of(s: Seq<Fe>) -> Seq<int> {
    s.map_values(|f: Fe| f.as_int())
}

/// Every element of the sequence is canonical.
pub open spec fn all_valid(s: Seq<Fe>) -> bool {
    forall|i: int| 0 <= i < s.len() ==> (#[trigger] s[i]).valid()
}

/// Whether `n` is a power of two.
pub open spec fn is_pow2(n: nat) -> bool
    decreases n,
{
    if n == 0 {
        false
    } else if n == 1 {
        true
    } else {
        n % 2 == 0 && is_pow2(n / 2)
    }
}

/// One tree layer compressed pairwise; a lone trailing node (which the
/// power-of-two shape rules out) would be carried up unchanged.
pub open spec fn hash_layer(s: Seq<int>) -> Seq<int>
    decreases s.len(),
{
    if s.len() < 2 {
        s
    } else {
        seq![compress_of(s[0], s[1])] + hash_layer(s.skip(2))
    }
}

/// Compressing a layer halves its length (rounding up).
pub proof fn lemma_hash_layer_len(s: Seq<int>)
    ensures
        s.len() < 2 ==> hash_layer(s).len() == s.len(),
        s.len() >= 2 ==> hash_layer(s).len() == (s.len() + 1) / 2,
    decreases s.len(),
{
    if s.len() >= 2 {
        lemma_hash_layer_len(s.skip(2));
    }
}

/// Each node of the compressed layer is the digest of its two children.
pub proof fn lemma_hash_layer_index(s: Seq<int>, i: int)
    requires
        0 <= i,
        2 * i + 1 < s.len(),
    ensures
        hash_layer(s).len() > i,
        hash_layer(s)[i] == compress_of(s[2 * i], s[2 * i + 1]),
    decreases i,
{
    lemma_hash_layer_len(s);
    if i > 0 {
        lemma_hash_layer_index(s.skip(2), i - 1);
        assert(s.skip(2)[2 * (i - 1)] == s[2 * i]);
        assert(s.skip(2)[2 * (i - 1) + 1] == s[2 * i + 1]);
    }
}

/// The root of a layer of digests: compress layers until one remains.
/// An empty layer, which never arises, is given root zero.
pub open spec fn merkle_root(s: Seq<int>) -> int
    decreases s.len(),
    via merkle_root_decreases
{
    if s.len() == 0 {
        0
    } else if s.len() == 1 {
        s[0]
    } else {
        merkle_root(hash_layer(s))
    }
}

#[via_fn]
proof fn merkle_root_decreases(s: Seq<int>) {
    lemma_hash_layer_len(s);
}

/// Folding an inclusion path: at each step the running digest is
/// combined with the next sibling, on the side the direction bit names
/// (`true` means the running digest is the right child).
pub open spec fn merkle_fold(leaf: int, siblings: Seq<int>, bits: Seq<bool>) -> int
    decreases siblings.len(),
{
    if siblings.len() == 0 || bits.len() == 0 {
        leaf
    } else {
        merkle_fold(
            if bits[0] {
                compress_of(siblings[0], leaf)
            } else {
                compress_of(leaf, siblings[0])
            },
            siblings.skip(1),
            bits.skip(1),
        )
    }
}

/// Extending a path by one level compresses the folded digest with the
/// new sibling.
pub proof fn lemma_merkle_fold_push(leaf: int, siblings: Seq<int>, bits: Seq<bool>, s: int, b: bool)
    requires
        siblings.len() == bits.len(),
    ensures
        merkle_fold(leaf, siblings.push(s), bits.push(b)) == if b {
            compress_of(s, merkle_fold(leaf, siblings, bits))
        } else {
            compress_of(merkle_fold(leaf, siblings, bits), s)
        },
    decreases siblings.len(),
{
    if siblings.len() == 0 {
        let inner = if b {
            compress_of(s, leaf)
        } else {
            compress_of(leaf, s)
        };
        assert(siblings.push(s).len() == 1);
        assert(siblings.push(s)[0] == s);
        assert(bits.push(b)[0] == b);
        assert(siblings.push(s).skip(1) =~= Seq::<int>::empty());
        assert(bits.push(b).skip(1) =~= Seq::<bool>::empty());
        assert(merkle_fold(inner, siblings.push(s).skip(1), bits.push(b).skip(1)) == inner);
    } else {
        let first = if bits[0] {
            compress_of(siblings[0], leaf)
        } else {
            compress_of(leaf, siblings[0])
        };
        assert(siblings.push(s)[0] == siblings[0]);
        assert(bits.push(b)[0] == bits[0]);
        assert(siblings.push(s).skip(1) =~= siblings.skip(1).push(s));
        assert(bits.push(b).skip(1) =~= bits.skip(1).push(b));
        lemma_merkle_fold_push(first, siblings.skip(1), bits.skip(1), s, b);
    }
}

/// The views of the layers of a tree held as vectors.
pub open spec fn layer_views(t: Seq<Vec<Fe>>) -> Seq<Seq<Fe>> {
    t.map_values(|v: Vec<Fe>| v@)
}

/// A well-formed Merkle tree, leaf layer first: every layer is twice as
/// long as the next, each node is the digest of its two children, all
/// digests are canonical, and a single root remains on top.
pub open spec fn merkle_tree_shaped(tree: Seq<Seq<Fe>>) -> bool {
    &&& tree.len() >= 1
    &&& tree[tree.len() - 1].len() == 1
    &&& (forall|k: int| 0 <= k < tree.len() ==> (#[trigger] tree[k]).len() >= 1)
    &&& (forall|k: int, k2: int| #![trigger tree[k], tree[k2]]
        0 <= k < tree.len() - 1 && k2 == k + 1 ==> tree[k].len() == 2 * tree[k2].len())
    &&& (forall|k: int, k2: int| #![trigger tree[k], tree[k2]]
        0 <= k < tree.len() - 1 && k2 == k + 1 ==> ints_of(tree[k2]) == hash_layer(ints_of(tree[k])))
    &&& (forall|k: int| 0 <= k < tree.len() ==> all_valid(#[trigger] tree[k]))
}

/// In a well-formed tree the root node carries the Merkle root of the
/// leaf layer.
pub proof fn lemma_shaped_tree_root(tree: Seq<Seq<Fe>>)
    requires
        merkle_tree_shaped(tree),
    ensures
        tree[tree.len() - 1][0].as_int() == merkle_root(ints_of(tree[0])),
    decreases tree.len(),
{
    if tree.len() == 1 {
        assert(ints_of(tree[0]).len() == 1);
        assert(ints_of(tree[0])[0] == tree[0][0].as_int());
    } else {
        let rest = tree.skip(1);
        assert(forall|k: int| 0 <= k < rest.len() ==> (#[trigger] rest[k]) == tree[k + 1]);
        assert(rest[rest.len() - 1] == tree[tree.len() - 1]);
        assert(merkle_tree_shaped(rest));
        lemma_shaped_tree_root(rest);
        assert(rest[0] == tree[1]);
        assert(ints_of(tree[1]) == hash_layer(ints_of(tree[0])));
        assert(tree[0].len() == 2 * tree[1].len());
        assert(tree[1].len() >= 1);
        assert(ints_of(tree[0]).len() >= 2);
    }
}

/// The next power of two at or above `n` (and 1 for `n == 0`).
fn next_pow2(n: usize) -> (p: usize)
    requires
        n <= 0x1000_0000,
    ensures
        is_pow2(p as nat),
        p >= n,
        p >= 1,
        n >= 1 ==> p < 2 * n,
        n == 0 ==> p == 1,
{
    let mut p: usize = 1;
    while p < n
        invariant
            n <= 0x1000_0000,
            1 <= p,
            is_pow2(p as nat),
            p < 2 * n || p == 1,
        decreases 2 * n - p,
    {
        p = p * 2;
    }
    p
}

/// Build the full Merkle tree over a batch of leaf digests, leaf layer
/// first: the leaves are padded with the zero digest to a power of two,
/// then each layer is the pairwise Poseidon compression of the one
/// below, down to a single root whose value is the Merkle root of the
/// padded leaf layer.
#[verifier::loop_isolation(false)]
pub fn build_merkle_tree(hashes: &Vec<Fe>) -> (tree: Vec<Vec<Fe>>)
    requires
        all_valid(hashes@),
        hashes@.len() <= 0x1000_0000,
    ensures
        merkle_tree_shaped(layer_views(tree@)),
        tree@.len() >= 1,
        tree@[0]@.len() >= hashes@.len(),
        is_pow2(tree@[0]@.len() as nat),
        hashes@.len() >= 1 ==> tree@[0]@.len() < 2 * hashes@.len(),
        hashes@.len() == 0 ==> tree@[0]@.len() == 1,
        tree@[0]@.subrange(0, hashes@.len() as int) == hashes@,
        forall|j: int|
            hashes@.len() <= j < tree@[0]@.len() ==> (#[trigger] tree@[0]@[j]) == fe_zero(),
        tree@[tree@.len() - 1]@.len() == 1,
        tree@[tree@.len() - 1]@[0].as_int() == merkle_root(ints_of(tree@[0]@)),
{
    let mut padded: Vec<Fe> = Vec::new();
    let n = hashes.len();
    for i in 0..n
        invariant
            n == hashes@.len(),
            padded@ == hashes@.subrange(0, i as int),
    {
        padded.push(hashes[i]);
        assert(padded@ =~= hashes@.subrange(0, i + 1));
    }
    assert(padded@ =~= hashes@);
    let target = next_pow2(n);
    while padded.len() < target
        invariant
            is_pow2(target as nat),
            padded@.len() <= target,
            padded@.subrange(0, hashes@.len() as int) =~= hashes@,
            padded@.len() >= hashes@.len(),
            forall|j: int|
                hashes@.len() <= j < padded@.len() ==> (#[trigger] padded@[j]) == fe_zero(),
        decreases target - padded.len(),
    {
        padded.push(Fe::zero());
    }
    assert forall|j: int| 0 <= j < padded@.len() implies (#[trigger] padded@[j]).valid() by {
        if j < hashes@.len() {
            assert(padded@[j] == padded@.subrange(0, hashes@.len() as int)[j]);
            assert(padded@[j] == hashes@[j]);
            assert(hashes@[j].valid());
        } else {
            assert(padded@[j] == fe_zero());
            crate::field::lemma_fe_zero_valid();
        }
    }
    assert(all_valid(padded@));

    let ghost padded0 = padded@;
    let mut tree: Vec<Vec<Fe>> = Vec::new();
    tree.push(padded);
    while tree[tree.len() - 1].len() > 1
        invariant
            tree@.len() >= 1,
            tree@[0]@ == padded0,
            is_pow2(tree@[tree@.len() - 1]@.len() as nat),
            forall|k: int| 0 <= k < tree@.len() ==> (#[trigger] tree@[k])@.len() >= 1,
            forall|k: int| 0 <= k < tree@.len() ==> all_valid((#[trigger] tree@[k])@),
            forall|k: int, k2: int| #![trigger tree@[k], tree@[k2]]
                0 <= k < tree@.len() - 1 && k2 == k + 1 ==> tree@[k]@.len() == 2 * tree@[k2]@.len(),
            forall|k: int, k2: int| #![trigger tree@[k], tree@[k2]]
                0 <= k < tree@.len() - 1 && k2 == k + 1 ==> ints_of(tree@[k2]@) == hash_layer(
                    ints_of(tree@[k]@),
                ),
        decreases tree@[tree@.len() - 1]@.len(),
    {
        let last = tree.len() - 1;
        let m = tree[last].len();
        assert(m % 2 == 0 && m / 2 >= 1);
        let mut next: Vec<Fe> = Vec::new();
        let half = m / 2;
        for idx in 0..half
            invariant
                half == m / 2,
                m % 2 == 0,
                last == tree@.len() - 1,
                m == tree@[last as int]@.len(),
                all_valid(tree@[last as int]@),
                next@.len() == idx,
                all_valid(next@),
                forall|j: int|
                    0 <= j < idx ==> (#[trigger] next@[j]).as_int() == compress_of(
                        tree@[last as int]@[2 * j].as_int(),
                        tree@[last as int]@[2 * j + 1].as_int(),
                    ),
        {
            let a = tree[last][2 * idx];
            let b = tree[last][2 * idx + 1];
            next.push(poseidon_hash(&a, &b));
        }
        proof {
            lemma_hash_layer_len(ints_of(tree@[last as int]@));
            assert forall|j: int| 0 <= j < half implies hash_layer(ints_of(tree@[last as int]@))[j]
                == ints_of(next@)[j] by {
                lemma_hash_layer_index(ints_of(tree@[last as int]@), j);
            }
            assert(ints_of(next@) =~= hash_layer(ints_of(tree@[last as int]@)));
            assert(is_pow2(next@.len() as nat));
        }
        tree.push(next);
    }
    proof {
        let t = layer_views(tree@);
        assert(t.len() == tree@.len());
        assert(forall|k: int| 0 <= k < t.len() ==> (#[trigger] t[k]) == tree@[k]@);
        assert(merkle_tree_shaped(t));
        lemma_shaped_tree_root(t);
        assert(t[0] == tree@[0]@);
        assert(t[t.len() - 1] == tree@[tree@.len() - 1]@);
        assert(tree@[0]@ == padded0);
        assert(tree@[0]@.subrange(0, hashes@.len() as int) =~= hashes@);
    }
    tree
}

/// One step up a well-formed tree: pushing the sibling of the current
/// node onto a path that folds to the current node gives a path that
/// folds to the parent node.
proof fn lemma_inclusion_step(
    t: Seq<Seq<Fe>>,
    k: int,
    index: int,
    leaf: int,
    sibs: Seq<int>,
    bits: Seq<bool>,
)
    requires
        merkle_tree_shaped(t),
        0 <= k < t.len() - 1,
        0 <= index < t[k].len(),
        sibs.len() == bits.len(),
        merkle_fold(leaf, sibs, bits) == t[k][index].as_int(),
    ensures
        0 <= index / 2 < t[k + 1].len(),
        merkle_fold(
            leaf,
            sibs.push(
                t[k][if index % 2 == 1 {
                    index - 1
                } else {
                    index + 1
                }].as_int(),
            ),
            bits.push(index % 2 == 1),
        ) == t[k + 1][index / 2].as_int(),
{
    let right = index % 2 == 1;
    let sib_i = if right {
        index - 1
    } else {
        index + 1
    };
    assert(t[k].len() == 2 * t[k + 1].len());
    lemma_merkle_fold_push(leaf, sibs, bits, t[k][sib_i].as_int(), right);
    lemma_hash_layer_index(ints_of(t[k]), index / 2);
    assert(ints_of(t[k + 1]) == hash_layer(ints_of(t[k])));
    assert(ints_of(t[k])[2 * (index / 2)] == t[k][2 * (index / 2)].as_int());
    assert(ints_of(t[k])[2 * (index / 2) + 1] == t[k][2 * (index / 2) + 1].as_int());
    if right {
        assert(2 * (index / 2) == index - 1);
    } else {
        assert(2 * (index / 2) == index);
    }
    assert(t[k + 1][index / 2].as_int() == ints_of(t[k + 1])[index / 2]);
}

/// The sibling values of the inclusion path for leaf `i` of a tree,
/// leaf level first.
pub open spec fn proof_siblings(tree: Seq<Seq<Fe>>, i: int) -> Seq<int>
    decreases tree.len(),
{
    if tree.len() <= 1 {
        Seq::empty()
    } else {
        let sib = if i % 2 == 1 {
            i - 1
        } else {
            i + 1
        };
        seq![tree[0][sib].as_int()] + proof_siblings(tree.skip(1), i / 2)
    }
}

/// The direction bits of the inclusion path for leaf `i` of a tree:
/// true where the running node is a right child.
pub open spec fn proof_bits(tree: Seq<Seq<Fe>>, i: int) -> Seq<bool>
    decreases tree.len(),
{
    if tree.len() <= 1 {
        Seq::empty()
    } else {
        seq![i % 2 == 1] + proof_bits(tree.skip(1), i / 2)
    }
}

/// In a well-formed tree, folding the compression function along the
/// inclusion path of any leaf reproduces the root: an inclusion check
/// against the tree's own root succeeds for every leaf.
pub proof fn lemma_inclusion_path_reaches_root(tree: Seq<Seq<Fe>>, i: int)
    requires
        merkle_tree_shaped(tree),
        0 <= i < tree[0].len(),
    ensures
        merkle_fold(tree[0][i].as_int(), proof_siblings(tree, i), proof_bits(tree, i)) == tree[tree.len() - 1][0].as_int(),
    decreases tree.len(),
{
    if tree.len() == 1 {
        assert(i == 0);
    } else {
        let rest = tree.skip(1);
        assert(forall|k: int| 0 <= k < rest.len() ==> (#[trigger] rest[k]) == tree[k + 1]);
        assert(rest[rest.len() - 1] == tree[tree.len() - 1]);
        assert(merkle_tree_shaped(rest));
        let right = i % 2 == 1;
        let sib = if right {
            i - 1
        } else {
            i + 1
        };
        assert(tree[0].len() == 2 * tree[1].len());
        let inner = if right {
            compress_of(tree[0][sib].as_int(), tree[0][i].as_int())
        } else {
            compress_of(tree[0][i].as_int(), tree[0][sib].as_int())
        };
        assert(inner == tree[1][i / 2].as_int()) by {
            lemma_hash_layer_index(ints_of(tree[0]), i / 2);
            assert(ints_of(tree[1]) == hash_layer(ints_of(tree[0])));
            assert(ints_of(tree[0])[2 * (i / 2)] == tree[0][2 * (i / 2)].as_int());
            assert(ints_of(tree[0])[2 * (i / 2) + 1] == tree[0][2 * (i / 2) + 1].as_int());
            if right {
                assert(2 * (i / 2) == i - 1);
            } else {
                assert(2 * (i / 2) == i);
            }
            assert(tree[1][i / 2].as_int() == ints_of(tree[1])[i / 2]);
        }
        lemma_inclusion_path_reaches_root(rest, i / 2);
        assert(rest[0] == tree[1]);
        let sibs = proof_siblings(tree, i);
        let bits = proof_bits(tree, i);
        assert(sibs[0] == tree[0][sib].as_int());
        assert(bits[0] == right);
        assert(sibs.skip(1) =~= proof_siblings(rest, i / 2));
        assert(bits.skip(1) =~= proof_bits(rest, i / 2));
        assert(merkle_fold(tree[0][i].as_int(), sibs, bits) == merkle_fold(
            inner,
            proof_siblings(rest, i / 2),
            proof_bits(rest, i / 2),
        ));
    }
}

/// Extract the inclusion proof for one leaf of a well-formed tree: the
/// sibling met at each level, and a direction bit that is true when the
/// running node is a right child.  Folding the compression function
/// along the returned path reproduces the root — so an inclusion check
/// against the tree's own root succeeds for every leaf.
#[verifier::loop_isolation(false)]
pub fn get_merkle_proof(tree: &Vec<Vec<Fe>>, leaf_index: usize) -> (r: (Vec<Fe>, Vec<bool>))
    requires
        merkle_tree_shaped(layer_views(tree@)),
        leaf_index < tree@[0]@.len(),
    ensures
        r.0@.len() == tree@.len() - 1,
        r.1@.len() == tree@.len() - 1,
        all_valid(r.0@),
        ints_of(r.0@) == proof_siblings(layer_views(tree@), leaf_index as int),
        r.1@ == proof_bits(layer_views(tree@), leaf_index as int),
        merkle_fold(tree@[0]@[leaf_index as int].as_int(), ints_of(r.0@), r.1@) == tree@[tree@.len()
            - 1]@[0].as_int(),
{
    let ghost t = layer_views(tree@);
    let ghost leaf_val = tree@[0]@[leaf_index as int].as_int();
    let mut index = leaf_index;
    let mut proof_path: Vec<Fe> = Vec::new();
    let mut bits: Vec<bool> = Vec::new();
    let levels = tree.len() - 1;
    assert(t[0] == tree@[0]@);
    assert(t.skip(0) =~= t);
    for k in 0..levels
        invariant
            t == layer_views(tree@),
            merkle_tree_shaped(t),
            levels == tree@.len() - 1,
            proof_path@.len() == k,
            bits@.len() == k,
            all_valid(proof_path@),
            index < tree@[k as int]@.len(),
            leaf_val == tree@[0]@[leaf_index as int].as_int(),
            merkle_fold(leaf_val, ints_of(proof_path@), bits@) == tree@[k as int]@[index as int].as_int(),
            proof_siblings(t, leaf_index as int) == ints_of(proof_path@) + proof_siblings(
                t.skip(k as int),
                index as int,
            ),
            proof_bits(t, leaf_index as int) == bits@ + proof_bits(t.skip(k as int), index as int),
    {
        proof {
            assert(t[k as int] == tree@[k as int]@);
            assert(t[k as int + 1] == tree@[k as int + 1]@);
            assert(t[k as int].len() == 2 * t[k as int + 1].len());
        }
        let right = index % 2 == 1;
        let sibling_index = if right {
            index - 1
        } else {
            index + 1
        };
        let sibling = tree[k][sibling_index];
        proof {
            lemma_inclusion_step(
                t,
                k as int,
                index as int,
                leaf_val,
                ints_of(proof_path@),
                bits@,
            );
            assert(all_valid(t[k as int]));
            assert(sibling == t[k as int][sibling_index as int]);
            assert(ints_of(proof_path@.push(sibling)) =~= ints_of(proof_path@).push(
                sibling.as_int(),
            ));
            let suffix = t.skip(k as int);
            assert(suffix.len() == t.len() - k >= 2);
            assert(suffix[0] == t[k as int]);
            assert(suffix.skip(1) =~= t.skip(k as int + 1));
            assert(proof_siblings(suffix, index as int) == seq![
                suffix[0][sibling_index as int].as_int(),
            ] + proof_siblings(suffix.skip(1), index as int / 2));
            assert(proof_bits(suffix, index as int) == seq![right] + proof_bits(
                suffix.skip(1),
                index as int / 2,
            ));
            assert(ints_of(proof_path@).push(sibling.as_int()) + proof_siblings(
                t.skip(k as int + 1),
                index as int / 2,
            ) =~= ints_of(proof_path@) + proof_siblings(suffix, index as int));
            assert(bits@.push(right) + proof_bits(t.skip(k as int + 1), index as int / 2)
                =~= bits@ + proof_bits(suffix, index as int));
        }
        proof_path.push(sibling);
        bits.push(right);
        index = index / 2;
    }
    assert(tree@[levels as int]@.len() == 1 && index == 0);
    proof {
        assert(t.skip(levels as int).len() == 1);
        assert(proof_siblings(t.skip(levels as int), index as int) =~= Seq::<int>::empty());
        assert(proof_bits(t.skip(levels as int), index as int) =~= Seq::<bool>::empty());
        assert(ints_of(proof_path@) + Seq::<int>::empty() =~= ints_of(proof_path@));
        assert(bits@ + Seq::<bool>::empty() =~= bits@);
    }
    (proof_path, bits)
}

/// Decide an inclusion proof: fold the compression function along the
/// sibling path and compare the outcome with the expected root.  The
/// check accepts exactly when the folded digest equals the root — the
/// equality an in-circuit verifier would enforce as a constraint.
#[verifier::loop_isolation(false)]
pub fn verify_inclusion_proof(
    leaf: &Fe,
    proof_path: &Vec<Fe>,
    path_bits: &Vec<bool>,
    expected_root: &Fe,
) -> (ok: bool)
    requires
        leaf.valid(),
        all_valid(proof_path@),
        proof_path@.len() == path_bits@.len(),
    ensures
        ok == (merkle_fold(leaf.as_int(), ints_of(proof_path@), path_bits@) == expected_root.as_int()),
{
    let mut current = *leaf;
    let n = proof_path.len();
    for i in 0..n
        invariant
            n == proof_path@.len() == path_bits@.len(),
            leaf.valid(),
            all_valid(proof_path@),
            current.valid(),
            current.as_int() == merkle_fold(
                leaf.as_int(),
                ints_of(proof_path@.subrange(0, i as int)),
                path_bits@.subrange(0, i as int),
            ),
    {
        let sibling = proof_path[i];
        let next = if path_bits[i] {
            poseidon_hash(&sibling, &current)
        } else {
            poseidon_hash(&current, &sibling)
        };
        proof {
            lemma_merkle_fold_push(
                leaf.as_int(),
                ints_of(proof_path@.subrange(0, i as int)),
                path_bits@.subrange(0, i as int),
                sibling.as_int(),
                path_bits@[i as int],
            );
            assert(ints_of(proof_path@.subrange(0, i + 1)) =~= ints_of(
                proof_path@.subrange(0, i as int),
            ).push(sibling.as_int()));
            assert(path_bits@.subrange(0, i + 1) =~= path_bits@.subrange(0, i as int).push(
                path_bits@[i as int],
            ));
        }
        current = next;
    }
    assert(proof_path@.subrange(0, n as int) =~= proof_path@);
    assert(path_bits@.subrange(0, n as int) =~= path_bits@);
    proof {
        lemma_as_int_injective(current, *expected_root);
    }
    current == *expected_root
}

/// Compress a power-of-two batch of leaf digests down to its Merkle
/// root.
pub fn compute_merkle_root(leaves: &Vec<Fe>) -> (root: Fe)
    requires
        all_valid(leaves@),
        is_pow2(leaves@.len() as nat),
        leaves@.len() <= 0x1000_0000,
    ensures
        root.valid(),
        root.as_int() == merkle_root(ints_of(leaves@)),
{
    let tree = build_merkle_tree(leaves);
    proof {
        assert(leaves@.len() >= 1);
        assert(tree@[0]@.len() == leaves@.len()) by {
            let padded_len = tree@[0]@.len() as nat;
            let n = leaves@.len() as nat;
            if padded_len > n {
                lemma_pow2_no_strict_between(n, padded_len);
            }
        }
        assert(tree@[0]@ =~= leaves@);
    }
    let last = tree.len() - 1;
    let root = tree[last][0];
    proof {
        let t = layer_views(tree@);
        assert(t[t.len() - 1] == tree@[tree@.len() - 1]@);
        assert(all_valid(tree@[tree@.len() - 1]@));
    }
    root
}

/// Between a power of two `n` and `2 * n` (exclusive) there is no other
/// power of two.
proof fn lemma_pow2_no_strict_between(n: nat, m: nat)
    requires
        is_pow2(n),
        is_pow2(m),
        n < m,
    ensures
        m >= 2 * n,
    decreases n,
{
    if n > 1 {
        lemma_pow2_no_strict_between(n / 2, m / 2);
    }
}

} // verus!
