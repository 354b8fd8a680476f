//! Merkle roots and inclusion proofs over SHA-256 leaf digests, through `rs_merkle`.
use crate::error::CoreError;
use rs_merkle::algorithms::Sha256;
use rs_merkle::{Hasher, MerkleProof, MerkleTree};
use vstd::prelude::*;

verus! {

/// A SHA-256 digest.
pub type Digest = [u8; 32];

/// The SHA-256 digest of `data`.
pub uninterp spec fn sha256_of(data: Seq<u8>) -> Seq<u8>;

/// The root that `rs_merkle` builds over the leaves, in order.
pub uninterp spec fn merkle_root_of(leaves: Seq<Seq<u8>>) -> Seq<u8>;

/// The audit path that `rs_merkle` gives for the leaf at `index`.
pub uninterp spec fn merkle_path_of(leaves: Seq<Seq<u8>>, index: int) -> Seq<Seq<u8>>;

/// Whether `rs_merkle` accepts `path` as showing `leaf` at `index` of a tree of
/// `total` leaves with the given root.
pub uninterp spec fn path_verifies(
    root: Seq<u8>,
    index: int,
    leaf: Seq<u8>,
    path: Seq<Seq<u8>>,
    total: int,
) -> bool;

/// The bytes of each digest.
pub open spec fn digests_view(d: Seq<Digest>) -> Seq<Seq<u8>> {
    d.map_values(|x: Digest| x@)
}

/// The serialized form of an audit path: its digests one after another.
pub open spec fn path_bytes(path: Seq<Seq<u8>>) -> Seq<u8> {
    path.flatten()
}

/// Bytes cut into consecutive 32-byte digests.
pub open spec fn split_digests(b: Seq<u8>) -> Seq<Seq<u8>> {
    Seq::new(b.len() / 32, |i: int| b.subrange(32 * i, 32 * i + 32))
}

/// What appending a leaf yields: the new root, the serialized audit path of the
/// new leaf, and the leaf's index.
pub struct AppendProof {
    pub root: Digest,
    pub proof_bytes: Vec<u8>,
    pub index: usize,
}

/// Relies on `rs_merkle::algorithms::Sha256::hash`: the SHA-256 digest of the bytes.
#[verifier::external_body]
pub(crate) fn sha256(data: &[u8]) -> (r: Digest)
    ensures
        r@ == sha256_of(data@),
{
    Sha256::hash(data)
}

/// Relies on `MerkleTree::from_leaves` and `MerkleTree::root`: a tree of at
/// least one leaf has a root.
#[verifier::external_body]
fn tree_root(leaves: &Vec<Digest>) -> (r: Option<Digest>)
    requires
        leaves@.len() > 0,
    ensures
        r is Some,
        r->0@ == merkle_root_of(digests_view(leaves@)),
{
    MerkleTree::<Sha256>::from_leaves(leaves.as_slice()).root()
}

/// Relies on `MerkleTree::from_leaves` and `MerkleTree::proof`: the audit path
/// of one leaf, which `MerkleProof::verify` accepts for that leaf and index
/// against the root of the same tree and its leaf count.
#[verifier::external_body]
fn tree_path(leaves: &Vec<Digest>, index: usize) -> (r: Vec<Digest>)
    requires
        index < leaves@.len(),
    ensures
        digests_view(r@) == merkle_path_of(digests_view(leaves@), index as int),
        path_verifies(
            merkle_root_of(digests_view(leaves@)),
            index as int,
            leaves@[index as int]@,
            digests_view(r@),
            leaves@.len() as int,
        ),
{
    MerkleTree::<Sha256>::from_leaves(leaves.as_slice()).proof(&[index]).proof_hashes().to_vec()
}

/// Relies on `MerkleProof::to_bytes`: the path's digests one after another.
#[verifier::external_body]
fn path_to_bytes(path: Vec<Digest>) -> (r: Vec<u8>)
    ensures
        r@ == path_bytes(digests_view(path@)),
{
    MerkleProof::<Sha256>::new(path).to_bytes()
}

/// Relies on `MerkleProof::from_bytes`: it fails unless the length is a
/// multiple of 32, and otherwise cuts the bytes into consecutive digests.
#[verifier::external_body]
fn path_from_bytes(bytes: &[u8]) -> (r: Option<Vec<Digest>>)
    ensures
        r is Some <==> bytes@.len() % 32 == 0,
        r is Some ==> digests_view(r->0@) == split_digests(bytes@),
{
    MerkleProof::<Sha256>::from_bytes(bytes).ok().map(|p| p.proof_hashes().to_vec())
}

/// Relies on `MerkleProof::verify` for a single leaf.
#[verifier::external_body]
fn path_check(root: Digest, index: usize, leaf: Digest, path: Vec<Digest>, total: usize) -> (r:
    bool)
    requires
        index < total,
    ensures
        r == path_verifies(root@, index as int, leaf@, digests_view(path@), total as int),
{
    MerkleProof::<Sha256>::new(path).verify(root, &[index], &[leaf], total)
}

/// The root over `leaves`; an empty sequence has none.
pub fn merkle_root(leaves: &Vec<Digest>) -> (r: Result<Digest, CoreError>)
    ensures
        r is Err <==> leaves@.len() == 0,
        r is Err ==> r == Err::<Digest, CoreError>(CoreError::EmptyTree),
        r is Ok ==> r->Ok_0@ == merkle_root_of(digests_view(leaves@)),
{
    if leaves.len() == 0 {
        return Err(CoreError::EmptyTree);
    }
    match tree_root(leaves) {
        Some(root) => Ok(root),
        None => Err(CoreError::EmptyTree),
    }
}

/// The serialized audit path of the leaf at `index` in a tree over `leaves`.
/// It reads back into that path, and it verifies for that leaf against the
/// root over `leaves` with their count.
pub fn inclusion_proof(leaves: &Vec<Digest>, index: usize) -> (r: Vec<u8>)
    requires
        index < leaves@.len(),
    ensures
        r@ == path_bytes(merkle_path_of(digests_view(leaves@), index as int)),
        r@.len() % 32 == 0,
        split_digests(r@) == merkle_path_of(digests_view(leaves@), index as int),
        path_verifies(
            merkle_root_of(digests_view(leaves@)),
            index as int,
            leaves@[index as int]@,
            split_digests(r@),
            leaves@.len() as int,
        ),
{
    let path = tree_path(leaves, index);
    proof {
        lemma_proof_round_trip(path@);
    }
    path_to_bytes(path)
}

/// Reads a serialized audit path back into its digests.
pub fn decode_inclusion_proof(bytes: &[u8]) -> (r: Result<Vec<Digest>, CoreError>)
    ensures
        r is Ok <==> bytes@.len() % 32 == 0,
        r is Err ==> r == Err::<Vec<Digest>, CoreError>(CoreError::DecodeError),
        r is Ok ==> digests_view(r->Ok_0@) == split_digests(bytes@),
{
    match path_from_bytes(bytes) {
        Some(path) => Ok(path),
        None => Err(CoreError::DecodeError),
    }
}

/// Whether the serialized audit path `proof` shows `leaf` at `index` of a tree
/// of `total` leaves under `root`. Malformed proof bytes and an index out of
/// range never verify.
pub fn verify_inclusion(
    root: &Digest,
    index: usize,
    leaf: &Digest,
    proof_bytes: &[u8],
    total: usize,
) -> (r: bool)
    ensures
        r == (proof_bytes@.len() % 32 == 0 && index < total && path_verifies(
            root@,
            index as int,
            leaf@,
            split_digests(proof_bytes@),
            total as int,
        )),
{
    if index >= total {
        return false;
    }
    match path_from_bytes(proof_bytes) {
        Some(path) => path_check(*root, index, *leaf, path, total),
        None => false,
    }
}

/// Appends `new_leaf` after `existing` and proves its inclusion in the new tree.
pub fn append_and_prove(existing: &Vec<Digest>, new_leaf: Digest) -> (r: AppendProof)
    requires
        existing@.len() < usize::MAX,
    ensures
        r.index == existing@.len(),
        r.root@ == merkle_root_of(digests_view(existing@.push(new_leaf))),
        r.proof_bytes@ == path_bytes(
            merkle_path_of(digests_view(existing@.push(new_leaf)), r.index as int),
        ),
        r.proof_bytes@.len() % 32 == 0,
        split_digests(r.proof_bytes@) == merkle_path_of(
            digests_view(existing@.push(new_leaf)),
            r.index as int,
        ),
        path_verifies(
            r.root@,
            r.index as int,
            new_leaf@,
            split_digests(r.proof_bytes@),
            existing@.len() + 1 as int,
        ),
{
    let mut leaves: Vec<Digest> = Vec::new();
    let mut i: usize = 0;
    while i < existing.len()
        invariant
            i <= existing@.len(),
            leaves@ == existing@.subrange(0, i as int),
        decreases existing@.len() - i,
    {
        leaves.push(existing[i]);
        i = i + 1;
    }
    assert(leaves@ == existing@);
    leaves.push(new_leaf);
    let index = existing.len();
    let root = match tree_root(&leaves) {
        Some(root) => root,
        None => {
            proof {
                assert(false);
            }
            new_leaf
        },
    };
    let proof_bytes = inclusion_proof(&leaves, index);
    AppendProof { root, proof_bytes, index }
}

proof fn lemma_path_bytes_parts(path: Seq<Seq<u8>>)
    requires
        forall|i: int| 0 <= i < path.len() ==> (#[trigger] path[i]).len() == 32,
    ensures
        path_bytes(path).len() == 32 * path.len(),
        forall|i: int|
            0 <= i < path.len() ==> path_bytes(path).subrange(32 * i, 32 * i + 32)
                == #[trigger] path[i],
    decreases path.len(),
{
    if path.len() > 0 {
        let rest = path.drop_first();
        lemma_path_bytes_parts(rest);
        assert(path_bytes(path) == path[0] + path_bytes(rest));
        assert forall|i: int| 0 <= i < path.len() implies path_bytes(path).subrange(
            32 * i,
            32 * i + 32,
        ) == #[trigger] path[i] by {
            if i == 0 {
                assert(path_bytes(path).subrange(0, 32) =~= path[0]);
            } else {
                assert(rest[i - 1] == path[i]);
                assert(path_bytes(path).subrange(32 * i, 32 * i + 32) =~= path_bytes(rest).subrange(
                    32 * (i - 1),
                    32 * (i - 1) + 32,
                ));
            }
        }
    }
}

/// Reading back a serialized audit path gives the same digests.
pub proof fn lemma_proof_round_trip(path: Seq<Digest>)
    ensures
        path_bytes(digests_view(path)).len() % 32 == 0,
        split_digests(path_bytes(digests_view(path))) == digests_view(path),
{
    let d = digests_view(path);
    assert forall|i: int| 0 <= i < d.len() implies (#[trigger] d[i]).len() == 32 by {
        assert(d[i] == path[i]@);
    }
    lemma_path_bytes_parts(d);
    let b = path_bytes(d);
    assert(split_digests(b) =~= d);
}

} // verus!
