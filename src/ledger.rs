//! The per-account ledger of messages, and the checked path that appends to it.
//!
//! A ledger holds the committed leaf digests of one account in insertion
//! order, the stored record of each message, and the tree row whose
//! `merkle_root` is the lowercase hexadecimal root over those leaves. A ledger
//! without messages records the empty string as its root.
use crate::binder::{account_hash_of, bind, derive_account_hash};
use crate::claims::{check_relationship, parse_screen_name, screen_name_of, shows_mutual};
use crate::error::CoreError;
use crate::hexcode::{
    decode_hex_32, encode_hex, hex_decode, hex_encode, is_hex_text, lemma_hex_round_trip,
};
use crate::merkle::{
    append_and_prove, digests_view, inclusion_proof, merkle_path_of, merkle_root, merkle_root_of,
    path_bytes, path_verifies, sha256, sha256_of, Digest,
};
use crate::presentation::Transcript;
use vstd::prelude::*;

verus! {

/// The most messages one account can hold: indices are stored as `i32`.
pub const MAX_MESSAGES: usize = 2147483647;

/// A serialized presentation, as hexadecimal text.
pub struct ProofJson {
    pub data: String,
}

/// A request to reveal the messages of an account, with its ownership proof.
pub struct RevealTreeMessages {
    pub account_proof: ProofJson,
}

/// A request to append a message, with the relationship proof that authorizes it.
pub struct CreateMessage {
    pub ornament_id: i32,
    pub nickname: String,
    pub body: String,
    pub friendship_proof: ProofJson,
}

/// One message as reported to callers; `body` is present only in the answer
/// to the append that stored it.
pub struct MessageResponse {
    pub hash: String,
    pub ornament_id: i32,
    pub nickname: String,
    pub merkle_root: String,
    pub merkle_idx: i32,
    pub merkle_proof: String,
    pub body: Option<String>,
}

/// The tree row of an account.
pub struct Tree {
    pub account_hash: String,
    pub account_id: String,
    pub merkle_root: String,
    pub proof_file_id: String,
}

/// The stored record of a message: never its body.
pub struct StoredMessage {
    pub hash: String,
    pub ornament_id: i32,
    pub nickname: String,
    pub merkle_idx: i32,
    pub merkle_proof: String,
    pub proof_file_id: String,
}

/// The tree row of an account with its committed leaves and messages.
pub struct AccountLedger {
    pub tree: Tree,
    pub leaves: Vec<Digest>,
    pub messages: Vec<StoredMessage>,
}

/// The bytes of a message body.
pub open spec fn body_bytes(body: Seq<char>) -> Seq<u8> {
    vstd::utf8::encode_utf8(body)
}

/// The root recorded for a leaf sequence: empty for no leaves, otherwise the
/// hexadecimal text of the Merkle root.
pub open spec fn root_text(leaves: Seq<Seq<u8>>) -> Seq<char> {
    if leaves.len() == 0 {
        Seq::empty()
    } else {
        hex_encode(merkle_root_of(leaves))
    }
}

/// The leaves that stored message hashes stand for.
pub open spec fn stored_leaves(messages: Seq<StoredMessage>) -> Seq<Seq<u8>> {
    messages.map_values(|m: StoredMessage| hex_decode(m.hash@))
}

/// The leaves as they stood when the leaf at `i` was appended.
pub open spec fn snapshot(leaves: Seq<Seq<u8>>, i: int) -> Seq<Seq<u8>> {
    leaves.subrange(0, i + 1)
}

/// The stored proof of the leaf at `i`: the hexadecimal text of its audit
/// path in the tree of that snapshot.
pub open spec fn proof_text(leaves: Seq<Seq<u8>>, i: int) -> Seq<char> {
    hex_encode(path_bytes(merkle_path_of(snapshot(leaves, i), i)))
}

/// Whether the audit path of the leaf at `i` verifies against the root of
/// its snapshot, for the snapshot's leaf count.
pub open spec fn proof_holds(leaves: Seq<Seq<u8>>, i: int) -> bool {
    path_verifies(
        merkle_root_of(snapshot(leaves, i)),
        i,
        leaves[i],
        merkle_path_of(snapshot(leaves, i), i),
        i + 1,
    )
}

/// Whether a stored tree row and its messages form a consistent ledger:
/// indices run from zero without gaps, every hash is a digest in hexadecimal,
/// every proof is the one of its snapshot, and the recorded root is the one
/// rebuilt from those digests.
pub open spec fn loadable(tree: Tree, messages: Seq<StoredMessage>) -> bool {
    &&& messages.len() <= MAX_MESSAGES
    &&& forall|i: int|
        0 <= i < messages.len() ==> {
            &&& #[trigger] messages[i].merkle_idx as int == i
            &&& is_hex_text(messages[i].hash@)
            &&& messages[i].hash@.len() == 64
            &&& messages[i].merkle_proof@ == proof_text(stored_leaves(messages), i)
        }
    &&& tree.merkle_root@ == root_text(stored_leaves(messages))
}

/// Why a transcript does not authorize a change to the account `account_hash`,
/// if it does not: the relationship flags are checked first, then the handle,
/// then its binding to the account.
pub open spec fn authorization_failure(
    account_hash: Seq<char>,
    t: Transcript,
) -> Option<CoreError> {
    if !shows_mutual(t) {
        Some(CoreError::RelationshipNotMutual)
    } else if screen_name_of(t) is None {
        Some(CoreError::ClaimMissing)
    } else if account_hash_of(screen_name_of(t)->0) != account_hash {
        Some(CoreError::AccountMismatch)
    } else {
        None
    }
}

/// The stateless steps of an append: the relationship flags, the handle, and
/// its binding to `account_hash`.
pub fn authorize(account_hash: &String, t: &Transcript) -> (r: Result<(), CoreError>)
    ensures
        match authorization_failure(account_hash@, *t) {
            Some(e) => r == Err::<(), CoreError>(e),
            None => r is Ok,
        },
{
    match check_relationship(t) {
        Ok(()) => {},
        Err(e) => return Err(e),
    }
    let handle = match parse_screen_name(t) {
        Ok(h) => h,
        Err(e) => return Err(e),
    };
    bind(handle.as_slice(), account_hash)
}

impl AccountLedger {
    /// The committed leaves, as bytes.
    pub open spec fn leaf_view(&self) -> Seq<Seq<u8>> {
        digests_view(self.leaves@)
    }

    /// The ledger's invariant: one leaf per message, indices `0..n` in order,
    /// each hash the text of its leaf, each proof the audit path of its leaf
    /// in its snapshot and verifying against that snapshot's root, and the
    /// recorded root rebuilt from the leaves.
    pub open spec fn wf(&self) -> bool {
        &&& self.messages@.len() == self.leaves@.len()
        &&& self.messages@.len() <= MAX_MESSAGES
        &&& forall|i: int|
            0 <= i < self.messages@.len() ==> {
                &&& #[trigger] self.messages@[i].merkle_idx as int == i
                &&& is_hex_text(self.messages@[i].hash@)
                &&& hex_decode(self.messages@[i].hash@) == self.leaves@[i]@
                &&& self.messages@[i].merkle_proof@ == proof_text(self.leaf_view(), i)
                &&& proof_holds(self.leaf_view(), i)
            }
        &&& self.tree.merkle_root@ == root_text(self.leaf_view())
    }

    /// Why an append with this caller's view of the ledger (its root and leaf
    /// count) is refused, if it is.
    pub open spec fn append_rejection(
        &self,
        observed_root: Seq<char>,
        observed_count: int,
        t: Transcript,
    ) -> Option<CoreError> {
        if authorization_failure(self.tree.account_hash@, t) is Some {
            authorization_failure(self.tree.account_hash@, t)
        } else if observed_root != self.tree.merkle_root@ || observed_count != self.leaves@.len() {
            Some(CoreError::RootInconsistent)
        } else if self.messages@.len() >= MAX_MESSAGES {
            Some(CoreError::StorageError)
        } else {
            None
        }
    }

    /// Whether `self` is `prev` with one message appended: its leaf is the
    /// digest of `body`, its index the old leaf count, its proof the audit path
    /// of that leaf, and the root is rebuilt over the longer leaf sequence.
    pub open spec fn appends(
        &self,
        prev: AccountLedger,
        body: Seq<u8>,
        ornament_id: i32,
        nickname: Seq<char>,
        proof_file_id: Seq<char>,
    ) -> bool {
        let n = prev.leaves@.len() as int;
        let leaves = prev.leaf_view().push(sha256_of(body));
        let m = self.messages@[n];
        &&& self.leaves@.len() == n + 1
        &&& self.leaves@.subrange(0, n) == prev.leaves@
        &&& self.leaves@[n]@ == sha256_of(body)
        &&& self.messages@.len() == n + 1
        &&& self.messages@.subrange(0, n) == prev.messages@
        &&& m.hash@ == hex_encode(sha256_of(body))
        &&& m.ornament_id == ornament_id
        &&& m.nickname@ == nickname
        &&& m.merkle_idx as int == n
        &&& m.merkle_proof@ == hex_encode(path_bytes(merkle_path_of(leaves, n)))
        &&& path_verifies(
            merkle_root_of(leaves),
            n,
            sha256_of(body),
            merkle_path_of(leaves, n),
            n + 1,
        )
        &&& m.proof_file_id@ == proof_file_id
        &&& self.tree.merkle_root@ == hex_encode(merkle_root_of(leaves))
        &&& self.tree.account_hash@ == prev.tree.account_hash@
        &&& self.tree.account_id@ == prev.tree.account_id@
        &&& self.tree.proof_file_id@ == prev.tree.proof_file_id@
    }
    /// Appends a message once every check passes. The caller's view of the ledger
    /// (`observed_root`, `observed_count`) must still be current; on any
    /// refusal nothing changes. On success the stored record, the new root and
    /// the audit path of the new leaf are returned with the body.
    pub fn append_message(
        &mut self,
        observed_root: &String,
        observed_count: usize,
        t: &Transcript,
        ornament_id: i32,
        nickname: String,
        body: String,
        proof_file_id: String,
    ) -> (r: Result<MessageResponse, CoreError>)
        requires
            old(self).wf(),
        ensures
            final(self).wf(),
            match old(self).append_rejection(observed_root@, observed_count as int, *t) {
                Some(e) => r == Err::<MessageResponse, CoreError>(e) && *final(self) == *old(self),
                None => {
                    &&& final(self).appends(
                        *old(self),
                        body_bytes(body@),
                        ornament_id,
                        nickname@,
                        proof_file_id@,
                    )
                    &&& r is Ok
                    &&& r->Ok_0.hash@ == final(self).messages@.last().hash@
                    &&& r->Ok_0.ornament_id == ornament_id
                    &&& r->Ok_0.nickname@ == nickname@
                    &&& r->Ok_0.merkle_root@ == final(self).tree.merkle_root@
                    &&& r->Ok_0.merkle_idx as int == old(self).leaves@.len()
                    &&& r->Ok_0.merkle_proof@ == final(self).messages@.last().merkle_proof@
                    &&& r->Ok_0.body == Some(body)
                },
            },
    {
        match authorize(&self.tree.account_hash, t) {
            Ok(()) => {},
            Err(e) => return Err(e),
        }
        if *observed_root != self.tree.merkle_root || observed_count != self.leaves.len() {
            return Err(CoreError::RootInconsistent);
        }
        if self.messages.len() >= MAX_MESSAGES {
            return Err(CoreError::StorageError);
        }
        let leaf = sha256(body.as_str().as_bytes());
        let prepared = append_and_prove(&self.leaves, leaf);
        let root_hex = encode_hex(prepared.root.as_slice());
        let hash_hex = encode_hex(leaf.as_slice());
        let proof_hex = encode_hex(prepared.proof_bytes.as_slice());
        let index = prepared.index as i32;
        let record = StoredMessage {
            hash: hash_hex.clone(),
            ornament_id,
            nickname: nickname.clone(),
            merkle_idx: index,
            merkle_proof: proof_hex.clone(),
            proof_file_id,
        };
        let ghost prev = *self;
        self.leaves.push(leaf);
        self.messages.push(record);
        self.tree.merkle_root = root_hex.clone();
        proof {
            lemma_hex_round_trip(leaf@);
            assert(self.leaves@ =~= prev.leaves@.push(leaf));
            assert(self.leaf_view() =~= prev.leaf_view().push(leaf@));
            assert(self.leaves@.subrange(0, prev.leaves@.len() as int) =~= prev.leaves@);
            assert(self.messages@.subrange(0, prev.messages@.len() as int) =~= prev.messages@);
            assert forall|i: int| 0 <= i < self.messages@.len() implies {
                &&& #[trigger] self.messages@[i].merkle_idx as int == i
                &&& is_hex_text(self.messages@[i].hash@)
                &&& hex_decode(self.messages@[i].hash@) == self.leaves@[i]@
                &&& self.messages@[i].merkle_proof@ == proof_text(self.leaf_view(), i)
                &&& proof_holds(self.leaf_view(), i)
            } by {
                if i < prev.messages@.len() {
                    assert(prev.messages@[i].merkle_idx as int == i);
                    assert(self.messages@[i] == prev.messages@[i]);
                    assert(self.leaves@[i] == prev.leaves@[i]);
                    assert(snapshot(self.leaf_view(), i) =~= snapshot(prev.leaf_view(), i));
                } else {
                    assert(snapshot(self.leaf_view(), i) =~= self.leaf_view());
                    assert(self.leaf_view()[i] == leaf@);
                }
            }
        }
        Ok(
            MessageResponse {
                hash: hash_hex,
                ornament_id,
                nickname,
                merkle_root: root_hex,
                merkle_idx: index,
                merkle_proof: proof_hex,
                body: Some(body),
            },
        )
    }
    /// Opens the ledger of the account whose ownership the transcript proves:
    /// its identifier is derived from the handle, and it starts with no
    /// messages and the empty root. Fails with `ClaimMissing` when the
    /// transcript holds no readable handle.
    pub fn create_tree(account_id: String, t: &Transcript, proof_file_id: String) -> (r: Result<
        AccountLedger,
        CoreError,
    >)
        ensures
            match screen_name_of(*t) {
                None => r == Err::<AccountLedger, CoreError>(CoreError::ClaimMissing),
                Some(h) => {
                    &&& r is Ok
                    &&& r->Ok_0.wf()
                    &&& r->Ok_0.tree.account_hash@ == account_hash_of(h)
                    &&& r->Ok_0.tree.account_id@ == account_id@
                    &&& r->Ok_0.tree.proof_file_id@ == proof_file_id@
                    &&& r->Ok_0.tree.merkle_root@.len() == 0
                    &&& r->Ok_0.leaves@.len() == 0
                    &&& r->Ok_0.messages@.len() == 0
                },
            },
    {
        let handle = match parse_screen_name(t) {
            Ok(h) => h,
            Err(e) => return Err(e),
        };
        let account_hash = derive_account_hash(handle.as_slice());
        let l = AccountLedger {
            tree: Tree { account_hash, account_id, merkle_root: String::new(), proof_file_id },
            leaves: Vec::new(),
            messages: Vec::new(),
        };
        assert(l.leaf_view() =~= Seq::<Seq<u8>>::empty());
        Ok(l)
    }

    /// Rebuilds a ledger from its stored tree row and messages, in index
    /// order. Fails with `RootInconsistent` unless they are consistent.
    pub fn load(tree: Tree, messages: Vec<StoredMessage>) -> (r: Result<AccountLedger, CoreError>)
        ensures
            r is Ok <==> loadable(tree, messages@),
            r is Err ==> r == Err::<AccountLedger, CoreError>(CoreError::RootInconsistent),
            r is Ok ==> r->Ok_0.wf() && r->Ok_0.tree == tree && r->Ok_0.messages@ == messages@,
    {
        if messages.len() > MAX_MESSAGES {
            return Err(CoreError::RootInconsistent);
        }
        let mut leaves: Vec<Digest> = Vec::new();
        let mut i: usize = 0;
        while i < messages.len()
            invariant
                i <= messages@.len() <= MAX_MESSAGES,
                leaves@.len() == i,
                forall|j: int|
                    0 <= j < i ==> {
                        &&& #[trigger] messages@[j].merkle_idx as int == j
                        &&& is_hex_text(messages@[j].hash@)
                        &&& messages@[j].hash@.len() == 64
                        &&& leaves@[j]@ == hex_decode(messages@[j].hash@)
                        &&& messages@[j].merkle_proof@ == proof_text(stored_leaves(messages@), j)
                        &&& proof_holds(stored_leaves(messages@), j)
                    },
            decreases messages@.len() - i,
        {
            let m = &messages[i];
            if m.merkle_idx as usize != i || m.merkle_idx < 0 {
                assert(messages@[i as int].merkle_idx as int != i);
                return Err(CoreError::RootInconsistent);
            }
            match decode_hex_32(m.hash.as_str()) {
                Some(d) => leaves.push(d),
                None => return Err(CoreError::RootInconsistent),
            }
            assert(digests_view(leaves@) =~= snapshot(stored_leaves(messages@), i as int)) by {
                assert forall|j: int| 0 <= j <= i implies digests_view(leaves@)[j]
                    == stored_leaves(messages@)[j] by {
                    if j < i {
                        assert(messages@[j].merkle_idx as int == j);
                    }
                }
            }
            let expected = inclusion_proof(&leaves, i);
            if encode_hex(expected.as_slice()) != m.merkle_proof {
                return Err(CoreError::RootInconsistent);
            }
            i = i + 1;
        }
        assert forall|j: int| 0 <= j < leaves@.len() implies digests_view(leaves@)[j]
            == stored_leaves(messages@)[j] by {
            assert(messages@[j].merkle_idx as int == j);
        }
        assert(digests_view(leaves@) =~= stored_leaves(messages@));
        assert forall|j: int| 0 <= j < messages@.len() implies {
            &&& messages@[j].merkle_proof@ == proof_text(digests_view(leaves@), j)
            &&& proof_holds(digests_view(leaves@), j)
        } by {
            assert(messages@[j].merkle_idx as int == j);
        }
        let consistent = if leaves.len() == 0 {
            tree.merkle_root == String::new()
        } else {
            match merkle_root(&leaves) {
                Ok(root) => tree.merkle_root == encode_hex(root.as_slice()),
                Err(_) => false,
            }
        };
        if !consistent {
            return Err(CoreError::RootInconsistent);
        }
        Ok(AccountLedger { tree, leaves, messages })
    }

    /// The messages in index order, each with the current root and no body.
    pub fn list_messages(&self) -> (r: Vec<MessageResponse>)
        ensures
            r@.len() == self.messages@.len(),
            forall|i: int|
                0 <= i < r@.len() ==> {
                    &&& (#[trigger] r@[i]).hash@ == self.messages@[i].hash@
                    &&& r@[i].ornament_id == self.messages@[i].ornament_id
                    &&& r@[i].nickname@ == self.messages@[i].nickname@
                    &&& r@[i].merkle_root@ == self.tree.merkle_root@
                    &&& r@[i].merkle_idx == self.messages@[i].merkle_idx
                    &&& r@[i].merkle_proof@ == self.messages@[i].merkle_proof@
                    &&& r@[i].body is None
                },
    {
        let mut out: Vec<MessageResponse> = Vec::new();
        let mut i: usize = 0;
        while i < self.messages.len()
            invariant
                i <= self.messages@.len(),
                out@.len() == i,
                forall|j: int|
                    0 <= j < i ==> {
                        &&& (#[trigger] out@[j]).hash@ == self.messages@[j].hash@
                        &&& out@[j].ornament_id == self.messages@[j].ornament_id
                        &&& out@[j].nickname@ == self.messages@[j].nickname@
                        &&& out@[j].merkle_root@ == self.tree.merkle_root@
                        &&& out@[j].merkle_idx == self.messages@[j].merkle_idx
                        &&& out@[j].merkle_proof@ == self.messages@[j].merkle_proof@
                        &&& out@[j].body is None
                    },
            decreases self.messages@.len() - i,
        {
            let m = &self.messages[i];
            out.push(
                MessageResponse {
                    hash: m.hash.clone(),
                    ornament_id: m.ornament_id,
                    nickname: m.nickname.clone(),
                    merkle_root: self.tree.merkle_root.clone(),
                    merkle_idx: m.merkle_idx,
                    merkle_proof: m.merkle_proof.clone(),
                    body: None,
                },
            );
            i = i + 1;
        }
        out
    }
}


/// In a well-formed ledger of `n` messages the stored indices are exactly
/// `0, 1, ..., n - 1`, in order, each once.
pub proof fn lemma_indices_dense(l: AccountLedger)
    requires
        l.wf(),
    ensures
        l.messages@.map_values(|m: StoredMessage| m.merkle_idx as int) == Seq::new(
            l.messages@.len(),
            |i: int| i,
        ),
{
    let idx = l.messages@.map_values(|m: StoredMessage| m.merkle_idx as int);
    assert forall|i: int| 0 <= i < l.messages@.len() implies #[trigger] idx[i] == i by {
        assert(l.messages@[i].merkle_idx as int == i);
    }
    assert(l.messages@.map_values(|m: StoredMessage| m.merkle_idx as int) =~= Seq::new(
        l.messages@.len(),
        |i: int| i,
    ));
}

/// Two appends that read the ledger in the same state: once one of them has
/// committed, the other is refused, and with `RootInconsistent` whenever its
/// transcript authorizes it. No two messages are committed at one index.
pub proof fn lemma_stale_view_rejected(
    prev: AccountLedger,
    next: AccountLedger,
    observed_root: Seq<char>,
    observed_count: int,
    first: Transcript,
    second: Transcript,
    body: Seq<u8>,
    ornament_id: i32,
    nickname: Seq<char>,
    proof_file_id: Seq<char>,
)
    requires
        prev.wf(),
        prev.append_rejection(observed_root, observed_count, first) is None,
        next.appends(prev, body, ornament_id, nickname, proof_file_id),
    ensures
        next.append_rejection(observed_root, observed_count, second) is Some,
        authorization_failure(next.tree.account_hash@, second) is None ==> next.append_rejection(
            observed_root,
            observed_count,
            second,
        ) == Some(CoreError::RootInconsistent),
{
}

} // verus!
