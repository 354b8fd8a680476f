use notary_ledger::binder::{bind, derive_account_hash};
use notary_ledger::claims::{check_relationship, has_mutual_relationship, parse_screen_name};
use notary_ledger::error::CoreError;
use notary_ledger::ledger::{authorize, AccountLedger, StoredMessage, Tree};
use notary_ledger::merkle::{
    append_and_prove, decode_inclusion_proof, inclusion_proof, merkle_root, verify_inclusion, Digest,
};
use notary_ledger::presentation::{
    check_friendship_with_proof, decode_proof_hex, Transcript, SENTINEL,
};
use rs_merkle::algorithms::Sha256;
use rs_merkle::{Hasher, MerkleTree};

fn authed_transcript(text: &str) -> Transcript {
    let bytes = text.as_bytes().to_vec();
    let marks = vec![true; bytes.len()];
    Transcript::mask(&bytes, &marks).unwrap()
}

fn sha(s: &str) -> Digest {
    Sha256::hash(s.as_bytes())
}

fn account(handle: &str) -> String {
    hex::encode(sha(handle))
}

fn friends_of(handle: &str) -> Transcript {
    authed_transcript(&format!(
        "HTTP/1.1 200 OK\r\n\r\n{{\"relationship\":{{\"followed_by\": true , \"following\":\ttrue}},\"screen_name\":\"{}\"}}",
        handle
    ))
}

fn new_ledger(handle: &str) -> AccountLedger {
    let t = authed_transcript(&format!("{{\"screen_name\":\"{}\"}}", handle));
    AccountLedger::create_tree("acct-1".to_string(), &t, "file-0".to_string()).unwrap()
}

fn append(l: &mut AccountLedger, t: &Transcript, body: &str) -> Result<notary_ledger::ledger::MessageResponse, CoreError> {
    let root = l.tree.merkle_root.clone();
    let count = l.leaves.len();
    l.append_message(&root, count, t, 3, "nick".to_string(), body.to_string(), "file-1".to_string())
}

#[test]
fn decode_proof_hex_accepts_both_cases() {
    assert_eq!(decode_proof_hex("00ff7A").unwrap(), vec![0u8, 255, 122]);
    assert_eq!(decode_proof_hex("").unwrap(), Vec::<u8>::new());
}

#[test]
fn decode_proof_hex_rejects_malformed_text() {
    assert_eq!(decode_proof_hex("abc"), Err(CoreError::DecodeError));
    assert_eq!(decode_proof_hex("0g"), Err(CoreError::DecodeError));
}

#[test]
fn mask_overwrites_unauthenticated_bytes() {
    let received = b"abcdef".to_vec();
    let marks = vec![true, false, true, true, false, false];
    let t = Transcript::mask(&received, &marks).unwrap();
    assert_eq!(t.data, vec![b'a', SENTINEL, b'c', b'd', SENTINEL, SENTINEL]);
    assert_eq!(t.data, b"aXcdXX".to_vec());
}

#[test]
fn mask_refuses_missing_marks() {
    let received = b"abc".to_vec();
    assert!(matches!(Transcript::mask(&received, &vec![true, true]), Err(CoreError::ProofInvalid)));
}

#[test]
fn mask_is_deterministic() {
    let received = b"\"screen_name\":\"alice\"".to_vec();
    let marks: Vec<bool> = (0..received.len()).map(|i| i % 3 != 0).collect();
    let a = Transcript::mask(&received, &marks).unwrap();
    let b = Transcript::mask(&received, &marks).unwrap();
    assert_eq!(a.data, b.data);
}

#[test]
fn friendship_compares_masked_transcripts() {
    let a = Ok(authed_transcript("same"));
    let b = Ok(authed_transcript("same"));
    let c = Ok(authed_transcript("other"));
    assert_eq!(check_friendship_with_proof(&a, &b), Ok(true));
    assert_eq!(check_friendship_with_proof(&a, &c), Ok(false));
    let bad: Result<Transcript, CoreError> = Err(CoreError::DecodeError);
    let invalid: Result<Transcript, CoreError> = Err(CoreError::ProofInvalid);
    assert_eq!(check_friendship_with_proof(&bad, &invalid), Err(CoreError::DecodeError));
    assert_eq!(check_friendship_with_proof(&a, &invalid), Err(CoreError::ProofInvalid));
}

#[test]
fn relationship_flags_tolerate_white_space() {
    assert!(has_mutual_relationship(&authed_transcript("\"followed_by\":true,\"following\":true")));
    assert!(has_mutual_relationship(&authed_transcript("x \"followed_by\":  true\n ,\r\n \"following\":\ttrue}")));
}

#[test]
fn relationship_flags_must_both_be_true() {
    let t = authed_transcript("\"followed_by\":false,\"following\":true");
    assert!(!has_mutual_relationship(&t));
    assert_eq!(check_relationship(&t), Err(CoreError::RelationshipNotMutual));
    let t = authed_transcript("\"followed_by\":true,\"following\":false");
    assert!(!has_mutual_relationship(&t));
    assert!(!has_mutual_relationship(&authed_transcript("\"following\":true")));
    assert!(!has_mutual_relationship(&authed_transcript("")));
}

#[test]
fn masked_relationship_flag_does_not_match() {
    let received = b"\"followed_by\":true,\"following\":true".to_vec();
    let mut marks = vec![true; received.len()];
    marks[16] = false;
    let t = Transcript::mask(&received, &marks).unwrap();
    assert!(!has_mutual_relationship(&t));
}

#[test]
fn screen_name_is_read() {
    let t = authed_transcript("{\"id\":1,\"screen_name\":\"alice_42\",\"name\":\"A\"}");
    assert_eq!(parse_screen_name(&t), Ok(b"alice_42".to_vec()));
}

#[test]
fn screen_name_skips_an_empty_value() {
    let t = authed_transcript("\"screen_name\":\"\",\"screen_name\":\"bob\"");
    assert_eq!(parse_screen_name(&t), Ok(b"bob".to_vec()));
}

#[test]
fn screen_name_missing_or_unclosed() {
    assert_eq!(parse_screen_name(&authed_transcript("{\"name\":\"alice\"}")), Err(CoreError::ClaimMissing));
    assert_eq!(parse_screen_name(&authed_transcript("\"screen_name\":\"alice")), Err(CoreError::ClaimMissing));
}

#[test]
fn masked_screen_name_is_refused() {
    let received = b"\"screen_name\":\"alice\"".to_vec();
    let mut marks = vec![true; received.len()];
    marks[17] = false;
    let t = Transcript::mask(&received, &marks).unwrap();
    assert_eq!(t.data, b"\"screen_name\":\"alXce\"".to_vec());
    assert_eq!(parse_screen_name(&t), Err(CoreError::ClaimMissing));
}

#[test]
fn account_hash_is_hex_of_sha256() {
    assert_eq!(
        derive_account_hash(b"abc"),
        "ba7816bf8f01cfea414140de5dae2223b00361a396177a9cb410ff61f20015ad"
    );
    assert_eq!(derive_account_hash(b"alice"), account("alice"));
}

#[test]
fn bind_accepts_exactly_the_derived_hash() {
    let h = account("alice");
    assert_eq!(bind(b"alice", &h), Ok(()));
    assert_eq!(bind(b"alice", &h.to_uppercase()), Err(CoreError::AccountMismatch));
    assert_eq!(bind(b"alice", &account("bob")), Err(CoreError::AccountMismatch));
    assert_eq!(bind(b"alice", &String::new()), Err(CoreError::AccountMismatch));
}

#[test]
fn authorize_checks_in_order() {
    let h = account("alice");
    assert_eq!(authorize(&h, &friends_of("alice")), Ok(()));
    assert_eq!(authorize(&h, &friends_of("mallory")), Err(CoreError::AccountMismatch));
    assert_eq!(authorize(&h, &authed_transcript("\"screen_name\":\"alice\"")), Err(CoreError::RelationshipNotMutual));
    assert_eq!(
        authorize(&h, &authed_transcript("\"followed_by\":true,\"following\":true")),
        Err(CoreError::ClaimMissing)
    );
}

#[test]
fn root_of_no_leaves_is_an_error() {
    assert_eq!(merkle_root(&Vec::new()), Err(CoreError::EmptyTree));
}

#[test]
fn root_matches_the_merkle_tree() {
    let leaves = vec![sha("a"), sha("b"), sha("c")];
    let expected = MerkleTree::<Sha256>::from_leaves(&leaves).root().unwrap();
    assert_eq!(merkle_root(&leaves), Ok(expected));
    assert_ne!(expected, leaves[0]);
}

#[test]
fn every_leaf_proves_its_inclusion() {
    for n in 1..=9usize {
        let leaves: Vec<Digest> = (0..n).map(|i| sha(&format!("m{}", i))).collect();
        let root = merkle_root(&leaves).unwrap();
        for i in 0..n {
            let p = inclusion_proof(&leaves, i);
            assert!(verify_inclusion(&root, i, &leaves[i], &p, n));
        }
    }
}

#[test]
fn tampering_defeats_verification() {
    let leaves: Vec<Digest> = (0..5).map(|i| sha(&format!("m{}", i))).collect();
    let root = merkle_root(&leaves).unwrap();
    let p = inclusion_proof(&leaves, 2);
    assert!(verify_inclusion(&root, 2, &leaves[2], &p, 5));
    for k in 0..p.len() {
        let mut q = p.clone();
        q[k] ^= 1;
        assert!(!verify_inclusion(&root, 2, &leaves[2], &q, 5));
    }
    for k in 0..32 {
        let mut r = root;
        r[k] ^= 0x80;
        assert!(!verify_inclusion(&r, 2, &leaves[2], &p, 5));
        let mut l = leaves[2];
        l[k] ^= 0x80;
        assert!(!verify_inclusion(&root, 2, &l, &p, 5));
    }
    assert!(!verify_inclusion(&root, 2, &leaves[2], &p[..p.len() - 1], 5));
    assert!(!verify_inclusion(&root, 5, &leaves[2], &p, 5));
}

#[test]
fn serialized_proof_round_trips() {
    let leaves: Vec<Digest> = (0..6).map(|i| sha(&format!("m{}", i))).collect();
    let p = inclusion_proof(&leaves, 4);
    assert_eq!(p.len() % 32, 0);
    assert!(!p.is_empty());
    let path = decode_inclusion_proof(&p).unwrap();
    let again: Vec<u8> = path.iter().flat_map(|d| d.iter().copied()).collect();
    assert_eq!(again, p);
    let expected = MerkleTree::<Sha256>::from_leaves(&leaves).proof(&[4]).to_bytes();
    assert_eq!(p, expected);
    assert_eq!(decode_inclusion_proof(&p[..31]), Err(CoreError::DecodeError));
}

#[test]
fn append_and_prove_extends_the_tree() {
    let existing = vec![sha("hello")];
    let out = append_and_prove(&existing, sha("world"));
    assert_eq!(out.index, 1);
    assert_eq!(out.root, merkle_root(&vec![sha("hello"), sha("world")]).unwrap());
    assert!(verify_inclusion(&out.root, 1, &sha("world"), &out.proof_bytes, 2));
}

#[test]
fn create_then_append_two_messages() {
    let mut l = new_ledger("alice");
    assert_eq!(l.tree.account_hash, account("alice"));
    assert_eq!(l.tree.merkle_root, "");
    let t = friends_of("alice");

    let first = append(&mut l, &t, "hello").unwrap();
    let root1 = merkle_root(&vec![sha("hello")]).unwrap();
    assert_eq!(first.merkle_idx, 0);
    assert_eq!(first.hash, hex::encode(sha("hello")));
    assert_eq!(first.merkle_root, hex::encode(root1));
    assert_eq!(first.body, Some("hello".to_string()));
    assert_eq!(first.ornament_id, 3);
    assert_eq!(first.nickname, "nick");

    let second = append(&mut l, &t, "world").unwrap();
    let root2 = merkle_root(&vec![sha("hello"), sha("world")]).unwrap();
    assert_eq!(second.merkle_idx, 1);
    assert_eq!(second.merkle_root, hex::encode(root2));
    assert_eq!(l.tree.merkle_root, hex::encode(root2));

    let proof1 = hex::decode(&first.merkle_proof).unwrap();
    assert!(verify_inclusion(&root1, 0, &sha("hello"), &proof1, 1));
    assert!(!verify_inclusion(&root2, 0, &sha("hello"), &proof1, 2));
    let proof2 = hex::decode(&second.merkle_proof).unwrap();
    assert!(verify_inclusion(&root2, 1, &sha("world"), &proof2, 2));
}

#[test]
fn missing_relationship_leaves_ledger_unchanged() {
    let mut l = new_ledger("alice");
    let t = friends_of("alice");
    append(&mut l, &t, "hello").unwrap();
    let before_root = l.tree.merkle_root.clone();
    let lonely = authed_transcript("{\"following\":true,\"screen_name\":\"alice\"}");
    assert_eq!(append(&mut l, &lonely, "again").err(), Some(CoreError::RelationshipNotMutual));
    assert_eq!(l.tree.merkle_root, before_root);
    assert_eq!(l.leaves.len(), 1);
    assert_eq!(l.messages.len(), 1);
}

#[test]
fn appends_from_one_view_commit_once() {
    let mut l = new_ledger("alice");
    let t = friends_of("alice");
    append(&mut l, &t, "hello").unwrap();
    let seen_root = l.tree.merkle_root.clone();
    let seen_count = l.leaves.len();
    let a = l.append_message(&seen_root, seen_count, &t, 1, "a".to_string(), "one".to_string(), "f".to_string());
    let b = l.append_message(&seen_root, seen_count, &t, 2, "b".to_string(), "two".to_string(), "g".to_string());
    assert_eq!(a.unwrap().merkle_idx, 1);
    assert_eq!(b.err(), Some(CoreError::RootInconsistent));
    assert_eq!(l.messages.len(), 2);
}

#[test]
fn other_account_is_refused() {
    let mut l = new_ledger("alice");
    assert_eq!(append(&mut l, &friends_of("bob"), "hi").err(), Some(CoreError::AccountMismatch));
    assert_eq!(l.messages.len(), 0);
}

#[test]
fn create_tree_needs_a_handle() {
    let t = authed_transcript("{}");
    assert!(matches!(
        AccountLedger::create_tree("x".to_string(), &t, "f".to_string()),
        Err(CoreError::ClaimMissing)
    ));
}

#[test]
fn indices_are_dense_after_appends() {
    let mut l = new_ledger("alice");
    let t = friends_of("alice");
    for k in 0..7 {
        append(&mut l, &t, &format!("body {}", k)).unwrap();
    }
    let idx: Vec<i32> = l.list_messages().iter().map(|m| m.merkle_idx).collect();
    assert_eq!(idx, (0..7).collect::<Vec<i32>>());
}

#[test]
fn list_messages_echoes_the_root() {
    let mut l = new_ledger("alice");
    let t = friends_of("alice");
    append(&mut l, &t, "hello").unwrap();
    append(&mut l, &t, "world").unwrap();
    let listed = l.list_messages();
    assert_eq!(listed.len(), 2);
    for m in &listed {
        assert_eq!(m.merkle_root, l.tree.merkle_root);
        assert!(m.body.is_none());
    }
    assert_eq!(listed[1].hash, hex::encode(sha("world")));
}

fn stored_copy(l: &AccountLedger) -> (Tree, Vec<StoredMessage>) {
    let tree = Tree {
        account_hash: l.tree.account_hash.clone(),
        account_id: l.tree.account_id.clone(),
        merkle_root: l.tree.merkle_root.clone(),
        proof_file_id: l.tree.proof_file_id.clone(),
    };
    let msgs = l
        .messages
        .iter()
        .map(|m| StoredMessage {
            hash: m.hash.clone(),
            ornament_id: m.ornament_id,
            nickname: m.nickname.clone(),
            merkle_idx: m.merkle_idx,
            merkle_proof: m.merkle_proof.clone(),
            proof_file_id: m.proof_file_id.clone(),
        })
        .collect();
    (tree, msgs)
}

#[test]
fn load_accepts_a_consistent_ledger() {
    let mut l = new_ledger("alice");
    let t = friends_of("alice");
    append(&mut l, &t, "hello").unwrap();
    append(&mut l, &t, "world").unwrap();
    let (tree, msgs) = stored_copy(&l);
    let mut back = AccountLedger::load(tree, msgs).ok().unwrap();
    assert_eq!(back.leaves, l.leaves);
    assert_eq!(append(&mut back, &t, "again").unwrap().merkle_idx, 2);
    let (tree, msgs) = stored_copy(&new_ledger("alice"));
    assert!(AccountLedger::load(tree, msgs).is_ok());
}

#[test]
fn load_refuses_inconsistent_rows() {
    let mut l = new_ledger("alice");
    let t = friends_of("alice");
    append(&mut l, &t, "hello").unwrap();
    append(&mut l, &t, "world").unwrap();

    let (mut tree, msgs) = stored_copy(&l);
    tree.merkle_root = hex::encode(merkle_root(&vec![sha("hello")]).unwrap());
    assert!(matches!(AccountLedger::load(tree, msgs), Err(CoreError::RootInconsistent)));

    let (tree, mut msgs) = stored_copy(&l);
    msgs[1].merkle_idx = 2;
    assert!(matches!(AccountLedger::load(tree, msgs), Err(CoreError::RootInconsistent)));

    let (tree, mut msgs) = stored_copy(&l);
    msgs[0].hash = "zz".to_string();
    assert!(matches!(AccountLedger::load(tree, msgs), Err(CoreError::RootInconsistent)));

    let (tree, mut msgs) = stored_copy(&l);
    msgs.pop();
    assert!(matches!(AccountLedger::load(tree, msgs), Err(CoreError::RootInconsistent)));
}

#[test]
fn screen_name_tolerates_white_space_around_the_colon() {
    let t = authed_transcript("{\"screen_name\" : \"alice\"}");
    assert_eq!(parse_screen_name(&t), Ok(b"alice".to_vec()));
    let t = authed_transcript("{\"screen_name\"\n:\t\"bob\"}");
    assert_eq!(parse_screen_name(&t), Ok(b"bob".to_vec()));
}

#[test]
fn relationship_keys_tolerate_white_space_before_the_colon() {
    let t = authed_transcript("\"followed_by\" : true , \"following\" :true");
    assert!(has_mutual_relationship(&t));
}

#[test]
fn unauthenticated_bytes_are_never_read() {
    let text = b"\"followed_by\":true,\"following\":true,\"screen_name\":\"alice\"".to_vec();
    let mut marks = vec![true; text.len()];
    marks[20] = false;
    let t = Transcript { data: text.clone(), authed: marks };
    assert!(!has_mutual_relationship(&t));
    assert_eq!(parse_screen_name(&t), Ok(b"alice".to_vec()));
    let mut marks = vec![true; text.len()];
    marks[text.len() - 1] = false;
    let t = Transcript { data: text, authed: marks };
    assert!(has_mutual_relationship(&t));
    assert_eq!(parse_screen_name(&t), Err(CoreError::ClaimMissing));
}

#[test]
fn stored_proofs_verify_against_their_snapshot() {
    let mut l = new_ledger("alice");
    let t = friends_of("alice");
    let bodies = ["a", "b", "c", "d", "e"];
    for b in bodies.iter() {
        append(&mut l, &t, b).unwrap();
    }
    for (i, m) in l.messages.iter().enumerate() {
        let snapshot: Vec<Digest> = l.leaves[..=i].to_vec();
        let root = merkle_root(&snapshot).unwrap();
        let p = hex::decode(&m.merkle_proof).unwrap();
        assert!(verify_inclusion(&root, i, &l.leaves[i], &p, i + 1));
    }
}

#[test]
fn load_refuses_a_wrong_stored_proof() {
    let mut l = new_ledger("alice");
    let t = friends_of("alice");
    append(&mut l, &t, "hello").unwrap();
    append(&mut l, &t, "world").unwrap();
    let (tree, mut msgs) = stored_copy(&l);
    msgs[1].merkle_proof = msgs[0].merkle_proof.clone();
    assert!(matches!(AccountLedger::load(tree, msgs), Err(CoreError::RootInconsistent)));
}
