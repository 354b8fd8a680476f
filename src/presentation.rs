//! The masked server-to-client transcript of a verified presentation.
use crate::error::CoreError;
use crate::hexcode::{decode_hex, hex_decode, is_hex_text};
use vstd::prelude::*;

verus! {

/// The byte that stands in for every byte that no commitment authenticates (`X`).
pub const SENTINEL: u8 = 88;

/// The received direction of a session, with its authenticated positions.
///
/// Made by [`Transcript::mask`], it never shows an unauthenticated byte: each
/// position that `authed` does not mark holds [`SENTINEL`].
pub struct Transcript {
    pub data: Vec<u8>,
    pub authed: Vec<bool>,
}

impl Transcript {
    /// Whether position `k` of the data is authenticated.
    pub open spec fn authed_at(&self, k: int) -> bool {
        0 <= k < self.authed@.len() && self.authed@[k]
    }

    /// Whether every position in `[from, to)` is authenticated.
    pub open spec fn authed_span(&self, from: int, to: int) -> bool {
        forall|k: int| from <= k < to ==> #[trigger] self.authed_at(k)
    }

    /// Whether each byte is the received byte where authenticated, and the
    /// sentinel elsewhere.
    pub open spec fn masks(&self, received: Seq<u8>) -> bool {
        &&& self.data@.len() == received.len()
        &&& self.authed@.len() == received.len()
        &&& forall|k: int|
            0 <= k < received.len() ==> #[trigger] self.data@[k] == if self.authed@[k] {
                received[k]
            } else {
                SENTINEL
            }
    }

    /// Overwrites each byte that `authed` does not mark with the sentinel.
    /// A mark for each byte is required: otherwise the presentation is refused.
    pub fn mask(received: &Vec<u8>, authed: &Vec<bool>) -> (r: Result<Transcript, CoreError>)
        ensures
            r is Ok <==> received@.len() == authed@.len(),
            r is Err ==> r == Err::<Transcript, CoreError>(CoreError::ProofInvalid),
            r is Ok ==> r->Ok_0.masks(received@) && r->Ok_0.authed@ == authed@,
    {
        if received.len() != authed.len() {
            return Err(CoreError::ProofInvalid);
        }
        let mut data: Vec<u8> = Vec::new();
        let mut marks: Vec<bool> = Vec::new();
        let mut i: usize = 0;
        while i < received.len()
            invariant
                i <= received@.len(),
                received@.len() == authed@.len(),
                data@.len() == i,
                marks@ == authed@.subrange(0, i as int),
                forall|k: int|
                    0 <= k < i ==> #[trigger] data@[k] == if authed@[k] {
                        received@[k]
                    } else {
                        SENTINEL
                    },
            decreases received@.len() - i,
        {
            if authed[i] {
                data.push(received[i]);
            } else {
                data.push(SENTINEL);
            }
            marks.push(authed[i]);
            i = i + 1;
        }
        assert(marks@ == authed@);
        Ok(Transcript { data, authed: marks })
    }
}

/// Decodes the hexadecimal text of a serialized presentation.
pub fn decode_proof_hex(proof_hex: &str) -> (r: Result<Vec<u8>, CoreError>)
    ensures
        r is Ok <==> is_hex_text(proof_hex@),
        r is Ok ==> r->Ok_0@ == hex_decode(proof_hex@),
        r is Err ==> r == Err::<Vec<u8>, CoreError>(CoreError::DecodeError),
{
    match decode_hex(proof_hex) {
        Some(bytes) => Ok(bytes),
        None => Err(CoreError::DecodeError),
    }
}

/// Whether two byte sequences are equal.
pub fn bytes_equal(a: &Vec<u8>, b: &Vec<u8>) -> (r: bool)
    ensures
        r == (a@ == b@),
{
    if a.len() != b.len() {
        return false;
    }
    let mut i: usize = 0;
    while i < a.len()
        invariant
            i <= a@.len(),
            a@.len() == b@.len(),
            a@.subrange(0, i as int) == b@.subrange(0, i as int),
        decreases a@.len() - i,
    {
        if a[i] != b[i] {
            assert(a@[i as int] != b@[i as int]);
            return false;
        }
        assert(a@.subrange(0, i + 1) =~= a@.subrange(0, i as int).push(a@[i as int]));
        assert(b@.subrange(0, i + 1) =~= b@.subrange(0, i as int).push(b@[i as int]));
        i = i + 1;
    }
    assert(a@ =~= a@.subrange(0, i as int));
    assert(b@ =~= b@.subrange(0, i as int));
    true
}

/// Compares the masked transcripts of an account proof and of a relationship
/// proof, given the outcome of verifying each. The first failure is passed on.
pub fn check_friendship_with_proof(
    account_proof: &Result<Transcript, CoreError>,
    friendship_proof: &Result<Transcript, CoreError>,
) -> (r: Result<bool, CoreError>)
    ensures
        account_proof is Err ==> r == Err::<bool, CoreError>(account_proof->Err_0),
        account_proof is Ok && friendship_proof is Err ==> r == Err::<bool, CoreError>(
            friendship_proof->Err_0,
        ),
        account_proof is Ok && friendship_proof is Ok ==> r == Ok::<bool, CoreError>(
            account_proof->Ok_0.data@ == friendship_proof->Ok_0.data@,
        ),
{
    match account_proof {
        Err(e) => Err(*e),
        Ok(a) => match friendship_proof {
            Err(e) => Err(*e),
            Ok(b) => Ok(bytes_equal(&a.data, &b.data)),
        },
    }
}


/// Masking is a function of the received bytes and their marks: two
/// transcripts made from the same presentation hold the same bytes.
pub proof fn lemma_mask_deterministic(a: Transcript, b: Transcript, received: Seq<u8>)
    requires
        a.masks(received),
        b.masks(received),
        a.authed@ == b.authed@,
    ensures
        a.data@ == b.data@,
{
    assert(a.data@ =~= b.data@);
}

} // verus!
