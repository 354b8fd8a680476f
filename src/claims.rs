//! Claims read from a masked transcript: the relationship flags and the
//! identity handle.
//!
//! The grammar is matched on bytes, with any white space allowed around the
//! separators. A claim is read only from a match whose every byte is
//! authenticated: a match that covers a masked byte is not read.
use crate::error::CoreError;
use crate::presentation::Transcript;
use vstd::prelude::*;

verus! {

/// The key of the first relationship flag: `"followed_by"`.
pub open spec fn followed_by_key() -> Seq<u8> {
    seq![
        34u8, 102u8, 111u8, 108u8, 108u8, 111u8, 119u8, 101u8,
        100u8, 95u8, 98u8, 121u8, 34u8,
    ]
}

/// The key of the second relationship flag: `"following"`.
pub open spec fn following_key() -> Seq<u8> {
    seq![
        34u8, 102u8, 111u8, 108u8, 108u8, 111u8, 119u8, 105u8,
        110u8, 103u8, 34u8,
    ]
}

/// The key of the identity handle: `"screen_name"`.
pub open spec fn screen_name_key() -> Seq<u8> {
    seq![
        34u8, 115u8, 99u8, 114u8, 101u8, 101u8, 110u8, 95u8,
        110u8, 97u8, 109u8, 101u8, 34u8,
    ]
}

/// The literal `true`: `true`.
pub open spec fn true_word() -> Seq<u8> {
    seq![116u8, 114u8, 117u8, 101u8]
}

/// The separator between the two flags: `,`.
pub open spec fn comma() -> Seq<u8> {
    seq![44u8]
}

/// The separator between a key and its value: `:`.
pub open spec fn colon() -> Seq<u8> {
    seq![58u8]
}

/// The quote around a string value: `"`.
pub open spec fn quote() -> Seq<u8> {
    seq![34u8]
}

/// The double quote that closes the handle.
pub open spec fn is_quote(b: u8) -> bool {
    b == 34
}

/// ASCII white space: tab, line feed, vertical tab, form feed, carriage return, space.
pub open spec fn is_space(b: u8) -> bool {
    b == 32 || (9 <= b && b <= 13)
}

/// Whether the bytes `k` stand in `t` from position `i` on.
pub open spec fn lit_at(t: Seq<u8>, i: int, k: Seq<u8>) -> bool {
    0 <= i && i + k.len() <= t.len() && t.subrange(i, i + k.len()) == k
}

/// The first position from `i` on that is not white space.
pub open spec fn skip_space(t: Seq<u8>, i: int) -> int
    decreases t.len() - i,
{
    if 0 <= i < t.len() && is_space(t[i]) {
        skip_space(t, i + 1)
    } else {
        i
    }
}

/// Whether a colon follows position `j`, after any white space.
pub open spec fn colon_after(t: Seq<u8>, j: int) -> bool {
    lit_at(t, skip_space(t, j), colon())
}

/// The first position after that colon and the white space behind it.
pub open spec fn past_colon(t: Seq<u8>, j: int) -> int {
    skip_space(t, skip_space(t, j) + colon().len())
}

/// Where the first `true` stands when `"followed_by"` stands at `i`.
pub open spec fn first_flag(t: Seq<u8>, i: int) -> int {
    past_colon(t, i + followed_by_key().len())
}

/// Where the separator stands.
pub open spec fn flag_separator(t: Seq<u8>, i: int) -> int {
    skip_space(t, first_flag(t, i) + true_word().len())
}

/// Where `"following"` stands.
pub open spec fn second_key(t: Seq<u8>, i: int) -> int {
    skip_space(t, flag_separator(t, i) + comma().len())
}

/// Where the second `true` stands.
pub open spec fn second_flag(t: Seq<u8>, i: int) -> int {
    past_colon(t, second_key(t, i) + following_key().len())
}

/// The end of the relationship match that begins at `i`.
pub open spec fn mutual_end(t: Seq<u8>, i: int) -> int {
    second_flag(t, i) + true_word().len()
}

/// Whether `"followed_by" : true , "following" : true` stands at `i`, with
/// any white space around the separators.
pub open spec fn mutual_at(t: Seq<u8>, i: int) -> bool {
    &&& lit_at(t, i, followed_by_key())
    &&& colon_after(t, i + followed_by_key().len())
    &&& lit_at(t, first_flag(t, i), true_word())
    &&& lit_at(t, flag_separator(t, i), comma())
    &&& lit_at(t, second_key(t, i), following_key())
    &&& colon_after(t, second_key(t, i) + following_key().len())
    &&& lit_at(t, second_flag(t, i), true_word())
}

/// Whether the transcript shows both relationship flags set to `true`, in a
/// match whose every byte is authenticated.
pub open spec fn shows_mutual(t: Transcript) -> bool {
    exists|i: int|
        0 <= i < t.data@.len() && #[trigger] mutual_at(t.data@, i) && t.authed_span(
            i,
            mutual_end(t.data@, i),
        )
}

/// The first quote from `i` on, or the end of `t`.
pub open spec fn quote_from(t: Seq<u8>, i: int) -> int
    decreases t.len() - i,
{
    if 0 <= i < t.len() && !is_quote(t[i]) {
        quote_from(t, i + 1)
    } else {
        i
    }
}

/// Where the opening quote of the handle stands when its key stands at `i`.
pub open spec fn handle_quote(t: Seq<u8>, i: int) -> int {
    past_colon(t, i + screen_name_key().len())
}

/// Where the handle begins when its key stands at `i`.
pub open spec fn handle_start(t: Seq<u8>, i: int) -> int {
    handle_quote(t, i) + quote().len()
}

/// Where the handle ends: its closing quote.
pub open spec fn handle_end(t: Seq<u8>, i: int) -> int {
    quote_from(t, handle_start(t, i))
}

/// Whether `"screen_name" : "` stands at `i`, with any white space around the
/// colon, followed by at least one byte other than a quote and then a
/// closing quote.
pub open spec fn name_at(t: Seq<u8>, i: int) -> bool {
    &&& lit_at(t, i, screen_name_key())
    &&& colon_after(t, i + screen_name_key().len())
    &&& lit_at(t, handle_quote(t, i), quote())
    &&& handle_start(t, i) < handle_end(t, i)
    &&& handle_end(t, i) < t.len()
}

/// The first position from `i` on where a handle stands.
pub open spec fn first_name_from(t: Seq<u8>, i: int) -> Option<int>
    decreases t.len() - i,
{
    if 0 <= i < t.len() {
        if name_at(t, i) {
            Some(i)
        } else {
            first_name_from(t, i + 1)
        }
    } else {
        None
    }
}

/// The identity handle: the value of the first `screen_name` field, provided
/// that every byte of that field, quotes included, is authenticated.
pub open spec fn screen_name_of(t: Transcript) -> Option<Seq<u8>> {
    match first_name_from(t.data@, 0) {
        Some(i) => {
            if t.authed_span(i, handle_end(t.data@, i) + 1) {
                Some(t.data@.subrange(handle_start(t.data@, i), handle_end(t.data@, i)))
            } else {
                None
            }
        },
        None => None,
    }
}

fn followed_by_key_bytes() -> (r: Vec<u8>)
    ensures
        r@ == followed_by_key(),
{
    vec![
        34u8, 102u8, 111u8, 108u8, 108u8, 111u8, 119u8, 101u8,
        100u8, 95u8, 98u8, 121u8, 34u8,
    ]
}

fn following_key_bytes() -> (r: Vec<u8>)
    ensures
        r@ == following_key(),
{
    vec![
        34u8, 102u8, 111u8, 108u8, 108u8, 111u8, 119u8, 105u8,
        110u8, 103u8, 34u8,
    ]
}

fn screen_name_key_bytes() -> (r: Vec<u8>)
    ensures
        r@ == screen_name_key(),
{
    vec![
        34u8, 115u8, 99u8, 114u8, 101u8, 101u8, 110u8, 95u8,
        110u8, 97u8, 109u8, 101u8, 34u8,
    ]
}

fn true_word_bytes() -> (r: Vec<u8>)
    ensures
        r@ == true_word(),
{
    vec![116u8, 114u8, 117u8, 101u8]
}

fn comma_bytes() -> (r: Vec<u8>)
    ensures
        r@ == comma(),
{
    vec![44u8]
}

fn colon_bytes() -> (r: Vec<u8>)
    ensures
        r@ == colon(),
{
    vec![58u8]
}

fn quote_bytes() -> (r: Vec<u8>)
    ensures
        r@ == quote(),
{
    vec![34u8]
}

fn is_space_byte(b: u8) -> (r: bool)
    ensures
        r == is_space(b),
{
    b == 32 || (9 <= b && b <= 13)
}

fn lit_matches(t: &Vec<u8>, i: usize, k: &Vec<u8>) -> (r: bool)
    requires
        i <= t@.len(),
    ensures
        r == lit_at(t@, i as int, k@),
        t@.len() <= usize::MAX,
{
    if k.len() > t.len() - i {
        return false;
    }
    let mut j: usize = 0;
    while j < k.len()
        invariant
            j <= k@.len(),
            i + k@.len() <= t@.len(),
            t@.len() <= usize::MAX,
            forall|m: int| 0 <= m < j ==> t@[i + m] == #[trigger] k@[m],
        decreases k@.len() - j,
    {
        if t[i + j] != k[j] {
            assert(t@.subrange(i as int, i + k@.len())[j as int] != k@[j as int]);
            return false;
        }
        j = j + 1;
    }
    assert(t@.subrange(i as int, i + k@.len()) =~= k@);
    true
}

fn skip_spaces(t: &Vec<u8>, i: usize) -> (r: usize)
    requires
        i <= t@.len(),
    ensures
        r == skip_space(t@, i as int),
        i <= r <= t@.len(),
{
    let mut j: usize = i;
    while j < t.len() && is_space_byte(t[j])
        invariant
            i <= j <= t@.len(),
            skip_space(t@, j as int) == skip_space(t@, i as int),
        decreases t@.len() - j,
    {
        j = j + 1;
    }
    j
}

fn quote_end(t: &Vec<u8>, i: usize) -> (r: usize)
    requires
        i <= t@.len(),
    ensures
        r == quote_from(t@, i as int),
        i <= r <= t@.len(),
{
    let mut j: usize = i;
    while j < t.len() && t[j] != 34
        invariant
            i <= j <= t@.len(),
            quote_from(t@, j as int) == quote_from(t@, i as int),
        decreases t@.len() - j,
    {
        j = j + 1;
    }
    j
}

fn colon_then(t: &Vec<u8>, j: usize, sep: &Vec<u8>) -> (r: Option<usize>)
    requires
        j <= t@.len(),
        sep@ == colon(),
    ensures
        r is Some <==> colon_after(t@, j as int),
        r is Some ==> r->0 == past_colon(t@, j as int) && j <= r->0 <= t@.len(),
{
    let k = skip_spaces(t, j);
    if !lit_matches(t, k, sep) {
        return None;
    }
    Some(skip_spaces(t, k + sep.len()))
}

/// The bytes of the fixed parts of the grammar.
struct Words {
    followed_by: Vec<u8>,
    following: Vec<u8>,
    screen_name: Vec<u8>,
    yes: Vec<u8>,
    sep: Vec<u8>,
    colon: Vec<u8>,
    quote: Vec<u8>,
}

impl Words {
    spec fn wf(&self) -> bool {
        &&& self.followed_by@ == followed_by_key()
        &&& self.following@ == following_key()
        &&& self.screen_name@ == screen_name_key()
        &&& self.yes@ == true_word()
        &&& self.sep@ == comma()
        &&& self.colon@ == colon()
        &&& self.quote@ == quote()
    }

    fn new() -> (r: Words)
        ensures
            r.wf(),
    {
        Words {
            followed_by: followed_by_key_bytes(),
            following: following_key_bytes(),
            screen_name: screen_name_key_bytes(),
            yes: true_word_bytes(),
            sep: comma_bytes(),
            colon: colon_bytes(),
            quote: quote_bytes(),
        }
    }
}

fn mutual_here(t: &Vec<u8>, i: usize, w: &Words) -> (r: Option<usize>)
    requires
        i <= t@.len(),
        w.wf(),
    ensures
        r is Some <==> mutual_at(t@, i as int),
        r is Some ==> r->0 == mutual_end(t@, i as int) && i <= r->0 <= t@.len(),
{
    if !lit_matches(t, i, &w.followed_by) {
        return None;
    }
    let a = match colon_then(t, i + w.followed_by.len(), &w.colon) {
        Some(a) => a,
        None => return None,
    };
    if !lit_matches(t, a, &w.yes) {
        return None;
    }
    let b = skip_spaces(t, a + w.yes.len());
    if !lit_matches(t, b, &w.sep) {
        return None;
    }
    let c = skip_spaces(t, b + w.sep.len());
    if !lit_matches(t, c, &w.following) {
        return None;
    }
    let d = match colon_then(t, c + w.following.len(), &w.colon) {
        Some(d) => d,
        None => return None,
    };
    if !lit_matches(t, d, &w.yes) {
        return None;
    }
    Some(d + w.yes.len())
}

fn authed_range(t: &Transcript, from: usize, to: usize) -> (r: bool)
    requires
        from <= to,
    ensures
        r == t.authed_span(from as int, to as int),
{
    let mut k: usize = from;
    while k < to
        invariant
            from <= k <= to,
            t.authed_span(from as int, k as int),
        decreases to - k,
    {
        if k >= t.authed.len() || !t.authed[k] {
            assert(!t.authed_at(k as int));
            return false;
        }
        k = k + 1;
    }
    true
}

/// Whether the transcript shows both relationship flags set to `true`.
pub fn has_mutual_relationship(t: &Transcript) -> (r: bool)
    ensures
        r == shows_mutual(*t),
{
    let w = Words::new();
    let mut i: usize = 0;
    while i < t.data.len()
        invariant
            i <= t.data@.len(),
            w.wf(),
            forall|j: int|
                0 <= j < i ==> !(#[trigger] mutual_at(t.data@, j) && t.authed_span(
                    j,
                    mutual_end(t.data@, j),
                )),
        decreases t.data@.len() - i,
    {
        match mutual_here(&t.data, i, &w) {
            Some(end) => {
                if authed_range(t, i, end) {
                    return true;
                }
            },
            None => {},
        }
        i = i + 1;
    }
    false
}

/// Requires both relationship flags: fails with `RelationshipNotMutual` otherwise.
pub fn check_relationship(t: &Transcript) -> (r: Result<(), CoreError>)
    ensures
        r is Ok <==> shows_mutual(*t),
        r is Err ==> r == Err::<(), CoreError>(CoreError::RelationshipNotMutual),
{
    if has_mutual_relationship(t) {
        Ok(())
    } else {
        Err(CoreError::RelationshipNotMutual)
    }
}

fn name_here(t: &Vec<u8>, i: usize, w: &Words) -> (r: bool)
    requires
        i <= t@.len(),
        w.wf(),
    ensures
        r == name_at(t@, i as int),
{
    if !lit_matches(t, i, &w.screen_name) {
        return false;
    }
    let q = match colon_then(t, i + w.screen_name.len(), &w.colon) {
        Some(q) => q,
        None => return false,
    };
    if !lit_matches(t, q, &w.quote) {
        return false;
    }
    let s = q + w.quote.len();
    let e = quote_end(t, s);
    s < e && e < t.len()
}

/// Reads the identity handle; fails with `ClaimMissing` when there is none or
/// when any byte of its field is masked.
pub fn parse_screen_name(t: &Transcript) -> (r: Result<Vec<u8>, CoreError>)
    ensures
        match screen_name_of(*t) {
            Some(h) => r is Ok && r->Ok_0@ == h,
            None => r == Err::<Vec<u8>, CoreError>(CoreError::ClaimMissing),
        },
{
    let w = Words::new();
    let n = t.data.len();
    let mut i: usize = 0;
    while i < n
        invariant
            i <= n,
            n == t.data@.len(),
            w.wf(),
            first_name_from(t.data@, i as int) == first_name_from(t.data@, 0),
        decreases n - i,
    {
        if name_here(&t.data, i, &w) {
            let q = match colon_then(&t.data, i + w.screen_name.len(), &w.colon) {
                Some(q) => q,
                None => return Err(CoreError::ClaimMissing),
            };
            let s = q + w.quote.len();
            let e = quote_end(&t.data, s);
            if !authed_range(t, i, e + 1) {
                return Err(CoreError::ClaimMissing);
            }
            return Ok(copy_range(&t.data, s, e));
        }
        i = i + 1;
    }
    Err(CoreError::ClaimMissing)
}

fn copy_range(d: &Vec<u8>, s: usize, e: usize) -> (r: Vec<u8>)
    requires
        s <= e <= d@.len(),
    ensures
        r@ == d@.subrange(s as int, e as int),
{
    let mut out: Vec<u8> = Vec::new();
    let mut k: usize = s;
    while k < e
        invariant
            s <= k <= e,
            e <= d@.len(),
            out@ == d@.subrange(s as int, k as int),
        decreases e - k,
    {
        out.push(d[k]);
        k = k + 1;
        assert(out@ =~= d@.subrange(s as int, k as int));
    }
    out
}

} // verus!
