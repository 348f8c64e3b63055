//! Byte-level text helpers shared by the fixed-size record fields and the
//! device-name list.
use vstd::prelude::*;
use crate::error::WgError;
use vstd::string::*;
use vstd::utf8::*;

verus! {

broadcast use group_utf8_lib;

/// No byte of `b` is NUL.
pub open spec fn nul_free(b: Seq<u8>) -> bool {
    forall|i: int| 0 <= i < b.len() ==> b[i] != 0
}

/// `k` is the position of the first NUL byte of `b`.
pub open spec fn first_nul_at(b: Seq<u8>, k: int) -> bool {
    &&& 0 <= k < b.len()
    &&& b[k] == 0
    &&& nul_free(b.subrange(0, k))
}

/// The bytes of `b` before its first NUL, if it holds one.
pub open spec fn c_content(b: Seq<u8>) -> Option<Seq<u8>> {
    if exists|k: int| first_nul_at(b, k) {
        Some(b.subrange(0, choose|k: int| first_nul_at(b, k)))
    } else {
        None
    }
}

/// Every byte of `b` is a printable ASCII character (space to tilde).
pub open spec fn printable_ascii(b: Seq<u8>) -> bool {
    forall|i: int| 0 <= i < b.len() ==> 0x20 <= #[trigger] b[i] <= 0x7e
}

/// Relies on `std::str::from_utf8`: it accepts exactly the well-formed UTF-8
/// byte sequences and returns the text that they encode.
#[verifier::external_body]
pub(crate) fn utf8_str(bytes: &[u8]) -> (r: Option<&str>)
    ensures
        r is Some <==> valid_utf8(bytes@),
        r matches Some(s) ==> s.spec_bytes() == bytes@,
{
    std::str::from_utf8(bytes).ok()
}

/// The first NUL is unique.
pub proof fn lemma_first_nul_unique(b: Seq<u8>, k1: int, k2: int)
    requires
        first_nul_at(b, k1),
        first_nul_at(b, k2),
    ensures
        k1 == k2,
{
    if k1 < k2 {
        assert(b.subrange(0, k2)[k1] == 0);
    } else if k2 < k1 {
        assert(b.subrange(0, k1)[k2] == 0);
    }
}

/// Bytes below 0x80 are each a whole UTF-8 character.
pub proof fn lemma_ascii_valid_utf8(b: Seq<u8>)
    requires
        forall|i: int| 0 <= i < b.len() ==> #[trigger] b[i] < 0x80,
    ensures
        valid_utf8(b),
    decreases b.len(),
{
    if b.len() > 0 {
        let rest = pop_first_scalar(b);
        assert(rest =~= b.subrange(1, b.len() as int));
        assert forall|i: int| 0 <= i < rest.len() implies #[trigger] rest[i] < 0x80 by {
            assert(rest[i] == b[i + 1]);
        }
        lemma_ascii_valid_utf8(rest);
    }
}

/// Position of the first NUL byte of `b`, if it holds one.
pub fn find_nul(b: &[u8]) -> (r: Option<usize>)
    ensures
        r matches Some(k) ==> first_nul_at(b@, k as int),
        r is None ==> nul_free(b@),
{
    let mut i: usize = 0;
    while i < b.len()
        invariant
            0 <= i <= b@.len(),
            nul_free(b@.subrange(0, i as int)),
        decreases b@.len() - i,
    {
        if b[i] == 0 {
            return Some(i);
        }
        assert forall|j: int| 0 <= j < i + 1 implies #[trigger] b@.subrange(0, i + 1)[j] != 0 by {
            if j < i {
                assert(b@.subrange(0, i as int)[j] == b@[j]);
            }
        }
        i = i + 1;
    }
    assert(b@.subrange(0, i as int) =~= b@);
    None
}

/// Reads the text held before the first NUL of `b`. Fails with
/// [`WgError::Decode`] when `b` holds no NUL or those bytes are not UTF-8.
pub fn c_text(b: &[u8]) -> (r: Result<String, WgError>)
    ensures
        r is Ok <==> (c_content(b@) matches Some(c) && valid_utf8(c)),
        r matches Ok(s) ==> s@ == decode_utf8(c_content(b@)->Some_0),
        r matches Err(e) ==> e == WgError::Decode,
{
    match find_nul(b) {
        None => {
            Err(WgError::Decode)
        },
        Some(k) => {
            proof {
                assert forall|j: int| first_nul_at(b@, j) implies j == k as int by {
                    lemma_first_nul_unique(b@, j, k as int);
                }
            }
            let content = vstd::slice::slice_subrange(b, 0, k);
            match utf8_str(content) {
                None => Err(WgError::Decode),
                Some(s) => Ok(s.to_owned()),
            }
        },
    }
}

} // verus!
