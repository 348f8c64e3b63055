//! Decoding of the device-name list: a buffer of NUL-terminated names that
//! is itself ended by a second NUL (`first\0second\0\0`).
use vstd::prelude::*;
use vstd::string::*;
use vstd::utf8::*;
use crate::error::WgError;
use crate::text::{nul_free, utf8_str};

verus! {

broadcast use group_utf8_lib;

/// Upper bound on the number of bytes read from a name-list buffer.
pub const MAX_SCAN_LEN: usize = 65536;

/// The scan stops at `i`: the byte there is NUL and so is the one before it,
/// where a NUL is taken to precede the buffer.
pub open spec fn stops_at(b: Seq<u8>, i: int) -> bool {
    &&& 0 <= i < b.len()
    &&& b[i] == 0
    &&& (i == 0 || b[i - 1] == 0)
}

/// `n` is the first place where the scan stops, within the bound on the
/// scan's length. The scanned region is the `n` bytes before it: each name
/// with its NUL, without the final NUL.
pub open spec fn scanned_len(b: Seq<u8>, n: int) -> bool {
    &&& n < MAX_SCAN_LEN
    &&& stops_at(b, n)
    &&& forall|j: int| 0 <= j < n ==> !stops_at(b, j)
}

/// Pieces completed so far, and the piece being read, after splitting `r`
/// at each NUL.
pub open spec fn split_state(r: Seq<u8>) -> (Seq<Seq<u8>>, Seq<u8>)
    decreases r.len(),
{
    if r.len() == 0 {
        (Seq::empty(), Seq::empty())
    } else {
        let prev = split_state(r.drop_last());
        if r.last() == 0 {
            (prev.0.push(prev.1), Seq::empty())
        } else {
            (prev.0, prev.1.push(r.last()))
        }
    }
}

/// `r` split at each NUL, where a NUL ends a piece and an empty last piece is
/// dropped.
pub open spec fn split_terminated(r: Seq<u8>) -> Seq<Seq<u8>> {
    let st = split_state(r);
    if st.1.len() == 0 {
        st.0
    } else {
        st.0.push(st.1)
    }
}

/// The names that a buffer holds: none when it is empty up to the
/// terminator, an error when no terminator is found within the bound on the
/// scan or the scanned region is not UTF-8, else each piece of the region
/// decoded.
pub open spec fn decoded_names(b: Seq<u8>) -> Result<Option<Seq<Seq<char>>>, WgError> {
    if exists|n: int| scanned_len(b, n) {
        let n = choose|n: int| scanned_len(b, n);
        let region = b.subrange(0, n);
        if n == 0 {
            Ok(None)
        } else if valid_utf8(region) {
            Ok(Some(split_terminated(region).map_values(|p: Seq<u8>| decode_utf8(p))))
        } else {
            Err(WgError::Decode)
        }
    } else {
        Err(WgError::Unterminated)
    }
}

/// The pieces `ps` laid out one after another, each followed by a NUL.
pub open spec fn join_terminated(ps: Seq<Seq<u8>>) -> Seq<u8>
    decreases ps.len(),
{
    if ps.len() == 0 {
        Seq::empty()
    } else {
        join_terminated(ps.drop_last()) + ps.last().push(0)
    }
}

/// The region that the scan of `b` covers, when it stops within its bound.
pub open spec fn scanned_region(b: Seq<u8>) -> Seq<u8> {
    b.subrange(0, choose|n: int| scanned_len(b, n))
}

/// The UTF-8 bytes of each string of `v`.
pub open spec fn name_bytes(v: Seq<String>) -> Seq<Seq<u8>> {
    v.map_values(|s: String| encode_utf8(s@))
}

/// The strings of `v`, as character sequences.
pub open spec fn string_views(v: Seq<String>) -> Seq<Seq<char>> {
    v.map_values(|s: String| s@)
}

/// The place where the scan stops is unique.
pub proof fn lemma_scanned_len_unique(b: Seq<u8>, n1: int, n2: int)
    requires
        scanned_len(b, n1),
        scanned_len(b, n2),
    ensures
        n1 == n2,
{
}

/// A buffer that starts with NUL holds no names.
pub proof fn lemma_leading_nul_means_no_devices(b: Seq<u8>)
    requires
        b.len() > 0,
        b[0] == 0,
    ensures
        decoded_names(b) == Ok::<Option<Seq<Seq<char>>>, WgError>(None),
{
    assert(scanned_len(b, 0));
    let n = choose|n: int| scanned_len(b, n);
    lemma_scanned_len_unique(b, n, 0);
}

/// Invalid UTF-8 anywhere in the scanned region fails the whole decode;
/// nothing is replaced or skipped.
pub proof fn lemma_invalid_utf8_fails(b: Seq<u8>, n: int)
    requires
        scanned_len(b, n),
        !valid_utf8(b.subrange(0, n)),
    ensures
        decoded_names(b) == Err::<Option<Seq<Seq<char>>>, WgError>(WgError::Decode),
{
    let m = choose|m: int| scanned_len(b, m);
    lemma_scanned_len_unique(b, m, n);
    assert(valid_utf8(Seq::<u8>::empty()));
}

proof fn lemma_split_state(r: Seq<u8>)
    ensures
        join_terminated(split_state(r).0) + split_state(r).1 == r,
        nul_free(split_state(r).1),
        forall|j: int|
            0 <= j < split_state(r).0.len() ==> nul_free(#[trigger] split_state(r).0[j]),
        (forall|i: int| 0 <= i < r.len() ==> !stops_at(r, i)) ==> (forall|j: int|
            0 <= j < split_state(r).0.len() ==> #[trigger] split_state(r).0[j].len() > 0) && (
        r.len() > 0 && r.last() != 0 ==> split_state(r).1.len() > 0),
    decreases r.len(),
{
    if r.len() > 0 {
        let r0 = r.drop_last();
        lemma_split_state(r0);
        let prev = split_state(r0);
        let st = split_state(r);
        assert(r =~= r0.push(r.last()));
        if r.last() == 0 {
            assert(st.0.drop_last() =~= prev.0);
            assert(join_terminated(st.0) == join_terminated(prev.0) + prev.1.push(0));
            assert(join_terminated(st.0) + st.1 =~= r);
            assert forall|j: int| 0 <= j < st.0.len() implies nul_free(#[trigger] st.0[j]) by {
                if j < prev.0.len() {
                    assert(st.0[j] == prev.0[j]);
                }
            }
        } else {
            assert(join_terminated(prev.0) + prev.1.push(r.last()) =~= (join_terminated(prev.0)
                + prev.1).push(r.last()));
            assert(join_terminated(st.0) + st.1 =~= r);
            assert forall|i: int| 0 <= i < st.1.len() implies st.1[i] != 0 by {
                if i < prev.1.len() {
                    assert(st.1[i] == prev.1[i]);
                }
            }
        }
        if forall|i: int| 0 <= i < r.len() ==> !stops_at(r, i) {
            assert forall|i: int| 0 <= i < r0.len() implies !stops_at(r0, i) by {
                assert(!stops_at(r, i));
            }
            if r.last() == 0 {
                assert(!stops_at(r, r.len() - 1));
                assert forall|j: int| 0 <= j < st.0.len() implies #[trigger] st.0[j].len() > 0 by {
                    if j < prev.0.len() {
                        assert(st.0[j] == prev.0[j]);
                    }
                }
            }
        }
    }
}

/// The scanned region is its pieces laid out again, each followed by its
/// NUL: decoding copies the region byte for byte, in order. Each piece is
/// non-empty and holds no NUL.
pub proof fn lemma_region_pieces(b: Seq<u8>, n: int)
    requires
        scanned_len(b, n),
        n > 0,
    ensures
        join_terminated(split_terminated(b.subrange(0, n))) == b.subrange(0, n),
        forall|j: int|
            0 <= j < split_terminated(b.subrange(0, n)).len() ==> #[trigger] split_terminated(
                b.subrange(0, n),
            )[j].len() > 0 && nul_free(split_terminated(b.subrange(0, n))[j]),
{
    let region = b.subrange(0, n);
    assert(region.last() == 0);
    assert forall|i: int| 0 <= i < region.len() implies !stops_at(region, i) by {
        assert(!stops_at(b, i));
    }
    lemma_split_state(region);
    assert(split_state(region).1.len() == 0);
    assert(join_terminated(split_state(region).0) =~= join_terminated(split_state(region).0)
        + split_state(region).1);
}

/// Length of the scanned region: the scan walks forward, remembering the
/// previous byte, and stops at the first pair of NUL bytes. `None` when no
/// such pair ends within the first [`MAX_SCAN_LEN`] bytes of `buf`.
pub fn determine_length(buf: &[u8]) -> (r: Option<usize>)
    ensures
        r matches Some(n) ==> scanned_len(buf@, n as int),
        r is None ==> forall|i: int| 0 <= i < MAX_SCAN_LEN ==> !stops_at(buf@, i),
{
    let mut prev: u8 = 0;
    let mut len: usize = 0;
    while len < buf.len() && len < MAX_SCAN_LEN
        invariant
            0 <= len <= buf@.len(),
            prev == (if len == 0 { 0u8 } else { buf@[len - 1] }),
            forall|j: int| 0 <= j < len ==> !stops_at(buf@, j),
        decreases buf@.len() - len,
    {
        let current = buf[len];
        if current == 0 && prev == 0 {
            return Some(len);
        }
        prev = current;
        len = len + 1;
    }
    None
}

proof fn lemma_boundary_after_nul(b: Seq<u8>)
    requires
        valid_utf8(b),
        b.len() > 0,
        b[0] == 0,
    ensures
        is_char_boundary(b, 1),
{
    reveal_with_fuel(is_char_boundary, 2);
    assert(pop_first_scalar(b).len() >= 0);
}

/// Splits `r` at each NUL into owned strings (see [`split_terminated`]),
/// after checking that the whole of `r` is UTF-8.
pub fn split_names(r: &[u8]) -> (res: Result<Vec<String>, WgError>)
    ensures
        res is Ok <==> valid_utf8(r@),
        res matches Ok(v) ==> string_views(v@) == split_terminated(r@).map_values(
            |p: Seq<u8>| decode_utf8(p),
        ),
        res matches Ok(v) ==> name_bytes(v@) == split_terminated(r@),
        res matches Err(e) ==> e == WgError::Decode,
{
    let text = match utf8_str(r) {
        None => {
            return Err(WgError::Decode);
        },
        Some(s) => s,
    };
    let mut names: Vec<String> = Vec::new();
    let mut rest: &str = text;
    let mut start: usize = 0;
    let mut i: usize = 0;
    while i < r.len()
        invariant
            0 <= start <= i <= r@.len(),
            valid_utf8(r@),
            rest.spec_bytes() == r@.subrange(start as int, r@.len() as int),
            split_state(r@.subrange(0, i as int)).1 == r@.subrange(start as int, i as int),
            names@.len() == split_state(r@.subrange(0, i as int)).0.len(),
            forall|j: int|
                0 <= j < names@.len() ==> #[trigger] names@[j]@ == decode_utf8(
                    split_state(r@.subrange(0, i as int)).0[j],
                ),
            forall|j: int|
                0 <= j < names@.len() ==> encode_utf8(#[trigger] names@[j]@) == split_state(
                    r@.subrange(0, i as int),
                ).0[j],
        decreases r@.len() - i,
    {
        assert(r@.subrange(0, i + 1).drop_last() =~= r@.subrange(0, i as int));
        if r[i] == 0 {
            let k = i - start;
            let ghost bytes = rest.spec_bytes();
            proof {
                encode_utf8_valid_utf8(rest@);
                assert(bytes[k as int] == 0);
                is_char_boundary_iff_not_is_continuation_byte(bytes, k as int);
            }
            let (head, tail) = rest.split_at(k);
            assert(head.spec_bytes() =~= r@.subrange(start as int, i as int));
            proof {
                valid_utf8_split(bytes, k as int);
                lemma_boundary_after_nul(tail.spec_bytes());
            }
            let (_, after) = tail.split_at(1);
            assert(after.spec_bytes() =~= r@.subrange(i + 1, r@.len() as int));
            names.push(head.to_owned());
            rest = after;
            start = i + 1;
            assert(r@.subrange(start as int, i + 1) =~= Seq::<u8>::empty());
        } else {
            assert(r@.subrange(start as int, i + 1) =~= r@.subrange(start as int, i as int).push(
                r@[i as int],
            ));
        }
        i = i + 1;
    }
    assert(r@.subrange(0, r@.len() as int) =~= r@);
    if start < r.len() {
        names.push(rest.to_owned());
    }
    assert(string_views(names@) =~= split_terminated(r@).map_values(|p: Seq<u8>| decode_utf8(p)));
    assert(name_bytes(names@) =~= split_terminated(r@));
    Ok(names)
}

/// Decodes a device-name list buffer; `None` stands for a null buffer. The
/// result is newly allocated and never refers to `buffer`. A null or empty
/// buffer means no devices; a buffer whose scanned region is not UTF-8 fails
/// as a whole.
pub fn list_device_names(buffer: Option<&[u8]>) -> (r: Result<Option<Vec<String>>, WgError>)
    ensures
        buffer is None ==> r == Ok::<Option<Vec<String>>, WgError>(None),
        buffer matches Some(b) ==> match r {
            Ok(None) => decoded_names(b@) == Ok::<Option<Seq<Seq<char>>>, WgError>(None),
            Ok(Some(v)) => decoded_names(b@) == Ok::<Option<Seq<Seq<char>>>, WgError>(
                Some(string_views(v@)),
            ),
            Err(e) => decoded_names(b@) == Err::<Option<Seq<Seq<char>>>, WgError>(e),
        },
        r matches Ok(Some(v)) ==> buffer is Some && join_terminated(name_bytes(v@))
            == scanned_region(buffer->Some_0@),
{
    let b = match buffer {
        None => {
            return Ok(None);
        },
        Some(b) => b,
    };
    match determine_length(b) {
        None => Err(WgError::Unterminated),
        Some(n) => {
            proof {
                assert forall|m: int| scanned_len(b@, m) implies m == n as int by {
                    lemma_scanned_len_unique(b@, m, n as int);
                }
            }
            if n == 0 {
                return Ok(None);
            }
            let region = vstd::slice::slice_subrange(b, 0, n);
            match split_names(region) {
                Ok(names) => {
                    proof {
                        lemma_region_pieces(b@, n as int);
                    }
                    Ok(Some(names))
                },
                Err(e) => Err(e),
            }
        },
    }
}

/// The scan of a buffer `b` read so far has ended: at a pair of NUL bytes,
/// or at the bound on its length.
pub open spec fn scan_finished(b: Seq<u8>) -> bool {
    ||| b.len() >= MAX_SCAN_LEN
    ||| (b.len() > 0 && stops_at(b, b.len() - 1))
}

/// The scan, fed one byte at a time, for a reader that may not look past
/// the terminator of a buffer whose length it does not know.
pub struct TerminatorScan {
    prev: u8,
    len: usize,
    done: bool,
    seen: Ghost<Seq<u8>>,
}

impl View for TerminatorScan {
    type V = Seq<u8>;

    /// The bytes fed so far.
    closed spec fn view(&self) -> Seq<u8> {
        self.seen@
    }
}

impl TerminatorScan {
    #[verifier::type_invariant]
    spec fn inv(self) -> bool {
        &&& self.len == self.seen@.len()
        &&& self.len <= MAX_SCAN_LEN
        &&& self.prev == (if self.len == 0 { 0u8 } else { self.seen@.last() })
        &&& self.done == scan_finished(self.seen@)
        &&& forall|j: int| 0 <= j < self.len - 1 ==> !stops_at(self.seen@, j)
    }

    /// A scan that has seen nothing yet.
    pub fn new() -> (r: TerminatorScan)
        ensures
            r@ == Seq::<u8>::empty(),
    {
        TerminatorScan { prev: 0, len: 0, done: false, seen: Ghost(Seq::empty()) }
    }

    /// Feeds the next byte; `true` means the scan has ended and no further
    /// byte may be read. Once ended, the scan ignores what it is fed.
    pub fn feed(&mut self, byte: u8) -> (stop: bool)
        ensures
            scan_finished(old(self)@) ==> final(self)@ == old(self)@ && stop,
            !scan_finished(old(self)@) ==> final(self)@ == old(self)@.push(byte) && stop
                == scan_finished(final(self)@),
            forall|j: int| 0 <= j < final(self)@.len() - 1 ==> !stops_at(final(self)@, j),
    {
        proof {
            use_type_invariant(&*self);
        }
        if self.done {
            return true;
        }
        let ghost seen = self.seen@.push(byte);
        let len = self.len + 1;
        let stop = (byte == 0 && self.prev == 0) || len >= MAX_SCAN_LEN;
        assert(forall|j: int| 0 <= j < len - 1 ==> !stops_at(self.seen@, j) ==> !stops_at(seen, j));
        *self = TerminatorScan { prev: byte, len, done: stop, seen: Ghost(seen) };
        stop
    }
}

} // verus!
