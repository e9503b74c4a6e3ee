//! The payload codec: canonical wire form of byte blobs, and
//! length-prefixed chunking with order-tolerant reassembly.

use vstd::prelude::*;

use crate::crypto::b58_decode;
use crate::crypto::b58_encode;
use crate::crypto::b58dec_of;
use crate::crypto::b58_of;
use crate::crypto::gunzip_of;
use crate::crypto::gzip_decode;
use crate::crypto::gzip_encode;
use crate::crypto::gzip_of;

verus! {

/// A blob in wire form: the base58 bytes of the gzipped data.
#[derive(Clone, Debug)]
pub struct Encoded {
    pub data: Vec<u8>,
}

impl Encoded {
    /// The bytes the wire form decodes back to, if well formed.
    pub open spec fn decoded(self) -> Option<Seq<u8>> {
        match b58dec_of(self.data@) {
            Some(z) => gunzip_of(z),
            None => None,
        }
    }
}

impl PartialEq for Encoded {
    fn eq(&self, other: &Encoded) -> (r: bool) {
        let r = self.data == other.data;
        proof {
            if r {
                assert(self.data@ =~= other.data@);
            } else {
                if self.data@ == other.data@ {
                    assert(forall|i: int|
                        0 <= i < self.data@.len() ==> self.data@[i] == other.data@[i]);
                    assert(false);
                }
            }
        }
        r
    }
}

impl vstd::std_specs::cmp::PartialEqSpecImpl for Encoded {
    open spec fn obeys_eq_spec() -> bool {
        true
    }

    open spec fn eq_spec(&self, other: &Encoded) -> bool {
        self.data@ == other.data@
    }
}

/// Copies a wire-form blob.
pub fn clone_encoded(e: &Encoded) -> (r: Encoded)
    ensures
        r.data@ == e.data@,
{
    let data = e.data.clone();
    proof {
        assert(data@ =~= e.data@);
    }
    Encoded { data }
}

/// Encodes a byte blob into its wire form: gzip, then base58.
pub fn encode_bytes(b: &Vec<u8>) -> (r: Encoded)
    ensures
        r.data@ == b58_of(gzip_of(b@)),
        r.decoded() == Some(b@),
{
    let z = gzip_encode(b);
    Encoded { data: b58_encode(&z) }
}

/// Decodes a wire-form blob; fails exactly on ill-formed input.
pub fn decode_bytes(e: &Encoded) -> (r: Option<Vec<u8>>)
    ensures
        r is Some <==> e.decoded() is Some,
        r matches Some(v) ==> e.decoded() == Some(v@),
{
    match b58_decode(&e.data) {
        Some(z) => gzip_decode(&z),
        None => None,
    }
}

/// One piece of a chunked byte message.
#[derive(Clone, Debug)]
pub struct Chunk {
    /// Identifier shared by every chunk of one message.
    pub message_id: u128,
    /// Position of this chunk's body within the message.
    pub index: usize,
    /// Number of chunks the message was split into.
    pub total: usize,
    /// At most `mtu` bytes of the message.
    pub body: Vec<u8>,
}

/// The number of chunks a message of `len` bytes yields at a given mtu.
pub open spec fn spec_n_chunks(len: int, mtu: int) -> int {
    (len + mtu - 1) / mtu
}

/// The body bytes of the chunk at position `i`.
pub open spec fn spec_chunk_body(b: Seq<u8>, mtu: int, i: int) -> Seq<u8> {
    b.subrange(
        i * mtu,
        if (i + 1) * mtu <= b.len() {
            (i + 1) * mtu
        } else {
            b.len() as int
        },
    )
}

/// What it means for a chunk sequence to be the chunking of `b` at `mtu`.
pub open spec fn is_chunking(cs: Seq<Chunk>, b: Seq<u8>, mtu: int, mid: u128) -> bool {
    &&& cs.len() == spec_n_chunks(b.len() as int, mtu)
    &&& forall|i: int|
        0 <= i < cs.len() ==> {
            &&& (#[trigger] cs[i]).message_id == mid
            &&& cs[i].index == i
            &&& cs[i].total == cs.len()
            &&& cs[i].body@ == spec_chunk_body(b, mtu, i)
        }
}

/// Chunk-count bounds: every position except the last covers a full mtu.
pub proof fn lemma_n_chunks(len: int, mtu: int)
    requires
        mtu >= 1,
        len >= 0,
    ensures
        len == 0 ==> spec_n_chunks(len, mtu) == 0,
        len > 0 ==> (spec_n_chunks(len, mtu) - 1) * mtu < len <= spec_n_chunks(len, mtu) * mtu,
        spec_n_chunks(len, mtu) <= len,
{
    let n = spec_n_chunks(len, mtu);
    let q = (len + mtu - 1) / mtu;
    let r = (len + mtu - 1) % mtu;
    vstd::arithmetic::div_mod::lemma_fundamental_div_mod(len + mtu - 1, mtu);
    vstd::arithmetic::div_mod::lemma_mod_bound(len + mtu - 1, mtu);
    assert(len + mtu - 1 == mtu * q + r);
    if len == 0 {
        vstd::arithmetic::div_mod::lemma_basic_div(mtu - 1, mtu);
    } else {
        assert(q * mtu == mtu * q) by (nonlinear_arith);
        assert((q - 1) * mtu == mtu * q - mtu) by (nonlinear_arith);
        assert(q <= len) by {
            if q > len {
                assert(mtu * q >= mtu * (len + 1)) by (nonlinear_arith)
                    requires
                        q >= len + 1,
                        mtu >= 1,
                ;
                assert(mtu * (len + 1) >= len + mtu) by (nonlinear_arith)
                    requires
                        mtu >= 1,
                        len >= 0,
                ;
            }
        }
        if q < 0 {
            assert(mtu * q <= -mtu) by (nonlinear_arith)
                requires
                    q <= -1,
                    mtu >= 1,
            ;
        }
    }
}

/// Splits `b` into chunks of at most `mtu` bytes, tagged with `mid`.
pub fn chunk(b: &Vec<u8>, mtu: usize, mid: u128) -> (r: Vec<Chunk>)
    requires
        mtu >= 1,
        b@.len() + mtu <= usize::MAX,
    ensures
        is_chunking(r@, b@, mtu as int, mid),
{
    let len = b.len();
    proof {
        lemma_n_chunks(len as int, mtu as int);
    }
    let n = (len + mtu - 1) / mtu;
    let mut out: Vec<Chunk> = Vec::new();
    let mut i: usize = 0;
    while i < n
        invariant
            mtu >= 1,
            len == b@.len(),
            len + mtu <= usize::MAX,
            n == spec_n_chunks(len as int, mtu as int),
            n <= len,
            i <= n,
            out@.len() == i,
            forall|k: int|
                0 <= k < i ==> {
                    &&& (#[trigger] out@[k]).message_id == mid
                    &&& out@[k].index == k
                    &&& out@[k].total == n
                    &&& out@[k].body@ == spec_chunk_body(b@, mtu as int, k)
                },
        decreases n - i,
    {
        proof {
            lemma_n_chunks(len as int, mtu as int);
            assert(i * mtu <= (n - 1) * mtu) by {
                vstd::arithmetic::mul::lemma_mul_inequality(i as int, n - 1, mtu as int);
            }
            assert((i + 1) * mtu <= n * mtu) by {
                vstd::arithmetic::mul::lemma_mul_inequality(i + 1, n as int, mtu as int);
            }
            assert((i + 1) * mtu == i * mtu + mtu) by (nonlinear_arith);
        }
        let start = i * mtu;
        let end = if start + mtu <= len {
            start + mtu
        } else {
            len
        };
        let mut body: Vec<u8> = Vec::new();
        let mut j: usize = start;
        while j < end
            invariant
                start <= j <= end,
                end <= len,
                len == b@.len(),
                body@ =~= b@.subrange(start as int, j as int),
            decreases end - j,
        {
            body.push(b[j]);
            proof {
                assert(body@ =~= b@.subrange(start as int, j as int + 1));
            }
            j = j + 1;
        }
        out.push(Chunk { message_id: mid, index: i, total: n, body });
        i = i + 1;
    }
    out
}

/// The body of the unique chunk with a given index.
pub open spec fn body_at(cs: Seq<Chunk>, idx: int) -> Seq<u8> {
    let k = choose|k: int| 0 <= k < cs.len() && cs[k].index == idx;
    cs[k].body@
}

/// The first `t` chunk bodies in index order, concatenated.
pub open spec fn assembled_prefix(cs: Seq<Chunk>, t: int) -> Seq<u8>
    decreases t,
{
    if t <= 0 {
        Seq::empty()
    } else {
        assembled_prefix(cs, t - 1) + body_at(cs, t - 1)
    }
}

/// The whole message a chunk sequence assembles to.
pub open spec fn assembled(cs: Seq<Chunk>) -> Seq<u8> {
    assembled_prefix(cs, cs[0].total as int)
}

/// A complete, duplicate-free chunk set: one shared message id, one shared
/// total, exactly `total` chunks with pairwise distinct indices below it.
pub open spec fn chunks_wf(cs: Seq<Chunk>) -> bool {
    &&& cs.len() > 0
    &&& cs.len() == cs[0].total
    &&& forall|j: int|
        0 <= j < cs.len() ==> (#[trigger] cs[j]).message_id == cs[0].message_id && cs[j].total
            == cs[0].total && cs[j].index < cs[0].total
    &&& forall|j1: int, j2: int|
        0 <= j1 < j2 < cs.len() ==> (#[trigger] cs[j1]).index != (#[trigger] cs[j2]).index
}

/// Some chunk of `cs` carries the index `idx`.
pub open spec fn has_index(cs: Seq<Chunk>, idx: int) -> bool {
    exists|j: int| 0 <= j < cs.len() && (#[trigger] cs[j]).index == idx
}

/// Every index below `total` is hit by some chunk of a well-formed set.
pub proof fn lemma_chunks_cover(cs: Seq<Chunk>)
    requires
        chunks_wf(cs),
    ensures
        forall|idx: int| 0 <= idx < cs.len() ==> #[trigger] has_index(cs, idx),
{
    let n = cs.len() as int;
    let indices = Seq::new(cs.len(), |j: int| cs[j].index as int);
    assert(indices.no_duplicates());
    indices.unique_seq_to_set();
    let range = vstd::set_lib::set_int_range(0, n);
    vstd::set_lib::lemma_int_range(0, n);
    assert(indices.to_set().subset_of(range));
    vstd::set_lib::lemma_len_subset(indices.to_set(), range);
    assert forall|idx: int| 0 <= idx < n implies #[trigger] has_index(cs, idx) by {
        if !indices.to_set().contains(idx) {
            assert(indices.to_set().subset_of(range.remove(idx)));
            assert(range.remove(idx).len() == n - 1) by {
                assert(range.contains(idx));
            }
            vstd::set_lib::lemma_len_subset(indices.to_set(), range.remove(idx));
            assert(false);
        }
        let j = choose|j: int| 0 <= j < indices.len() && indices[j] == idx;
        assert(cs[j].index == idx);
    }
}

/// Hops a chunked message may wait for its missing pieces, in seconds.
pub const DEFAULT_CHUNK_WINDOW: u64 = 30;

/// The chunk-window decision: a partial message whose first chunk came
/// in more than `window` seconds ago is dropped, a complete one and a
/// fresh one are kept. The embedding hands in the clock readings.
pub fn chunk_window_check(first_seen: u64, now: u64, window: u64, complete: bool) -> (r: Result<
    (),
    crate::error::Error,
>)
    ensures
        r is Ok <==> (complete || now <= first_seen + window),
        !(complete || now <= first_seen + window) ==> r == Err::<(), crate::error::Error>(
            crate::error::Error::ChunkTimeout,
        ),
{
    if complete {
        return Ok(());
    }
    let deadline: u64 = if first_seen > u64::MAX - window {
        u64::MAX
    } else {
        first_seen + window
    };
    if now <= deadline {
        Ok(())
    } else {
        Err(crate::error::Error::ChunkTimeout)
    }
}

/// Reassembles chunks into the original message, in any arrival order.
/// Succeeds exactly on the empty set (empty message) or a complete,
/// duplicate-free set, and then returns the bodies joined in index order.
pub fn reassemble(cs: &Vec<Chunk>) -> (r: Option<Vec<u8>>)
    ensures
        r is Some <==> (cs@.len() == 0 || chunks_wf(cs@)),
        cs@.len() == 0 ==> (r matches Some(v) && v@ =~= Seq::<u8>::empty()),
        cs@.len() > 0 && r is Some ==> (r matches Some(v) && v@ =~= assembled(cs@)),
{
    let m = cs.len();
    if m == 0 {
        return Some(Vec::new());
    }
    let total = cs[0].total;
    let mid = cs[0].message_id;
    if m != total {
        proof {
            assert(!chunks_wf(cs@));
        }
        return None;
    }
    let mut pos: Vec<usize> = Vec::new();
    let mut t: usize = 0;
    while t < total
        invariant
            t <= total,
            pos@.len() == t,
            forall|x: int| 0 <= x < t ==> pos@[x] == m,
        decreases total - t,
    {
        pos.push(m);
        t = t + 1;
    }
    let mut k: usize = 0;
    while k < m
        invariant
            k <= m,
            m == cs@.len(),
            m == total,
            total == cs@[0].total,
            mid == cs@[0].message_id,
            pos@.len() == total,
            forall|j: int|
                0 <= j < k ==> (#[trigger] cs@[j]).message_id == mid && cs@[j].total == total
                    && cs@[j].index < total,
            forall|j: int|
                0 <= j < k ==> pos@[(#[trigger] cs@[j]).index as int] == j,
            forall|x: int|
                0 <= x < total && #[trigger] pos@[x] != m ==> pos@[x] < k && cs@[pos@[x] as int].index == x,
        decreases m - k,
    {
        let c_index = cs[k].index;
        let c_total = cs[k].total;
        let c_mid = cs[k].message_id;
        if c_mid != mid || c_total != total || c_index >= total {
            proof {
                assert(!chunks_wf(cs@));
            }
            return None;
        }
        if pos[c_index] != m {
            proof {
                let j0 = pos@[c_index as int] as int;
                assert(cs@[j0].index == cs@[k as int].index);
                assert(!chunks_wf(cs@));
            }
            return None;
        }
        let ghost pos0 = pos@;
        pos[c_index] = k;
        proof {
            assert(pos@ =~= pos0.update(c_index as int, k));
            assert forall|x: int| 0 <= x < total && #[trigger] pos@[x] != m implies pos@[x] < k
                + 1 && cs@[pos@[x] as int].index == x by {
                if x == c_index as int {
                    assert(pos@[x] == k);
                    assert(cs@[k as int].index == c_index as int);
                } else {
                    assert(pos@[x] == pos0[x]);
                }
            }
        }
        k = k + 1;
    }
    proof {
        assert(chunks_wf(cs@));
        lemma_chunks_cover(cs@);
        assert forall|x: int| 0 <= x < total implies (#[trigger] pos@[x]) < m && cs@[pos@[x] as int].index
            == x by {
            assert(has_index(cs@, x));
            let j = choose|j: int| 0 <= j < cs@.len() && (#[trigger] cs@[j]).index == x;
            assert(pos@[cs@[j].index as int] == j);
            assert(pos@[x] == j);
        }
    }
    let mut out: Vec<u8> = Vec::new();
    let mut idx: usize = 0;
    while idx < total
        invariant
            idx <= total,
            m == cs@.len(),
            m == total,
            chunks_wf(cs@),
            pos@.len() == total,
            forall|x: int| 0 <= x < total ==> (#[trigger] pos@[x]) < m,
            forall|x: int| 0 <= x < total ==> (#[trigger] cs@[pos@[x] as int]).index == x,
            out@ =~= assembled_prefix(cs@, idx as int),
        decreases total - idx,
    {
        let p = pos[idx];
        let blen = cs[p].body.len();
        let mut j: usize = 0;
        while j < blen
            invariant
                j <= blen,
                p < cs@.len(),
                blen == cs@[p as int].body@.len(),
                out@ =~= assembled_prefix(cs@, idx as int) + cs@[p as int].body@.subrange(
                    0,
                    j as int,
                ),
            decreases blen - j,
        {
            out.push(cs[p].body[j]);
            proof {
                assert(out@ =~= assembled_prefix(cs@, idx as int) + cs@[p as int].body@.subrange(
                    0,
                    j as int + 1,
                ));
            }
            j = j + 1;
        }
        proof {
            let kk = choose|kk: int| 0 <= kk < cs@.len() && cs@[kk].index == idx as int;
            assert(cs@[kk].index == cs@[pos@[idx as int] as int].index);
            if kk != pos@[idx as int] as int {
                assert(false);
            }
            assert(body_at(cs@, idx as int) == cs@[p as int].body@);
            assert(cs@[p as int].body@.subrange(0, blen as int) =~= cs@[p as int].body@);
            assert(out@ =~= assembled_prefix(cs@, idx as int + 1));
        }
        idx = idx + 1;
    }
    Some(out)
}

} // verus!
