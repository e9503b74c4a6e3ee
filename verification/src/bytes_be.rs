//! Big-endian byte encoding of unsigned integers, used by the canonical
//! byte form of messages and envelopes that signatures cover.

use vstd::prelude::*;

verus! {

/// The integer denoted by a big-endian byte sequence.
pub open spec fn bytes_be_int(s: Seq<u8>) -> int
    decreases s.len(),
{
    if s.len() == 0 {
        0
    } else {
        bytes_be_int(s.drop_last()) * 256 + s.last()
    }
}

/// The `n`-byte big-endian form of `x` (most significant byte first).
pub open spec fn bytes_of(x: int, n: nat) -> Seq<u8>
    decreases n,
{
    if n == 0 {
        Seq::empty()
    } else {
        bytes_of(x / 256, (n - 1) as nat).push((x % 256) as u8)
    }
}

pub broadcast proof fn lemma_bytes_of_len(x: int, n: nat)
    ensures
        (#[trigger] bytes_of(x, n)).len() == n,
    decreases n,
{
    if n > 0 {
        lemma_bytes_of_len(x / 256, (n - 1) as nat);
    }
}

/// The value of 2^128, written as a product two literals can express.
pub proof fn lemma_pow2_128()
    ensures
        vstd::arithmetic::power2::pow2(128) == 0x10000000000000000int * 0x10000000000000000int,
{
    vstd::arithmetic::power2::lemma2_to64_rest();
    vstd::arithmetic::power2::lemma_pow2_adds(64, 64);
}

/// A big-endian byte sequence of length `n` denotes a value below `2^(8n)`.
pub proof fn lemma_bytes_be_int_bound(s: Seq<u8>)
    ensures
        0 <= bytes_be_int(s) < vstd::arithmetic::power2::pow2(8 * s.len()),
    decreases s.len(),
{
    vstd::arithmetic::power2::lemma2_to64();
    if s.len() == 0 {
    } else {
        let n = s.len();
        lemma_bytes_be_int_bound(s.drop_last());
        vstd::arithmetic::power2::lemma_pow2_adds(8 * (n - 1) as nat, 8);
        vstd::arithmetic::mul::lemma_mul_inequality(
            bytes_be_int(s.drop_last()),
            vstd::arithmetic::power2::pow2(8 * (n - 1) as nat) - 1,
            256,
        );
    }
}

/// Re-encoding the value of a byte sequence yields the sequence itself.
pub proof fn lemma_int_of_bytes(s: Seq<u8>)
    ensures
        bytes_of(bytes_be_int(s), s.len()) =~= s,
    decreases s.len(),
{
    if s.len() > 0 {
        let b = bytes_be_int(s);
        vstd::arithmetic::div_mod::lemma_fundamental_div_mod_converse(
            b,
            256,
            bytes_be_int(s.drop_last()),
            s.last() as int,
        );
        lemma_int_of_bytes(s.drop_last());
    }
}

/// Reading back the big-endian form of `x` yields `x`, for `x` in range.
pub proof fn lemma_bytes_of_int(x: int, n: nat)
    requires
        0 <= x < vstd::arithmetic::power2::pow2(8 * n),
    ensures
        bytes_be_int(bytes_of(x, n)) == x,
    decreases n,
{
    if n == 0 {
        assert(vstd::arithmetic::power2::pow2(0) == 1) by {
            vstd::arithmetic::power2::lemma2_to64();
        }
    } else {
        assert(vstd::arithmetic::power2::pow2(8 * n) == 256 * vstd::arithmetic::power2::pow2(
            (8 * (n - 1)) as nat,
        )) by {
            vstd::arithmetic::power2::lemma_pow2_adds(8, (8 * (n - 1)) as nat);
            vstd::arithmetic::power2::lemma2_to64();
        }
        lemma_bytes_of_int(x / 256, (n - 1) as nat);
        let s = bytes_of(x, n);
        assert(s.drop_last() =~= bytes_of(x / 256, (n - 1) as nat));
        assert(bytes_be_int(s) == (x / 256) * 256 + x % 256);
        assert((x / 256) * 256 + x % 256 == x) by {
            vstd::arithmetic::div_mod::lemma_fundamental_div_mod(x, 256);
        }
    }
}

/// Appends the `n`-byte big-endian form of `x` to `out`.
pub fn push_be(out: &mut Vec<u8>, x: u128, n: usize)
    requires
        n <= 16,
    ensures
        final(out)@ =~= old(out)@ + bytes_of(x as int, n as nat),
    decreases n,
{
    proof {
        lemma_bytes_of_len(x as int, n as nat);
    }
    if n > 0 {
        push_be(out, x / 256, n - 1);
        out.push((x % 256) as u8);
        proof {
            assert(final(out)@ =~= old(out)@ + bytes_of(x as int, n as nat));
        }
    }
}

/// Compares two byte vectors for equality of contents.
/// Copies the bytes between two positions.
pub fn sub_bytes(v: &Vec<u8>, start: usize, end: usize) -> (r: Vec<u8>)
    requires
        start <= end <= v@.len(),
    ensures
        r@ == v@.subrange(start as int, end as int),
{
    let mut out: Vec<u8> = Vec::new();
    let mut i: usize = start;
    while i < end
        invariant
            start <= i <= end,
            end <= v@.len(),
            out@ =~= v@.subrange(start as int, i as int),
        decreases end - i,
    {
        out.push(v[i]);
        proof {
            assert(out@ =~= v@.subrange(start as int, i + 1));
        }
        i = i + 1;
    }
    proof {
        assert(out@ =~= v@.subrange(start as int, end as int));
    }
    out
}

pub fn bytes_eq(a: &Vec<u8>, b: &Vec<u8>) -> (r: bool)
    ensures
        r == (a@ == b@),
{
    let r = a == b;
    proof {
        if r {
            assert(a@ =~= b@);
        } else {
            if a@ == b@ {
                assert(forall|i: int| 0 <= i < a@.len() ==> a@[i] == b@[i]);
                assert(false);
            }
        }
    }
    r
}

/// Reads `n` big-endian bytes starting at `start` as an integer.
pub fn read_be(s: &Vec<u8>, start: usize, n: usize) -> (r: u128)
    requires
        n <= 16,
        start + n <= s@.len(),
    ensures
        r as int == bytes_be_int(s@.subrange(start as int, start as int + n as int)),
{
    let slen: usize = s.len();
    let mut acc: u128 = 0;
    let mut k: usize = 0;
    proof {
        assert(s@.subrange(start as int, start as int) =~= Seq::<u8>::empty());
        vstd::arithmetic::power2::lemma2_to64();
    }
    while k < n
        invariant
            k <= n,
            n <= 16,
            start + n <= slen,
            slen == s@.len(),
            acc as int == bytes_be_int(s@.subrange(start as int, start as int + k as int)),
            acc < vstd::arithmetic::power2::pow2((8 * k) as nat),
        decreases n - k,
    {
        proof {
            vstd::arithmetic::power2::lemma_pow2_adds((8 * k) as nat, 8);
            vstd::arithmetic::power2::lemma2_to64();
            vstd::arithmetic::mul::lemma_mul_inequality(
                acc as int,
                vstd::arithmetic::power2::pow2((8 * k) as nat) - 1,
                256,
            );
            if 8 * (k + 1) < 128 {
                vstd::arithmetic::power2::lemma_pow2_strictly_increases(
                    (8 * (k + 1)) as nat,
                    128,
                );
            }
            lemma_pow2_128();
            assert(s@.subrange(start as int, start as int + k as int + 1).drop_last()
                =~= s@.subrange(start as int, start as int + k as int));
        }
        acc = acc * 256 + (s[start + k] as u128);
        k = k + 1;
    }
    acc
}

} // verus!
