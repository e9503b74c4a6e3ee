//! Node identifiers: 160-bit positions on the Chord ring.
//!
//! A `Did` is both a routable peer address and a ring position. The ring
//! uses arithmetic mod 2^160; all ordering predicates are arcs walked
//! clockwise.

use vstd::prelude::*;

use crate::bytes_be::bytes_be_int;
use crate::bytes_be::bytes_of;
use crate::bytes_be::lemma_bytes_of_int;
use crate::bytes_be::lemma_bytes_of_len;
use crate::bytes_be::push_be;
use crate::bytes_be::read_be;

verus! {

/// 2^128, the weight of the high limb.
pub open spec fn lo_size() -> int {
    0x10000000000000000int * 0x10000000000000000int
}

/// 2^160, the size of the identifier ring.
pub open spec fn ring_size() -> int {
    lo_size() * 0x100000000
}

/// A 160-bit ring identifier, split into a 32-bit high limb and a
/// 128-bit low limb.
#[derive(Clone, Copy, Debug, PartialEq, Eq, Structural)]
pub struct Did {
    pub hi: u32,
    pub lo: u128,
}

impl Did {
    /// The identifier as an integer in `[0, 2^160)`.
    pub open spec fn value(self) -> int {
        self.hi * lo_size() + self.lo
    }

    pub proof fn lemma_value_range(self)
        ensures
            0 <= self.value() < ring_size(),
    {
        lemma_limb_order(self, self);
    }

    pub fn from_parts(hi: u32, lo: u128) -> (r: Did)
        ensures
            r.hi == hi,
            r.lo == lo,
    {
        Did { hi, lo }
    }

    /// Strict numeric order of ring positions.
    pub fn lt(&self, other: &Did) -> (r: bool)
        ensures
            r == (self.value() < other.value()),
    {
        proof {
            lemma_limb_order(*self, *other);
        }
        self.hi < other.hi || (self.hi == other.hi && self.lo < other.lo)
    }

    /// Adds `other` to `self` on the ring (mod 2^160).
    pub fn ring_add(&self, other: &Did) -> (r: Did)
        ensures
            r.value() == (self.value() + other.value()) % ring_size(),
    {
        let (lo, carry): (u128, u64) = if self.lo <= u128::MAX - other.lo {
            (self.lo + other.lo, 0)
        } else {
            (self.lo - (u128::MAX - other.lo) - 1, 1)
        };
        let hi_sum: u64 = self.hi as u64 + other.hi as u64 + carry;
        let hi: u32 = (hi_sum % 0x100000000) as u32;
        proof {
            lemma_ring_add_mod(
                self.hi as int,
                self.lo as int,
                other.hi as int,
                other.lo as int,
                carry as int,
                hi_sum as int,
            );
        }
        Did { hi, lo }
    }
}

/// The two-limb form orders and bounds identifiers as their values do.
pub proof fn lemma_limb_order(a: Did, b: Did)
    ensures
        0 <= a.value() < ring_size(),
        (a.value() < b.value()) == (a.hi < b.hi || (a.hi == b.hi && a.lo < b.lo)),
        (a.value() == b.value()) == (a.hi == b.hi && a.lo == b.lo),
{
    let ls = 0x10000000000000000int * 0x10000000000000000int;
    assert(0 <= a.hi as int * ls + a.lo && a.hi as int * ls + a.lo < ls * 0x100000000 && ((a.hi
        as int * ls + a.lo < b.hi as int * ls + b.lo) == (a.hi < b.hi || (a.hi == b.hi && a.lo
        < b.lo))) && ((a.hi as int * ls + a.lo == b.hi as int * ls + b.lo) == (a.hi == b.hi
        && a.lo == b.lo))) by (nonlinear_arith)
        requires
            0 <= a.hi < 0x100000000,
            0 <= b.hi < 0x100000000,
            0 <= a.lo < ls,
            0 <= b.lo < ls,
            ls == 0x10000000000000000int * 0x10000000000000000int,
    ;
}

proof fn lemma_ring_add_mod(ah: int, al: int, bh: int, bl: int, carry: int, hi_sum: int)
    requires
        0 <= ah < 0x100000000,
        0 <= bh < 0x100000000,
        0 <= al < lo_size(),
        0 <= bl < lo_size(),
        carry == if al + bl < lo_size() { 0int } else { 1int },
        hi_sum == ah + bh + carry,
    ensures
        (ah * lo_size() + al + bh * lo_size() + bl) % ring_size() == (hi_sum % 0x100000000) * lo_size() + (al + bl - carry * lo_size()),
{
    let ls = lo_size();
    let rs = ring_size();
    let lo = al + bl - carry * ls;
    let q = hi_sum / 0x100000000;
    let r = hi_sum % 0x100000000;
    vstd::arithmetic::div_mod::lemma_fundamental_div_mod(hi_sum, 0x100000000);
    assert(hi_sum == 0x100000000 * q + r);
    assert(0 <= r < 0x100000000) by {
        vstd::arithmetic::div_mod::lemma_mod_bound(hi_sum, 0x100000000);
    }
    assert(0 <= q <= 1) by {
        assert(hi_sum < 2 * 0x100000000);
        if q >= 2 {
            assert(0x100000000 * q >= 0x100000000 * 2) by (nonlinear_arith)
                requires
                    q >= 2,
            ;
        }
        if q < 0 {
            assert(0x100000000 * q <= 0x100000000 * (-1)) by (nonlinear_arith)
                requires
                    q <= -1,
            ;
        }
    }
    let total = ah * ls + al + bh * ls + bl;
    assert(total == hi_sum * ls + lo) by (nonlinear_arith)
        requires
            hi_sum == ah + bh + carry,
            lo == al + bl - carry * ls,
            total == ah * ls + al + bh * ls + bl,
    ;
    assert(hi_sum * ls == q * rs + r * ls) by (nonlinear_arith)
        requires
            hi_sum == 0x100000000 * q + r,
            rs == 0x100000000 * ls,
            ls == lo_size(),
            rs == ring_size(),
    ;
    assert(total == q * rs + (r * ls + lo));
    assert(0 <= lo < ls);
    assert(0 <= r * ls + lo < rs) by (nonlinear_arith)
        requires
            0 <= r < 0x100000000,
            0 <= lo < ls,
            ls == lo_size(),
            rs == ring_size(),
    ;
    assert(total % rs == (q * rs + (r * ls + lo)) % rs);
    assert((rs * q + (r * ls + lo)) % rs == (r * ls + lo) % rs) by {
        vstd::arithmetic::div_mod::lemma_mod_multiples_vanish(q, r * ls + lo, rs);
    }
    assert(q * rs == rs * q) by (nonlinear_arith);
    assert((r * ls + lo) % rs == r * ls + lo) by {
        vstd::arithmetic::div_mod::lemma_small_mod((r * ls + lo) as nat, rs as nat);
    }
}

/// Clockwise distance from `a` to `b`: how far one walks clockwise from
/// `a` to reach `b`. Zero when the two are equal.
pub open spec fn ring_dist(a: int, b: int) -> int {
    (b - a) % ring_size()
}

/// Clockwise distance that treats a full loop, not zero, as the distance
/// from a point to itself. This is the natural measure for half-open arcs.
pub open spec fn ring_dist0(a: int, b: int) -> int {
    if a == b {
        ring_size()
    } else {
        ring_dist(a, b)
    }
}

/// `x` lies on the half-open arc `(a, b]` walked clockwise. When `a == b`
/// the arc is the whole ring.
pub open spec fn in_oc(x: int, a: int, b: int) -> bool {
    if a == b {
        true
    } else if a < b {
        a < x && x <= b
    } else {
        x > a || x <= b
    }
}

/// `x` lies on the open arc `(a, b)` walked clockwise. When `a == b` the
/// arc is the whole ring except `a`.
pub open spec fn in_oo(x: int, a: int, b: int) -> bool {
    if a == b {
        x != a
    } else if a < b {
        a < x && x < b
    } else {
        x > a || x < b
    }
}

/// `x` lies on the half-open arc `[a, b)` walked clockwise. When `a == b`
/// the arc is the whole ring.
pub open spec fn in_co(x: int, a: int, b: int) -> bool {
    if a == b {
        true
    } else if a < b {
        a <= x && x < b
    } else {
        x >= a || x < b
    }
}

/// The arc predicates agree with the clockwise-distance ordering.
pub proof fn lemma_in_oc_dist(x: int, a: int, b: int)
    requires
        0 <= x < ring_size(),
        0 <= a < ring_size(),
        0 <= b < ring_size(),
    ensures
        in_oc(x, a, b) == (ring_dist0(a, x) <= ring_dist0(a, b)),
        in_oo(x, a, b) == (ring_dist0(a, x) < ring_dist0(a, b)),
{
    lemma_dist_shape(a, x);
    lemma_dist_shape(a, b);
}

/// The clockwise distance written without `%`.
pub proof fn lemma_dist_shape(a: int, b: int)
    requires
        0 <= a < ring_size(),
        0 <= b < ring_size(),
    ensures
        a < b ==> ring_dist(a, b) == b - a,
        b < a ==> ring_dist(a, b) == b - a + ring_size(),
        a == b ==> ring_dist(a, b) == 0,
        0 <= ring_dist(a, b) < ring_size(),
{
    let rs = ring_size();
    if a <= b {
        vstd::arithmetic::div_mod::lemma_small_mod((b - a) as nat, rs as nat);
    } else {
        assert((b - a) % rs == (rs + (b - a)) % rs) by {
            vstd::arithmetic::div_mod::lemma_mod_add_multiples_vanish(b - a, rs);
        }
        vstd::arithmetic::div_mod::lemma_small_mod((b - a + rs) as nat, rs as nat);
    }
}

impl Did {
    /// Whether `self` lies on the half-open clockwise arc `(a, b]`.
    pub fn in_range(&self, a: &Did, b: &Did) -> (r: bool)
        ensures
            r == in_oc(self.value(), a.value(), b.value()),
    {
        proof {
            lemma_limb_order(*a, *b);
            lemma_limb_order(*self, *a);
        }
        if a.hi == b.hi && a.lo == b.lo {
            true
        } else if a.lt(b) {
            a.lt(self) && !b.lt(self)
        } else {
            a.lt(self) || !b.lt(self)
        }
    }

    /// Whether `self` lies on the open clockwise arc `(a, b)`.
    pub fn in_open(&self, a: &Did, b: &Did) -> (r: bool)
        ensures
            r == in_oo(self.value(), a.value(), b.value()),
    {
        proof {
            lemma_limb_order(*a, *b);
            lemma_limb_order(*self, *a);
        }
        if a.hi == b.hi && a.lo == b.lo {
            !(self.hi == a.hi && self.lo == a.lo)
        } else if a.lt(b) {
            a.lt(self) && self.lt(b)
        } else {
            a.lt(self) || self.lt(b)
        }
    }

    /// Whether `self` lies on the half-open clockwise arc `[a, b)`.
    pub fn in_range_co(&self, a: &Did, b: &Did) -> (r: bool)
        ensures
            r == in_co(self.value(), a.value(), b.value()),
    {
        proof {
            lemma_limb_order(*a, *b);
            lemma_limb_order(*self, *a);
        }
        if a.hi == b.hi && a.lo == b.lo {
            true
        } else if a.lt(b) {
            !self.lt(a) && self.lt(b)
        } else {
            !self.lt(a) || self.lt(b)
        }
    }

    /// The identifier `2^i` on the ring, the `i`-th finger offset.
    pub fn pow2(i: usize) -> (r: Did)
        requires
            i < 160,
        ensures
            r.value() == vstd::arithmetic::power2::pow2(i as nat),
    {
        let mut v = Did { hi: 0, lo: 1 };
        let mut j: usize = 0;
        proof {
            vstd::arithmetic::power2::lemma2_to64();
            lemma_pow2_160();
        }
        while j < i
            invariant
                j <= i,
                i < 160,
                v.value() == vstd::arithmetic::power2::pow2(j as nat),
            decreases i - j,
        {
            proof {
                vstd::arithmetic::power2::lemma_pow2_unfold((j + 1) as nat);
                vstd::arithmetic::power2::lemma_pow2_strictly_increases((j + 1) as nat, 160);
                lemma_pow2_160();
                vstd::arithmetic::div_mod::lemma_small_mod(
                    (2 * vstd::arithmetic::power2::pow2(j as nat)) as nat,
                    ring_size() as nat,
                );
            }
            v = v.ring_add(&v);
            j = j + 1;
        }
        v
    }

    /// The canonical 20-byte big-endian form.
    pub fn to_bytes(&self, out: &mut Vec<u8>)
        ensures
            final(out)@ =~= old(out)@ + did_bytes(*self),
    {
        push_be(out, self.hi as u128, 4);
        push_be(out, self.lo, 16);
        proof {
            assert(final(out)@ =~= old(out)@ + did_bytes(*self));
        }
    }

    /// Reads a `Did` back from its 20-byte big-endian form.
    pub fn from_bytes(s: &Vec<u8>, start: usize) -> (r: Did)
        requires
            start + 20 <= s@.len(),
        ensures
            s@.subrange(start as int, start as int + 20) == did_bytes(r),
            forall|d: Did| did_bytes(d) == s@.subrange(start as int, start as int + 20) ==> d == r,
    {
        let slen: usize = s.len();
        let hi128 = read_be(s, start, 4);
        let lo = read_be(s, start + 4, 16);
        proof {
            let whole = s@.subrange(start as int, start as int + 20);
            assert(s@.subrange(start as int, start as int + 4) =~= whole.subrange(0, 4));
            assert(s@.subrange(start as int + 4, start as int + 20) =~= whole.subrange(4, 20));
            crate::bytes_be::lemma_bytes_be_int_bound(whole.subrange(0, 4));
            vstd::arithmetic::power2::lemma2_to64();
        }
        let hi = hi128 as u32;
        let r = Did { hi, lo };
        proof {
            let whole = s@.subrange(start as int, start as int + 20);
            lemma_did_bytes_inverse(whole);
            crate::bytes_be::lemma_int_of_bytes(whole.subrange(0, 4));
            crate::bytes_be::lemma_int_of_bytes(whole.subrange(4, 20));
            assert(whole =~= whole.subrange(0, 4) + whole.subrange(4, 20));
            assert(whole =~= did_bytes(r));
        }
        r
    }
}

/// The canonical 20-byte big-endian form of an identifier.
pub open spec fn did_bytes(d: Did) -> Seq<u8> {
    bytes_of(d.hi as int, 4) + bytes_of(d.lo as int, 16)
}

/// The identifier a 20-byte big-endian form denotes.
pub open spec fn did_of_bytes(b: Seq<u8>) -> Did {
    Did {
        hi: bytes_be_int(b.subrange(0, 4)) as u32,
        lo: bytes_be_int(b.subrange(4, 20)) as u128,
    }
}

/// Reading an identifier back out of its canonical form inverts it.
pub proof fn lemma_did_of_bytes_roundtrip(b: Seq<u8>)
    requires
        b.len() == 20,
    ensures
        did_bytes(did_of_bytes(b)) == b,
{
    crate::bytes_be::lemma_bytes_be_int_bound(b.subrange(0, 4));
    crate::bytes_be::lemma_bytes_be_int_bound(b.subrange(4, 20));
    vstd::arithmetic::power2::lemma2_to64();
    crate::bytes_be::lemma_pow2_128();
    crate::bytes_be::lemma_int_of_bytes(b.subrange(0, 4));
    crate::bytes_be::lemma_int_of_bytes(b.subrange(4, 20));
    assert(did_bytes(did_of_bytes(b)) =~= b);
}

/// `did_bytes` is injective, and its two halves decode to the limbs.
proof fn lemma_did_bytes_inverse(s: Seq<u8>)
    requires
        s.len() == 20,
    ensures
        forall|d: Did| #[trigger] did_bytes(d) == s ==> bytes_be_int(s.subrange(0, 4)) == d.hi
            && bytes_be_int(s.subrange(4, 20)) == d.lo,
{
    assert forall|d: Did| #[trigger] did_bytes(d) == s implies bytes_be_int(s.subrange(0, 4))
        == d.hi && bytes_be_int(s.subrange(4, 20)) == d.lo by {
        lemma_bytes_of_len(d.hi as int, 4);
        lemma_bytes_of_len(d.lo as int, 16);
        assert(s.subrange(0, 4) =~= bytes_of(d.hi as int, 4));
        assert(s.subrange(4, 20) =~= bytes_of(d.lo as int, 16));
        vstd::arithmetic::power2::lemma2_to64();
        crate::bytes_be::lemma_pow2_128();
        lemma_bytes_of_int(d.hi as int, 4);
        lemma_bytes_of_int(d.lo as int, 16);
    }
}

/// Clockwise distance from a fixed base separates distinct points.
pub proof fn lemma_dist0_inj(a: int, x: int, y: int)
    requires
        0 <= a < ring_size(),
        0 <= x < ring_size(),
        0 <= y < ring_size(),
        ring_dist0(a, x) == ring_dist0(a, y),
    ensures
        x == y,
{
    lemma_dist_shape(a, x);
    lemma_dist_shape(a, y);
}

/// The ring size is the 160th power of two.
pub proof fn lemma_pow2_160()
    ensures
        vstd::arithmetic::power2::pow2(160) == ring_size(),
{
    vstd::arithmetic::power2::lemma2_to64();
    crate::bytes_be::lemma_pow2_128();
    vstd::arithmetic::power2::lemma_pow2_adds(128, 32);
}

} // verus!
