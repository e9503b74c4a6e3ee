//! Identity and delegated signing sessions.
//!
//! A node's identity is the ring position derived from its ECDSA public
//! key. Hot-path messages are signed with a short-lived session key; an
//! authorization record signed by the owner key binds the session key to
//! the owner's identity.

use vstd::prelude::*;

use crate::bytes_be::bytes_be_int;
use crate::bytes_be::bytes_of;
use crate::bytes_be::push_be;
use crate::bytes_be::read_be;
use crate::crypto::check_secret;
use crate::crypto::ecdsa_pubkey;
use crate::crypto::ecdsa_sign;
use crate::crypto::pub_of;
use crate::crypto::random_bytes_32;
use crate::crypto::rec_of;
use crate::crypto::sec_ok;
use crate::crypto::sha256;
use crate::crypto::sha256_of;
use crate::crypto::sig_of;
use crate::did::Did;

verus! {

/// The ring identifier carried by a 32-byte digest: its bytes 12 to 31,
/// read big-endian.
pub open spec fn did_of_hash(h: Seq<u8>) -> Did {
    Did { hi: bytes_be_int(h.subrange(12, 16)) as u32, lo: bytes_be_int(h.subrange(16, 32)) as u128 }
}

/// The identity a raw public key derives to.
pub open spec fn did_of_pub(p: Seq<u8>) -> Did {
    did_of_hash(sha256_of(p))
}

/// Reads the ring identifier out of a 32-byte digest.
pub fn did_from_hash(h: &Vec<u8>) -> (r: Did)
    requires
        h@.len() == 32,
    ensures
        r == did_of_hash(h@),
{
    let hi128 = read_be(h, 12, 4);
    let lo = read_be(h, 16, 16);
    proof {
        crate::bytes_be::lemma_bytes_be_int_bound(h@.subrange(12, 16));
        vstd::arithmetic::power2::lemma2_to64();
    }
    Did { hi: hi128 as u32, lo }
}

/// Derives the identity of a public key.
pub fn derive_did(p: &Vec<u8>) -> (r: Did)
    ensures
        r == did_of_pub(p@),
{
    let h = sha256(p);
    did_from_hash(&h)
}

/// Draws a fresh secret key: random 32-byte scalars, retried until one
/// parses as a valid key. Fails only if the random source keeps yielding
/// invalid scalars.
pub fn new_key() -> (r: Option<Vec<u8>>)
    ensures
        r matches Some(k) ==> sec_ok(k@) && k@.len() == 32,
{
    let mut tries: usize = 0;
    while tries < 128
        invariant
            tries <= 128,
        decreases 128 - tries,
    {
        let cand = random_bytes_32();
        if check_secret(&cand) {
            return Some(cand);
        }
        tries = tries + 1;
    }
    None
}

/// The bytes the owner signs to authorize a session key: the expiry and
/// the session public key.
pub open spec fn auth_bytes(session_pub: Seq<u8>, expiry: u64) -> Seq<u8> {
    bytes_of(expiry as int, 8) + session_pub
}

/// The digest the owner's authorization signature covers.
pub open spec fn auth_digest(session_pub: Seq<u8>, expiry: u64) -> Seq<u8> {
    sha256_of(auth_bytes(session_pub, expiry))
}

/// Builds the authorization bytes for a session key and expiry.
pub fn build_auth_bytes(session_pub: &Vec<u8>, expiry: u64) -> (r: Vec<u8>)
    ensures
        r@ =~= auth_bytes(session_pub@, expiry),
{
    let mut out: Vec<u8> = Vec::new();
    push_be(&mut out, expiry as u128, 8);
    let mut i: usize = 0;
    let n = session_pub.len();
    while i < n
        invariant
            i <= n,
            n == session_pub@.len(),
            out@ =~= bytes_of(expiry as int, 8) + session_pub@.subrange(0, i as int),
        decreases n - i,
    {
        out.push(session_pub[i]);
        proof {
            assert(out@ =~= bytes_of(expiry as int, 8) + session_pub@.subrange(0, i + 1));
        }
        i = i + 1;
    }
    proof {
        assert(session_pub@.subrange(0, n as int) =~= session_pub@);
    }
    out
}

/// The authorization record a payload carries: who may sign on the
/// owner's behalf, and until when.
#[derive(Clone, Debug)]
pub struct SessionAuth {
    /// The raw 64-byte session public key.
    pub session_pub: Vec<u8>,
    /// Seconds-since-epoch timestamp after which the session is dead.
    pub expiry: u64,
    /// The owner's signature over the authorization bytes.
    pub owner_sig: Vec<u8>,
}

/// A valid authorization, over its plain parts: the owner signature
/// recovers to a public key whose identity is `owner`.
pub open spec fn auth_parts_wf(
    session_pub: Seq<u8>,
    expiry: u64,
    owner_sig: Seq<u8>,
    owner: Did,
) -> bool {
    &&& session_pub.len() == 64
    &&& owner_sig.len() == 65
    &&& match rec_of(auth_digest(session_pub, expiry), owner_sig) {
        Some(p) => did_of_pub(p) == owner,
        None => false,
    }
}

/// A valid authorization record.
pub open spec fn auth_wf(auth: SessionAuth, owner: Did) -> bool {
    auth_parts_wf(auth.session_pub@, auth.expiry, auth.owner_sig@, owner)
}

/// Checks an authorization record against a claimed owner identity.
pub fn verify_auth(auth: &SessionAuth, owner: &Did) -> (r: bool)
    ensures
        r == auth_wf(*auth, *owner),
{
    if auth.session_pub.len() != 64 || auth.owner_sig.len() != 65 {
        return false;
    }
    let ab = build_auth_bytes(&auth.session_pub, auth.expiry);
    let digest = sha256(&ab);
    match crate::crypto::ecdsa_recover(&digest, &auth.owner_sig) {
        Some(p) => {
            let d = derive_did(&p);
            d.hi == owner.hi && d.lo == owner.lo
        },
        None => false,
    }
}

/// The serialized form of a session: the secret key, the session public
/// key, the expiry, the owner signature, and the owner identity.
pub open spec fn session_dump_bytes(sk: Seq<u8>, auth: SessionAuth, owner: Did) -> Seq<u8> {
    sk + auth.session_pub@ + bytes_of(auth.expiry as int, 8) + auth.owner_sig@
        + crate::did::did_bytes(owner)
}

/// The strings `load` accepts: they decode to the serialized form of a
/// session whose key is valid, whose session public key belongs to that
/// key, and whose authorization record the named owner signed.
pub open spec fn load_ok(s: Seq<char>) -> bool {
    match crate::crypto::b58strdec_of(s) {
        Some(b) => {
            &&& b.len() == 189
            &&& sec_ok(b.subrange(0, 32))
            &&& pub_of(b.subrange(0, 32)) == b.subrange(32, 96)
            &&& auth_parts_wf(
                b.subrange(32, 96),
                bytes_be_int(b.subrange(96, 104)) as u64,
                b.subrange(104, 169),
                crate::did::did_of_bytes(b.subrange(169, 189)),
            )
        },
        None => false,
    }
}

/// A live signing session: the session secret key together with the
/// owner's authorization record.
pub struct DelegatedSession {
    sk: Vec<u8>,
    auth: SessionAuth,
    owner_did: Did,
}

impl DelegatedSession {
    /// The session invariant: the secret key is valid, the record's
    /// public key belongs to it, and the owner authorized it.
    #[verifier::type_invariant]
    pub closed spec fn wf(self) -> bool {
        &&& sec_ok(self.sk@)
        &&& self.sk@.len() == 32
        &&& self.auth.session_pub@ == pub_of(self.sk@)
        &&& auth_wf(self.auth, self.owner_did)
    }

    /// The authorization record, visible to contracts only.
    pub closed spec fn spec_auth(self) -> SessionAuth {
        self.auth
    }

    /// The owner identity, visible to contracts only.
    pub closed spec fn spec_owner(self) -> Did {
        self.owner_did
    }

    /// The identity this session signs for.
    pub fn owner(&self) -> (r: Did)
        ensures
            r == self.spec_owner(),
    {
        self.owner_did
    }

    /// The authorization record to put on outgoing payloads.
    pub fn auth(&self) -> (r: SessionAuth)
        ensures
            r.session_pub@ == self.spec_auth().session_pub@,
            r.expiry == self.spec_auth().expiry,
            r.owner_sig@ == self.spec_auth().owner_sig@,
            auth_wf(r, self.spec_owner()),
            r.session_pub@ == pub_of(self.spec_sk()),
    {
        proof {
            use_type_invariant(self);
        }
        let r = SessionAuth {
            session_pub: self.auth.session_pub.clone(),
            expiry: self.auth.expiry,
            owner_sig: self.auth.owner_sig.clone(),
        };
        proof {
            assert(r.session_pub@ =~= self.auth.session_pub@);
            assert(r.owner_sig@ =~= self.auth.owner_sig@);
        }
        r
    }

    /// The session secret, visible to contracts only.
    pub closed spec fn spec_sk(self) -> Seq<u8> {
        self.sk@
    }

    /// The session expiry.
    pub fn expiry(&self) -> (r: u64)
        ensures
            r == self.spec_auth().expiry,
    {
        self.auth.expiry
    }

    /// Signs a 32-byte digest with the session key.
    pub fn sign(&self, digest: &Vec<u8>) -> (r: Vec<u8>)
        requires
            digest@.len() == 32,
        ensures
            r@ == sig_of(self.spec_sk(), digest@),
            r@.len() == 65,
            rec_of(digest@, r@) == Some(self.spec_auth().session_pub@),
    {
        proof {
            use_type_invariant(self);
        }
        match ecdsa_sign(&self.sk, digest) {
            Some(s) => s,
            None => vstd::pervasive::unreached(),
        }
    }

    /// Serializes the session for persistence: the secret key, public
    /// key, expiry, owner signature and owner identity, base58-encoded.
    /// `load` reads the form back.
    pub fn dump(&self) -> (r: String)
        ensures
            r@ == crate::crypto::b58str_of(
                session_dump_bytes(self.spec_sk(), self.spec_auth(), self.spec_owner()),
            ),
            crate::crypto::b58strdec_of(r@) == Some(
                session_dump_bytes(self.spec_sk(), self.spec_auth(), self.spec_owner()),
            ),
            load_ok(r@),
    {
        proof {
            use_type_invariant(self);
        }
        let mut out: Vec<u8> = Vec::new();
        let n = self.sk.len();
        let mut i: usize = 0;
        while i < n
            invariant
                i <= n,
                n == self.sk@.len(),
                out@ =~= self.sk@.subrange(0, i as int),
            decreases n - i,
        {
            out.push(self.sk[i]);
            proof {
                assert(out@ =~= self.sk@.subrange(0, i + 1));
            }
            i = i + 1;
        }
        proof {
            assert(out@ =~= self.sk@);
        }
        let ghost p1 = out@;
        let m = self.auth.session_pub.len();
        let mut j: usize = 0;
        while j < m
            invariant
                j <= m,
                m == self.auth.session_pub@.len(),
                out@ =~= p1 + self.auth.session_pub@.subrange(0, j as int),
            decreases m - j,
        {
            out.push(self.auth.session_pub[j]);
            proof {
                assert(out@ =~= p1 + self.auth.session_pub@.subrange(0, j + 1));
            }
            j = j + 1;
        }
        proof {
            assert(out@ =~= p1 + self.auth.session_pub@);
        }
        push_be(&mut out, self.auth.expiry as u128, 8);
        let ghost p2 = out@;
        let q = self.auth.owner_sig.len();
        let mut k: usize = 0;
        while k < q
            invariant
                k <= q,
                q == self.auth.owner_sig@.len(),
                out@ =~= p2 + self.auth.owner_sig@.subrange(0, k as int),
            decreases q - k,
        {
            out.push(self.auth.owner_sig[k]);
            proof {
                assert(out@ =~= p2 + self.auth.owner_sig@.subrange(0, k + 1));
            }
            k = k + 1;
        }
        proof {
            assert(out@ =~= p2 + self.auth.owner_sig@);
        }
        self.owner_did.to_bytes(&mut out);
        proof {
            assert(out@ =~= session_dump_bytes(
                self.spec_sk(),
                self.spec_auth(),
                self.spec_owner(),
            ));
            let b = out@;
            crate::bytes_be::lemma_bytes_of_len(self.auth.expiry as int, 8);
            crate::bytes_be::lemma_bytes_of_len(self.owner_did.hi as int, 4);
            crate::bytes_be::lemma_bytes_of_len(self.owner_did.lo as int, 16);
            assert(b.len() == 189);
            assert(b.subrange(0, 32) =~= self.sk@);
            assert(b.subrange(32, 96) =~= self.auth.session_pub@);
            assert(b.subrange(96, 104) =~= bytes_of(self.auth.expiry as int, 8));
            assert(b.subrange(104, 169) =~= self.auth.owner_sig@);
            assert(b.subrange(169, 189) =~= crate::did::did_bytes(self.owner_did));
            vstd::arithmetic::power2::lemma2_to64();
            crate::bytes_be::lemma_pow2_128();
            crate::bytes_be::lemma_bytes_of_int(self.auth.expiry as int, 8);
            crate::bytes_be::lemma_bytes_of_int(self.owner_did.hi as int, 4);
            crate::bytes_be::lemma_bytes_of_int(self.owner_did.lo as int, 16);
            assert(crate::did::did_bytes(self.owner_did).subrange(0, 4) =~= bytes_of(
                self.owner_did.hi as int,
                4,
            ));
            assert(crate::did::did_bytes(self.owner_did).subrange(4, 20) =~= bytes_of(
                self.owner_did.lo as int,
                16,
            ));
            assert(crate::did::did_of_bytes(b.subrange(169, 189)) == self.owner_did);
        }
        crate::crypto::b58_encode_string(&out)
    }

    /// Reads a dumped session back. Succeeds exactly on the strings that
    /// decode to the serialized form of a valid session: a well-formed
    /// key, its own public key, and an authorization the owner signed.
    pub fn load(s: &str) -> (r: Option<DelegatedSession>)
        ensures
            r is Some <==> load_ok(s@),
            r matches Some(t) ==> (crate::crypto::b58strdec_of(s@) matches Some(b) && {
                &&& t.spec_sk() == b.subrange(0, 32)
                &&& t.spec_auth().session_pub@ == b.subrange(32, 96)
                &&& t.spec_auth().expiry == bytes_be_int(b.subrange(96, 104))
                &&& t.spec_auth().owner_sig@ == b.subrange(104, 169)
                &&& t.spec_owner() == crate::did::did_of_bytes(b.subrange(169, 189))
            }),
    {
        let bytes = match crate::crypto::b58_decode_string(s) {
            Some(v) => v,
            None => {
                return None;
            },
        };
        if bytes.len() != 189 {
            return None;
        }
        let sk = crate::bytes_be::sub_bytes(&bytes, 0, 32);
        if !check_secret(&sk) {
            return None;
        }
        let session_pub = crate::bytes_be::sub_bytes(&bytes, 32, 96);
        let derived = match ecdsa_pubkey(&sk) {
            Some(p) => p,
            None => vstd::pervasive::unreached(),
        };
        if !crate::bytes_be::bytes_eq(&derived, &session_pub) {
            return None;
        }
        let expiry128 = read_be(&bytes, 96, 8);
        proof {
            crate::bytes_be::lemma_bytes_be_int_bound(bytes@.subrange(96, 104));
            vstd::arithmetic::power2::lemma2_to64();
        }
        let expiry = expiry128 as u64;
        let owner_sig = crate::bytes_be::sub_bytes(&bytes, 104, 169);
        let owner_did = Did::from_bytes(&bytes, 169);
        proof {
            crate::did::lemma_did_of_bytes_roundtrip(bytes@.subrange(169, 189));
            assert(crate::did::did_of_bytes(bytes@.subrange(169, 189)) == owner_did);
        }
        let auth = SessionAuth { session_pub, expiry, owner_sig };
        if !verify_auth(&auth, &owner_did) {
            return None;
        }
        Some(DelegatedSession { sk, auth, owner_did })
    }

    /// Opens a session: draws a session key and lets the owner key sign
    /// its authorization record. Fails when the owner key is invalid or
    /// the random source fails.
    pub fn new(owner_sk: &Vec<u8>, expiry: u64) -> (r: Option<DelegatedSession>)
        ensures
            r is Some ==> sec_ok(owner_sk@),
            !sec_ok(owner_sk@) ==> r is None,
            r matches Some(s) ==> s.spec_owner() == did_of_pub(pub_of(owner_sk@))
                && s.spec_auth().expiry == expiry,
    {
        let owner_pub = match ecdsa_pubkey(owner_sk) {
            Some(p) => p,
            None => {
                return None;
            },
        };
        let sk = match new_key() {
            Some(k) => k,
            None => {
                return None;
            },
        };
        let session_pub = match ecdsa_pubkey(&sk) {
            Some(p) => p,
            None => vstd::pervasive::unreached(),
        };
        let ab = build_auth_bytes(&session_pub, expiry);
        let digest = sha256(&ab);
        let owner_sig = match ecdsa_sign(owner_sk, &digest) {
            Some(s) => s,
            None => vstd::pervasive::unreached(),
        };
        let owner_did = derive_did(&owner_pub);
        let auth = SessionAuth { session_pub, expiry, owner_sig };
        Some(DelegatedSession { sk, auth, owner_did })
    }
}

} // verus!
