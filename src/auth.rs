//! The keyed authenticator: a per-connection key derived from the shared
//! password and a salt, and a fixed-size tag over a window of the stream.
use vstd::prelude::*;
use vstd::slice::slice_subrange;

use hmac::Mac;
use sha2::Digest;

verus! {

/// Size in bytes of a session key and of an authentication tag.
pub const HMAC_SIZE: usize = 32;

/// The SHA-256 digest of a byte string.
pub uninterp spec fn sha256_of(data: Seq<u8>) -> Seq<u8>;

/// HMAC-SHA256 of `msg` under `key`.
pub uninterp spec fn hmac_sha256_of(key: Seq<u8>, msg: Seq<u8>) -> Seq<u8>;

/// Relies on sha2::Sha256 (`new`, two `update`s, `finalize`): feeding the
/// input in two parts hashes their concatenation.
#[verifier::external_body]
fn sha256_concat(first: &[u8], second: &[u8]) -> (r: [u8; 32])
    ensures
        r@ == sha256_of(first@ + second@),
{
    let mut hasher = sha2::Sha256::new();
    hasher.update(first);
    hasher.update(second);
    hasher.finalize().into()
}

/// Relies on hmac::Hmac<Sha256> (`new_from_slice`, `update`, `finalize`):
/// HMAC accepts a key of any length and yields a 32-byte code.
#[verifier::external_body]
fn hmac_sha256(key: &[u8], msg: &[u8]) -> (r: [u8; 32])
    ensures
        r@ == hmac_sha256_of(key@, msg@),
{
    let mut mac = <hmac::Hmac<sha2::Sha256> as Mac>::new_from_slice(key).expect("any key length");
    mac.update(msg);
    mac.finalize().into_bytes().into()
}

/// Relies on hmac::Mac::verify_slice: it compares the candidate with the
/// computed code in constant time (subtle's `ct_eq`) and accepts only a
/// candidate of the full length that equals it.
#[verifier::external_body]
fn hmac_sha256_matches(key: &[u8], msg: &[u8], candidate: &[u8]) -> (r: bool)
    ensures
        r == (candidate@ == hmac_sha256_of(key@, msg@)),
{
    let mut mac = <hmac::Hmac<sha2::Sha256> as Mac>::new_from_slice(key).expect("any key length");
    mac.update(msg);
    mac.verify_slice(candidate).is_ok()
}

/// Byte `i` (0 is the most significant) of the big-endian encoding of `n`.
pub open spec fn be_byte(n: u64, i: int) -> u8 {
    ((n >> ((56 - 8 * i) as u64)) & 0xff) as u8
}

/// The eight-byte big-endian encoding of `n`.
pub open spec fn be_u64(n: u64) -> Seq<u8> {
    seq![
        be_byte(n, 0),
        be_byte(n, 1),
        be_byte(n, 2),
        be_byte(n, 3),
        be_byte(n, 4),
        be_byte(n, 5),
        be_byte(n, 6),
        be_byte(n, 7),
    ]
}

/// What is hashed into a session key: the password's length in eight
/// big-endian bytes, the password, then the salt. The length prefix makes
/// the split between password and salt unambiguous.
pub open spec fn kdf_input(password: Seq<u8>, salt: Seq<u8>) -> Seq<u8> {
    be_u64(password.len() as u64) + password + salt
}

/// The session key of a password and a salt.
pub open spec fn derive_key_spec(password: Seq<u8>, salt: Seq<u8>) -> Seq<u8> {
    sha256_of(kdf_input(password, salt))
}

proof fn lemma_low_byte(x: u64, y: u64)
    requires
        ((x & 0xff) as u8) == ((y & 0xff) as u8),
    ensures
        x & 0xff == y & 0xff,
{
    assert(x & 0xff <= 0xff) by (bit_vector);
    assert(y & 0xff <= 0xff) by (bit_vector);
}

proof fn lemma_be_u64_injective(a: u64, b: u64)
    requires
        be_u64(a) == be_u64(b),
    ensures
        a == b,
{
    assert(be_u64(a)[0] == be_u64(b)[0]);
    lemma_low_byte(a >> 56u64, b >> 56u64);
    assert(be_u64(a)[1] == be_u64(b)[1]);
    lemma_low_byte(a >> 48u64, b >> 48u64);
    assert(be_u64(a)[2] == be_u64(b)[2]);
    lemma_low_byte(a >> 40u64, b >> 40u64);
    assert(be_u64(a)[3] == be_u64(b)[3]);
    lemma_low_byte(a >> 32u64, b >> 32u64);
    assert(be_u64(a)[4] == be_u64(b)[4]);
    lemma_low_byte(a >> 24u64, b >> 24u64);
    assert(be_u64(a)[5] == be_u64(b)[5]);
    lemma_low_byte(a >> 16u64, b >> 16u64);
    assert(be_u64(a)[6] == be_u64(b)[6]);
    lemma_low_byte(a >> 8u64, b >> 8u64);
    assert(be_u64(a)[7] == be_u64(b)[7]);
    lemma_low_byte(a >> 0u64, b >> 0u64);
    assert(((a >> 56u64) & 0xff == (b >> 56u64) & 0xff && (a >> 48u64) & 0xff == (b >> 48u64) & 0xff
        && (a >> 40u64) & 0xff == (b >> 40u64) & 0xff && (a >> 32u64) & 0xff == (b >> 32u64) & 0xff
        && (a >> 24u64) & 0xff == (b >> 24u64) & 0xff && (a >> 16u64) & 0xff == (b >> 16u64) & 0xff
        && (a >> 8u64) & 0xff == (b >> 8u64) & 0xff && (a >> 0u64) & 0xff == (b >> 0u64) & 0xff)
        ==> a == b) by (bit_vector);
}

/// Different password/salt pairs give different hash inputs, so the session
/// key changes whenever either input changes (as far as SHA-256 is free of
/// collisions).
pub proof fn lemma_kdf_input_injective(p1: Seq<u8>, s1: Seq<u8>, p2: Seq<u8>, s2: Seq<u8>)
    requires
        p1.len() <= u64::MAX,
        p2.len() <= u64::MAX,
        p1 != p2 || s1 != s2,
    ensures
        kdf_input(p1, s1) != kdf_input(p2, s2),
{
    if kdf_input(p1, s1) == kdf_input(p2, s2) {
        let x = kdf_input(p1, s1);
        assert(x.subrange(0, 8) =~= be_u64(p1.len() as u64));
        assert(kdf_input(p2, s2).subrange(0, 8) =~= be_u64(p2.len() as u64));
        lemma_be_u64_injective(p1.len() as u64, p2.len() as u64);
        let n = p1.len() as int;
        assert(x.subrange(8, 8 + n) =~= p1);
        assert(kdf_input(p2, s2).subrange(8, 8 + n) =~= p2);
        assert(x.subrange(8 + n, x.len() as int) =~= s1);
        assert(kdf_input(p2, s2).subrange(8 + n, x.len() as int) =~= s2);
    }
}

/// The tag of a window of bytes under a session key.
pub open spec fn tag_spec(key: Seq<u8>, window: Seq<u8>) -> Seq<u8> {
    hmac_sha256_of(key, window)
}

/// Whether `candidate` is the tag of `window` under `key`.
pub open spec fn verify_spec(key: Seq<u8>, window: Seq<u8>, candidate: Seq<u8>) -> bool {
    candidate == tag_spec(key, window)
}

/// Derives the session key from the shared password and a per-connection salt.
pub fn kdf(password: &[u8], salt: &[u8]) -> (r: [u8; 32])
    ensures
        r@ == derive_key_spec(password@, salt@),
{
    let n = password.len() as u64;
    let mut prefix: Vec<u8> = Vec::new();
    prefix.push(((n >> 56u64) & 0xff) as u8);
    prefix.push(((n >> 48u64) & 0xff) as u8);
    prefix.push(((n >> 40u64) & 0xff) as u8);
    prefix.push(((n >> 32u64) & 0xff) as u8);
    prefix.push(((n >> 24u64) & 0xff) as u8);
    prefix.push(((n >> 16u64) & 0xff) as u8);
    prefix.push(((n >> 8u64) & 0xff) as u8);
    prefix.push((n & 0xff) as u8);
    assert(prefix@ =~= be_u64(n)) by {
        assert(n >> 0u64 == n) by (bit_vector);
    };
    let mut i: usize = 0;
    while i < password.len()
        invariant
            i <= password@.len(),
            prefix@ == be_u64(n) + password@.subrange(0, i as int),
        decreases password@.len() - i,
    {
        prefix.push(password[i]);
        i = i + 1;
        assert(prefix@ =~= be_u64(n) + password@.subrange(0, i as int));
    }
    assert(password@.subrange(0, password@.len() as int) =~= password@);
    assert(prefix@ + salt@ =~= kdf_input(password@, salt@));
    sha256_concat(prefix.as_slice(), salt)
}

/// Computes the authentication tag of `window` under `key`.
pub fn tag(key: &[u8], window: &[u8]) -> (r: [u8; 32])
    ensures
        r@ == tag_spec(key@, window@),
{
    hmac_sha256(key, window)
}

/// Checks a candidate tag, comparing all of its bytes whatever they hold.
pub fn verify(key: &[u8], window: &[u8], candidate: &[u8]) -> (r: bool)
    ensures
        r == verify_spec(key@, window@, candidate@),
{
    hmac_sha256_matches(key, window, candidate)
}

/// XORs `b` into `a`, byte by byte, over the shorter of the two lengths.
pub fn xor_slice(a: &mut [u8], b: &[u8])
    ensures
        final(a)@.len() == old(a)@.len(),
        forall|i: int|
            0 <= i < old(a)@.len() ==> #[trigger] final(a)@[i] == if i < b@.len() {
                old(a)@[i] ^ b@[i]
            } else {
                old(a)@[i]
            },
{
    let n: usize = if a.len() < b.len() {
        a.len()
    } else {
        b.len()
    };
    let mut i: usize = 0;
    while i < n
        invariant
            n <= a@.len(),
            n <= b@.len(),
            n == a@.len() || n == b@.len(),
            i <= n,
            a@.len() == old(a)@.len(),
            forall|j: int|
                0 <= j < a@.len() ==> #[trigger] a@[j] == if j < i {
                    old(a)@[j] ^ b@[j]
                } else {
                    old(a)@[j]
                },
        decreases n - i,
    {
        let x = a[i] ^ b[i];
        a[i] = x;
        i = i + 1;
    }
}

/// What the client sends first on the camouflaged stream: the tag of
/// `context` under `key`, then the payload.
pub open spec fn tagged_prefix_spec(key: Seq<u8>, context: Seq<u8>, payload: Seq<u8>) -> Seq<u8> {
    tag_spec(key, context) + payload
}

/// Builds the client's first write: the tag over `context`, then `payload`.
pub fn tagged_prefix(key: &[u8], context: &[u8], payload: &[u8]) -> (r: Vec<u8>)
    ensures
        r@ == tagged_prefix_spec(key@, context@, payload@),
        r@.len() == HMAC_SIZE + payload@.len(),
        window_of(r@) == tag_spec(key@, context@),
        r@.subrange(HMAC_SIZE as int, r@.len() as int) == payload@,
{
    let t = tag(key, context);
    let mut out: Vec<u8> = Vec::new();
    let mut i: usize = 0;
    while i < HMAC_SIZE
        invariant
            i <= HMAC_SIZE,
            t@.len() == HMAC_SIZE,
            out@ == t@.subrange(0, i as int),
        decreases HMAC_SIZE - i,
    {
        out.push(t[i]);
        i = i + 1;
        assert(out@ =~= t@.subrange(0, i as int));
    }
    let mut j: usize = 0;
    while j < payload.len()
        invariant
            j <= payload@.len(),
            out@ == t@ + payload@.subrange(0, j as int),
        decreases payload@.len() - j,
    {
        out.push(payload[j]);
        j = j + 1;
        assert(out@ =~= t@ + payload@.subrange(0, j as int));
    }
    assert(payload@.subrange(0, payload@.len() as int) =~= payload@);
    assert(window_of(out@) =~= t@);
    assert(out@.subrange(HMAC_SIZE as int, out@.len() as int) =~= payload@);
    out
}

/// The window that the server checks: the first `HMAC_SIZE` bytes received.
pub open spec fn window_of(received: Seq<u8>) -> Seq<u8> {
    received.subrange(0, HMAC_SIZE as int)
}

/// Whether the first `HMAC_SIZE` bytes received carry the tag of `context`.
pub fn window_matches(key: &[u8], context: &[u8], received: &[u8]) -> (r: bool)
    requires
        received@.len() >= HMAC_SIZE,
    ensures
        r == verify_spec(key@, context@, window_of(received@)),
{
    let w = slice_subrange(received, 0, HMAC_SIZE);
    verify(key, context, w)
}

/// What follows the window: bytes that are relayed on once the decision is
/// made.
pub fn window_rest(received: &[u8]) -> (r: &[u8])
    requires
        received@.len() >= HMAC_SIZE,
    ensures
        r@ == received@.subrange(HMAC_SIZE as int, received@.len() as int),
{
    slice_subrange(received, HMAC_SIZE, received.len())
}

/// Tagging is a function of the key and the window: equal inputs give equal
/// tags.
pub proof fn lemma_tag_deterministic(k1: Seq<u8>, w1: Seq<u8>, k2: Seq<u8>, w2: Seq<u8>)
    requires
        k1 == k2,
        w1 == w2,
    ensures
        tag_spec(k1, w1) == tag_spec(k2, w2),
{
}

/// A tag made with the key derived from a password and salt is accepted by
/// verification with the key derived from the same password and salt.
pub proof fn lemma_verify_accepts_own_tag(password: Seq<u8>, salt: Seq<u8>, window: Seq<u8>)
    ensures
        verify_spec(
            derive_key_spec(password, salt),
            window,
            tag_spec(derive_key_spec(password, salt), window),
        ),
{
}

} // verus!
