//! Derivation of listing identifiers and viewing credentials.
//!
//! Both are the lower-case hex encoding of pseudo-random bytes drawn from a
//! generator that is reseeded on every call from the request's entropy: block
//! height and time in big-endian bytes, the sender's address bytes, and the
//! process-wide secret seed (plus the caller-supplied entropy, for
//! credentials). Mixing the secret seed in keeps the result from being
//! computed by an observer who lacks it, while staying a pure function of
//! those inputs, as the host's deterministic-replay model demands. No
//! uniqueness check is made against existing identifiers: a collision is
//! possible in principle and not formally excluded.

use vstd::prelude::*;

use vstd::utf8::encode_utf8;
use vstd::wrapping::u64_specs;

verus! {

/// The big-endian bytes of a 64-bit integer, most significant first.
pub open spec fn u64_be(x: u64) -> Seq<u8> {
    seq![
        ((x >> 56) & 0xff) as u8,
        ((x >> 48) & 0xff) as u8,
        ((x >> 40) & 0xff) as u8,
        ((x >> 32) & 0xff) as u8,
        ((x >> 24) & 0xff) as u8,
        ((x >> 16) & 0xff) as u8,
        ((x >> 8) & 0xff) as u8,
        (x & 0xff) as u8,
    ]
}

/// Executable form of [`u64_be`].
pub fn u64_be_bytes(x: u64) -> (r: Vec<u8>)
    ensures
        r@ == u64_be(x),
{
    let mut r: Vec<u8> = Vec::new();
    r.push(((x >> 56) & 0xff) as u8);
    r.push(((x >> 48) & 0xff) as u8);
    r.push(((x >> 40) & 0xff) as u8);
    r.push(((x >> 32) & 0xff) as u8);
    r.push(((x >> 24) & 0xff) as u8);
    r.push(((x >> 16) & 0xff) as u8);
    r.push(((x >> 8) & 0xff) as u8);
    r.push((x & 0xff) as u8);
    proof {
        assert(r@ =~= u64_be(x));
    }
    r
}

/// One absorption step of the byte mixer.
pub open spec fn mix(h: u64, b: u8) -> u64 {
    u64_specs::wrapping_mul(h ^ (b as u64), 0x100000001b3)
}

/// Folds a whole byte sequence into the mixer state, front to back.
pub open spec fn absorb(s: Seq<u8>, h: u64) -> u64
    decreases s.len(),
{
    if s.len() == 0 {
        h
    } else {
        absorb(s.skip(1), mix(h, s[0]))
    }
}

/// The mixer state a stream word starts from: the base offset shifted by the
/// word's position, so the four output words differ.
pub open spec fn word_seed(w: u64) -> u64 {
    u64_specs::wrapping_add(0xcbf29ce484222325, w)
}

/// The 32 pseudo-random bytes drawn for one derivation: four independently
/// seeded 64-bit digests of the seed material, big-endian, concatenated.
pub open spec fn pseudo_bytes(material: Seq<u8>) -> Seq<u8> {
    u64_be(absorb(material, word_seed(0))) + u64_be(absorb(material, word_seed(1))) + u64_be(
        absorb(material, word_seed(2)),
    ) + u64_be(absorb(material, word_seed(3)))
}

/// Executable form of [`absorb`].
pub fn absorb_bytes(s: &Vec<u8>, h: u64) -> (r: u64)
    ensures
        r == absorb(s@, h),
{
    let mut acc: u64 = h;
    let mut i: usize = 0;
    proof {
        assert(s@.skip(0) =~= s@);
    }
    while i < s.len()
        invariant
            i <= s@.len(),
            absorb(s@, h) == absorb(s@.skip(i as int), acc),
        decreases s@.len() - i,
    {
        proof {
            assert(s@.skip(i as int)[0] == s@[i as int]);
            assert(s@.skip(i as int).skip(1) =~= s@.skip(i as int + 1));
        }
        acc = (acc ^ (s[i] as u64)).wrapping_mul(0x100000001b3);
        i = i + 1;
    }
    proof {
        assert(s@.skip(i as int) =~= Seq::<u8>::empty());
    }
    acc
}

/// Executable form of [`pseudo_bytes`].
pub fn draw_pseudo_bytes(material: &Vec<u8>) -> (r: Vec<u8>)
    ensures
        r@ == pseudo_bytes(material@),
{
    let mut r: Vec<u8> = Vec::new();
    let w0 = u64_be_bytes(absorb_bytes(material, 0xcbf29ce484222325u64.wrapping_add(0)));
    let w1 = u64_be_bytes(absorb_bytes(material, 0xcbf29ce484222325u64.wrapping_add(1)));
    let w2 = u64_be_bytes(absorb_bytes(material, 0xcbf29ce484222325u64.wrapping_add(2)));
    let w3 = u64_be_bytes(absorb_bytes(material, 0xcbf29ce484222325u64.wrapping_add(3)));
    r.extend_from_slice(w0.as_slice());
    r.extend_from_slice(w1.as_slice());
    r.extend_from_slice(w2.as_slice());
    r.extend_from_slice(w3.as_slice());
    proof {
        assert(r@ =~= pseudo_bytes(material@));
    }
    r
}

/// The digit the hex encoding uses for one value below sixteen.
pub open spec fn hex_char(n: u8) -> char {
    if n == 0 {
        '0'
    } else if n == 1 {
        '1'
    } else if n == 2 {
        '2'
    } else if n == 3 {
        '3'
    } else if n == 4 {
        '4'
    } else if n == 5 {
        '5'
    } else if n == 6 {
        '6'
    } else if n == 7 {
        '7'
    } else if n == 8 {
        '8'
    } else if n == 9 {
        '9'
    } else if n == 10 {
        'a'
    } else if n == 11 {
        'b'
    } else if n == 12 {
        'c'
    } else if n == 13 {
        'd'
    } else if n == 14 {
        'e'
    } else {
        'f'
    }
}

/// The lower-case hex encoding of a byte sequence: two digits per byte, high
/// nibble first.
pub open spec fn hex_of(b: Seq<u8>) -> Seq<char> {
    Seq::new(
        b.len() * 2,
        |i: int|
            if i % 2 == 0 {
                hex_char((b[i / 2] >> 4) as u8)
            } else {
                hex_char((b[i / 2] & 0xf) as u8)
            },
    )
}

/// Relies on `hex::encode`: it emits, for each input byte, the high then the
/// low nibble as digits drawn from `"0123456789abcdef"`.
#[verifier::external_body]
fn hex_encode(bytes: &Vec<u8>) -> (r: String)
    ensures
        r@ == hex_of(bytes@),
{
    hex::encode(bytes)
}

/// The entropy a listing identifier is derived from: block height and time,
/// big-endian, then the sender's address bytes, then the process seed.
pub open spec fn id_material(height: u64, time: u64, sender: Seq<char>, seed: Seq<u8>) -> Seq<
    u8,
> {
    u64_be(height) + u64_be(time) + encode_utf8(sender) + seed
}

/// The identifier derived for a listing created at the given block height and
/// time by the given sender, under the given process seed.
pub open spec fn spec_listing_id(height: u64, time: u64, sender: Seq<char>, seed: Seq<u8>) -> Seq<
    char,
> {
    hex_of(pseudo_bytes(id_material(height, time, sender, seed)))
}

/// Builds the identifier entropy for one request.
fn build_id_material(height: u64, time: u64, sender: &str, seed: &Vec<u8>) -> (r: Vec<u8>)
    ensures
        r@ == id_material(height, time, sender@, seed@),
{
    let mut r = u64_be_bytes(height);
    let t = u64_be_bytes(time);
    r.extend_from_slice(t.as_slice());
    r.extend_from_slice(sender.as_bytes());
    r.extend_from_slice(seed.as_slice());
    proof {
        assert(r@ =~= id_material(height, time, sender@, seed@));
    }
    r
}

/// Derives a fresh listing identifier: 64 lower-case hex digits, a pure
/// function of block height, block time, sender address and process seed.
pub fn derive_listing_id(height: u64, time: u64, sender: &str, seed: &Vec<u8>) -> (r: String)
    ensures
        r@ == spec_listing_id(height, time, sender@, seed@),
{
    let material = build_id_material(height, time, sender, seed);
    let bytes = draw_pseudo_bytes(&material);
    hex_encode(&bytes)
}

/// The entropy a viewing credential is derived from: the identifier entropy
/// of the request, followed by the caller-supplied entropy bytes.
pub open spec fn credential_material(
    height: u64,
    time: u64,
    sender: Seq<char>,
    seed: Seq<u8>,
    entropy: Seq<char>,
) -> Seq<u8> {
    id_material(height, time, sender, seed) + encode_utf8(entropy)
}

/// The viewing credential derived for one request.
pub open spec fn spec_credential(
    height: u64,
    time: u64,
    sender: Seq<char>,
    seed: Seq<u8>,
    entropy: Seq<char>,
) -> Seq<char> {
    hex_of(pseudo_bytes(credential_material(height, time, sender, seed, entropy)))
}

/// Derives a fresh viewing credential: 64 lower-case hex digits, a pure
/// function of block height, block time, sender address, process seed and the
/// supplied entropy.
pub fn derive_credential(height: u64, time: u64, sender: &str, seed: &Vec<u8>, entropy: &str) -> (r:
    String)
    ensures
        r@ == spec_credential(height, time, sender@, seed@, entropy@),
{
    let mut material = build_id_material(height, time, sender, seed);
    material.extend_from_slice(entropy.as_bytes());
    proof {
        assert(material@ =~= credential_material(height, time, sender@, seed@, entropy@));
    }
    let bytes = draw_pseudo_bytes(&material);
    hex_encode(&bytes)
}

} // verus!
