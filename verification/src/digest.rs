//! Digest algorithms and streaming accumulators.
//!
//! The supported algorithms form a closed set, selected purely from the
//! character length of an expected hex digest: 40 selects SHA-1, 64 selects
//! SHA-256, 128 selects SHA-512, and every other length (including 0)
//! selects no algorithm at all, whose digest is the empty byte sequence.
//!
//! A streaming accumulator absorbs byte chunks of arbitrary size and, once,
//! finalizes into the digest of everything absorbed, so hashing can run
//! concurrently with disk writes without buffering the whole input.

use vstd::prelude::*;

verus! {

/// The closed set of supported digest algorithms, plus `NoDigest`, the
/// sentinel chosen when an expected-hash length matches no algorithm.
#[derive(Clone, Copy, Debug, PartialEq, Eq, Structural)]
pub enum DigestAlgorithm {
    Sha1,
    Sha256,
    Sha512,
    NoDigest,
}

/// The selection rule: the character length of the expected hex digest is
/// the sole selector; no content sniffing takes place.
pub open spec fn algorithm_for(len: nat) -> DigestAlgorithm {
    if len == 40 {
        DigestAlgorithm::Sha1
    } else if len == 64 {
        DigestAlgorithm::Sha256
    } else if len == 128 {
        DigestAlgorithm::Sha512
    } else {
        DigestAlgorithm::NoDigest
    }
}

/// Byte length of each algorithm's digest.
pub open spec fn digest_byte_len(alg: DigestAlgorithm) -> nat {
    match alg {
        DigestAlgorithm::Sha1 => 20,
        DigestAlgorithm::Sha256 => 32,
        DigestAlgorithm::Sha512 => 64,
        DigestAlgorithm::NoDigest => 0,
    }
}

/// Character length of each algorithm's digest in hex: two digits per byte.
pub open spec fn canonical_hex_len(alg: DigestAlgorithm) -> nat {
    2 * digest_byte_len(alg)
}

/// The SHA-1 digest of a byte sequence. Left uninterpreted: the value is
/// whatever the `sha1` crate computes (see `Sha1Stream::finalize`).
pub uninterp spec fn sha1_of(data: Seq<u8>) -> Seq<u8>;

/// The SHA-256 digest of a byte sequence (computed by the `sha2` crate).
pub uninterp spec fn sha256_of(data: Seq<u8>) -> Seq<u8>;

/// The SHA-512 digest of a byte sequence (computed by the `sha2` crate).
pub uninterp spec fn sha512_of(data: Seq<u8>) -> Seq<u8>;

/// The digest an algorithm assigns to a byte sequence; `NoDigest` assigns
/// the empty sequence to every input.
pub open spec fn digest_of(alg: DigestAlgorithm, data: Seq<u8>) -> Seq<u8> {
    match alg {
        DigestAlgorithm::Sha1 => sha1_of(data),
        DigestAlgorithm::Sha256 => sha256_of(data),
        DigestAlgorithm::Sha512 => sha512_of(data),
        DigestAlgorithm::NoDigest => Seq::<u8>::empty(),
    }
}

/// The lowercase hex digit for a value below 16.
pub open spec fn hex_digit(n: int) -> char
    recommends
        0 <= n < 16,
{
    if n == 0 {
        '0'
    } else if n == 1 {
        '1'
    } else if n == 2 {
        '2'
    } else if n == 3 {
        '3'
    } else if n == 4 {
        '4'
    } else if n == 5 {
        '5'
    } else if n == 6 {
        '6'
    } else if n == 7 {
        '7'
    } else if n == 8 {
        '8'
    } else if n == 9 {
        '9'
    } else if n == 10 {
        'a'
    } else if n == 11 {
        'b'
    } else if n == 12 {
        'c'
    } else if n == 13 {
        'd'
    } else if n == 14 {
        'e'
    } else {
        'f'
    }
}

/// Lowercase hex encoding of a byte sequence: two digits per byte, high
/// nibble first.
pub open spec fn hex_of(bytes: Seq<u8>) -> Seq<char>
    decreases bytes.len(),
{
    if bytes.len() == 0 {
        Seq::<char>::empty()
    } else {
        seq![hex_digit(bytes[0] as int / 16), hex_digit(bytes[0] as int % 16)] + hex_of(
            bytes.drop_first(),
        )
    }
}

/// Hex encoding doubles the length.
pub proof fn lemma_hex_of_len(bytes: Seq<u8>)
    ensures
        hex_of(bytes).len() == 2 * bytes.len(),
    decreases bytes.len(),
{
    if bytes.len() > 0 {
        lemma_hex_of_len(bytes.drop_first());
    }
}

/// The hex-encoded digest an algorithm assigns to a byte sequence; this is
/// what both the download path and the standalone re-verification compare
/// against the expected string.
pub open spec fn digest_hex(alg: DigestAlgorithm, data: Seq<u8>) -> Seq<char> {
    hex_of(digest_of(alg, data))
}

/// A live SHA-1 state from the `sha1` crate, opaque to the verifier; the
/// bytes it has absorbed are tracked by `Sha1Stream`.
#[verifier::external_body]
struct Sha1Inner {
    state: sha1::Sha1,
}

/// A live SHA-256 state from the `sha2` crate, opaque to the verifier.
#[verifier::external_body]
struct Sha256Inner {
    state: sha2::Sha256,
}

/// A live SHA-512 state from the `sha2` crate, opaque to the verifier.
#[verifier::external_body]
struct Sha512Inner {
    state: sha2::Sha512,
}

/// Relies on `sha1::Digest::new`: a fresh hasher, which has absorbed
/// nothing; `Sha1Stream::new` pairs it with the empty stream.
#[verifier::external_body]
fn sha1_inner_new() -> Sha1Inner {
    Sha1Inner { state: <sha1::Sha1 as sha1::Digest>::new() }
}

/// Relies on `sha2::Digest::new`: a fresh hasher, which has absorbed
/// nothing; `Sha256Stream::new` pairs it with the empty stream.
#[verifier::external_body]
fn sha256_inner_new() -> Sha256Inner {
    Sha256Inner { state: <sha2::Sha256 as sha2::Digest>::new() }
}

/// Relies on `sha2::Digest::new`: a fresh hasher, which has absorbed
/// nothing; `Sha512Stream::new` pairs it with the empty stream.
#[verifier::external_body]
fn sha512_inner_new() -> Sha512Inner {
    Sha512Inner { state: <sha2::Sha512 as sha2::Digest>::new() }
}

/// A streaming SHA-1 accumulator: a live hasher state paired with the byte
/// sequence it has absorbed so far.
pub struct Sha1Stream {
    inner: Sha1Inner,
    absorbed: Ghost<Seq<u8>>,
}

impl Sha1Stream {
    /// The bytes this accumulator has absorbed since it was created.
    pub closed spec fn bytes(self) -> Seq<u8> {
        self.absorbed@
    }

    /// A fresh accumulator: a new hasher paired with the empty stream.
    pub fn new() -> (s: Self)
        ensures
            s.bytes() == Seq::<u8>::empty(),
    {
        Sha1Stream { inner: sha1_inner_new(), absorbed: Ghost(Seq::<u8>::empty()) }
    }

    /// Relies on `sha1::Digest::update`: the hash is a streaming fold, so
    /// absorbing a chunk appends it to the absorbed stream.
    #[verifier::external_body]
    pub fn update(&mut self, data: &[u8])
        ensures
            final(self).bytes() == old(self).bytes() + data@,
    {
        sha1::Digest::update(&mut self.inner.state, data);
    }

    /// Relies on `sha1::Digest::finalize`: the digest of everything
    /// absorbed, 20 bytes long (the documented SHA-1 output size).
    #[verifier::external_body]
    pub fn finalize(self) -> (digest: Vec<u8>)
        ensures
            digest@ == sha1_of(self.bytes()),
            digest@.len() == 20,
    {
        sha1::Digest::finalize(self.inner.state).to_vec()
    }
}

/// A streaming SHA-256 accumulator.
pub struct Sha256Stream {
    inner: Sha256Inner,
    absorbed: Ghost<Seq<u8>>,
}

impl Sha256Stream {
    /// The bytes this accumulator has absorbed since it was created.
    pub closed spec fn bytes(self) -> Seq<u8> {
        self.absorbed@
    }

    /// A fresh accumulator: a new hasher paired with the empty stream.
    pub fn new() -> (s: Self)
        ensures
            s.bytes() == Seq::<u8>::empty(),
    {
        Sha256Stream { inner: sha256_inner_new(), absorbed: Ghost(Seq::<u8>::empty()) }
    }

    /// Relies on `sha2::Digest::update`: absorbing a chunk appends it to
    /// the absorbed stream.
    #[verifier::external_body]
    pub fn update(&mut self, data: &[u8])
        ensures
            final(self).bytes() == old(self).bytes() + data@,
    {
        sha2::Digest::update(&mut self.inner.state, data);
    }

    /// Relies on `sha2::Digest::finalize`: the digest of everything
    /// absorbed, 32 bytes long (the documented SHA-256 output size).
    #[verifier::external_body]
    pub fn finalize(self) -> (digest: Vec<u8>)
        ensures
            digest@ == sha256_of(self.bytes()),
            digest@.len() == 32,
    {
        sha2::Digest::finalize(self.inner.state).to_vec()
    }
}

/// A streaming SHA-512 accumulator.
pub struct Sha512Stream {
    inner: Sha512Inner,
    absorbed: Ghost<Seq<u8>>,
}

impl Sha512Stream {
    /// The bytes this accumulator has absorbed since it was created.
    pub closed spec fn bytes(self) -> Seq<u8> {
        self.absorbed@
    }

    /// A fresh accumulator: a new hasher paired with the empty stream.
    pub fn new() -> (s: Self)
        ensures
            s.bytes() == Seq::<u8>::empty(),
    {
        Sha512Stream { inner: sha512_inner_new(), absorbed: Ghost(Seq::<u8>::empty()) }
    }

    /// Relies on `sha2::Digest::update`: absorbing a chunk appends it to
    /// the absorbed stream.
    #[verifier::external_body]
    pub fn update(&mut self, data: &[u8])
        ensures
            final(self).bytes() == old(self).bytes() + data@,
    {
        sha2::Digest::update(&mut self.inner.state, data);
    }

    /// Relies on `sha2::Digest::finalize`: the digest of everything
    /// absorbed, 64 bytes long (the documented SHA-512 output size).
    #[verifier::external_body]
    pub fn finalize(self) -> (digest: Vec<u8>)
        ensures
            digest@ == sha512_of(self.bytes()),
            digest@.len() == 64,
    {
        sha2::Digest::finalize(self.inner.state).to_vec()
    }
}

/// One live hash accumulator, or none: the executable counterpart of
/// `DigestAlgorithm`. Not reusable after `finalize`; a fresh instance is
/// required per verification pass.
pub enum HasherEnum {
    Sha1(Sha1Stream),
    Sha256(Sha256Stream),
    Sha512(Sha512Stream),
    NoDigest(Ghost<Seq<u8>>),
}

impl HasherEnum {
    /// Which algorithm this accumulator runs.
    pub open spec fn algorithm(self) -> DigestAlgorithm {
        match self {
            HasherEnum::Sha1(_) => DigestAlgorithm::Sha1,
            HasherEnum::Sha256(_) => DigestAlgorithm::Sha256,
            HasherEnum::Sha512(_) => DigestAlgorithm::Sha512,
            HasherEnum::NoDigest(_) => DigestAlgorithm::NoDigest,
        }
    }

    /// All bytes fed to this accumulator so far, in order.
    pub open spec fn absorbed(self) -> Seq<u8> {
        match self {
            HasherEnum::Sha1(s) => s.bytes(),
            HasherEnum::Sha256(s) => s.bytes(),
            HasherEnum::Sha512(s) => s.bytes(),
            HasherEnum::NoDigest(g) => g@,
        }
    }

    /// A fresh accumulator for the given algorithm.
    pub fn new(alg: DigestAlgorithm) -> (h: Self)
        ensures
            h.algorithm() == alg,
            h.absorbed() == Seq::<u8>::empty(),
    {
        match alg {
            DigestAlgorithm::Sha1 => HasherEnum::Sha1(Sha1Stream::new()),
            DigestAlgorithm::Sha256 => HasherEnum::Sha256(Sha256Stream::new()),
            DigestAlgorithm::Sha512 => HasherEnum::Sha512(Sha512Stream::new()),
            DigestAlgorithm::NoDigest => HasherEnum::NoDigest(Ghost(Seq::<u8>::empty())),
        }
    }

    /// Absorbs one chunk. Chunks may have arbitrary, non-uniform sizes:
    /// the accumulated digest depends only on the concatenation of all
    /// chunks, never on how they were cut.
    pub fn update(&mut self, data: &[u8])
        ensures
            final(self).algorithm() == old(self).algorithm(),
            final(self).absorbed() == old(self).absorbed() + data@,
    {
        let ghost appended = self.absorbed() + data@;
        match self {
            HasherEnum::Sha1(s) => s.update(data),
            HasherEnum::Sha256(s) => s.update(data),
            HasherEnum::Sha512(s) => s.update(data),
            HasherEnum::NoDigest(g) => {
                *g = Ghost(appended);
            },
        }
    }

    /// Consumes the accumulator and returns the digest of everything it
    /// absorbed, as raw bytes; empty when no algorithm was selected.
    pub fn finalize(self) -> (digest: Vec<u8>)
        ensures
            digest@ == digest_of(self.algorithm(), self.absorbed()),
            digest@.len() == digest_byte_len(self.algorithm()),
    {
        match self {
            HasherEnum::Sha1(s) => s.finalize(),
            HasherEnum::Sha256(s) => s.finalize(),
            HasherEnum::Sha512(s) => s.finalize(),
            HasherEnum::NoDigest(_) => Vec::new(),
        }
    }
}

/// Relies on `hex::encode`: lowercase hexadecimal, two digits per byte,
/// high nibble first.
#[verifier::external_body]
pub(crate) fn hex_encode(bytes: &[u8]) -> (r: String)
    ensures
        r@ == hex_of(bytes@),
{
    hex::encode(bytes)
}

/// Law: the length-based selection inverts the canonical digest length,
/// so each algorithm is re-selected by the length of its own hex digests.
pub proof fn lemma_selection_round_trip(alg: DigestAlgorithm)
    ensures
        algorithm_for(canonical_hex_len(alg)) == alg,
{
}

/// Law: an empty expected digest is matched by every content. Length 0
/// selects `NoDigest`, whose finalized digest hex-encodes to the empty
/// string, which equals the empty expected string whatever `data` is.
pub proof fn lemma_empty_expected_always_matches(expected: Seq<char>, data: Seq<u8>)
    requires
        expected.len() == 0,
    ensures
        digest_hex(algorithm_for(expected.len()), data) == expected,
{
    assert(digest_hex(DigestAlgorithm::NoDigest, data) =~= expected);
}

/// Law: a digest string computed from the data itself is accepted when the
/// data is re-verified under length-based selection. The second premise,
/// that the string has the algorithm's canonical hex length, holds of every
/// digest the accumulators produce: `finalize` states the documented output
/// sizes and `lemma_hex_of_len` doubles them.
pub proof fn lemma_own_digest_verifies(alg: DigestAlgorithm, data: Seq<u8>, expected: Seq<char>)
    requires
        expected == digest_hex(alg, data),
        expected.len() == canonical_hex_len(alg),
    ensures
        algorithm_for(expected.len()) == alg,
        digest_hex(algorithm_for(expected.len()), data) == expected,
{
}

} // verus!
