//! Content digests for the deduplicator: streaming SHA-256 plus the
//! uppercase hexadecimal rendering used as the digest key.

use vstd::prelude::*;

verus! {

/// The uppercase hexadecimal digit for a nibble value.
pub open spec fn spec_hex_digit(n: u8) -> char
    recommends
        n < 16,
{
    if n == 0 {
        '0'
    } else if n == 1 {
        '1'
    } else if n == 2 {
        '2'
    } else if n == 3 {
        '3'
    } else if n == 4 {
        '4'
    } else if n == 5 {
        '5'
    } else if n == 6 {
        '6'
    } else if n == 7 {
        '7'
    } else if n == 8 {
        '8'
    } else if n == 9 {
        '9'
    } else if n == 10 {
        'A'
    } else if n == 11 {
        'B'
    } else if n == 12 {
        'C'
    } else if n == 13 {
        'D'
    } else if n == 14 {
        'E'
    } else {
        'F'
    }
}

/// Uppercase hexadecimal encoding of a byte sequence: two digits per byte,
/// high nibble first.
pub open spec fn spec_hex_upper(data: Seq<u8>) -> Seq<char>
    decreases data.len(),
{
    if data.len() == 0 {
        Seq::<char>::empty()
    } else {
        seq![spec_hex_digit(data.first() / 16), spec_hex_digit(data.first() % 16)]
            + spec_hex_upper(data.drop_first())
    }
}

/// The SHA-256 digest of a byte sequence, as computed by the `ring` crate.
pub uninterp spec fn sha256_of(data: Seq<u8>) -> Seq<u8>;

/// Relies on ring::digest::digest with the SHA256 algorithm: the digest is a
/// function of the input bytes alone and is 32 bytes long.
#[verifier::external_body]
fn sha256(data: &[u8]) -> (r: Vec<u8>)
    ensures
        r@ == sha256_of(data@),
        r@.len() == 32,
{
    ring::digest::digest(&ring::digest::SHA256, data).as_ref().to_vec()
}

/// Relies on data_encoding::HEXUPPER.encode: uppercase hexadecimal, two
/// digits per input byte, high nibble first.
#[verifier::external_body]
fn hex_upper(data: &[u8]) -> (r: String)
    ensures
        r@ == spec_hex_upper(data@),
{
    data_encoding::HEXUPPER.encode(data)
}

/// The digest key a file's contents are deduplicated under: the uppercase
/// hexadecimal form of the file's SHA-256 digest.
pub open spec fn spec_content_digest(data: Seq<u8>) -> Seq<char> {
    spec_hex_upper(sha256_of(data))
}

proof fn lemma_hex_upper_len(data: Seq<u8>)
    ensures
        spec_hex_upper(data).len() == 2 * data.len(),
    decreases data.len(),
{
    if data.len() > 0 {
        lemma_hex_upper_len(data.drop_first());
    }
}

/// Hash a file's contents for deduplication.
pub fn hash_bytes(data: &[u8]) -> (r: String)
    ensures
        r@ == spec_content_digest(data@),
        r@.len() == 64,
{
    let digest = sha256(data);
    let hex = hex_upper(digest.as_slice());
    proof {
        lemma_hex_upper_len(sha256_of(data@));
    }
    hex
}

#[verifier::external_type_specification]
#[verifier::external_body]
pub struct ExDigestContext(ring::digest::Context);

/// A streaming SHA-256 digest: large assets are hashed chunk by chunk so
/// the pool can be deduplicated without loading any file whole into memory.
/// `seen` tracks the bytes fed so far.
pub struct StreamingDigest {
    pub ctx: ring::digest::Context,
    pub seen: Ghost<Seq<u8>>,
}

/// Relies on ring::digest::Context::new: a fresh SHA-256 streaming context.
#[verifier::external_body]
fn new_sha256_context() -> (r: ring::digest::Context) {
    ring::digest::Context::new(&ring::digest::SHA256)
}

impl StreamingDigest {
    /// Open a fresh streaming digest with no bytes fed yet.
    pub fn new() -> (r: StreamingDigest)
        ensures
            r.seen@ == Seq::<u8>::empty(),
    {
        StreamingDigest { ctx: new_sha256_context(), seen: Ghost(Seq::empty()) }
    }

    /// Relies on ring::digest::Context::update: feeding the data in chunks
    /// digests their concatenation.
    #[verifier::external_body]
    pub fn update(&mut self, data: &[u8])
        ensures
            final(self).seen@ == old(self).seen@ + data@,
    {
        self.ctx.update(data);
    }

    /// Relies on ring::digest::Context::finish: the digest of everything
    /// fed so far, equal to the one-shot SHA-256 of the same bytes.
    #[verifier::external_body]
    pub fn finish(self) -> (r: Vec<u8>)
        ensures
            r@ == sha256_of(self.seen@),
            r@.len() == 32,
    {
        self.ctx.finish().as_ref().to_vec()
    }
}

/// Finish a streamed file hash as the deduplicator's digest key: the
/// uppercase hexadecimal of the SHA-256 over every byte fed in.
pub fn finish_digest(sd: StreamingDigest) -> (r: String)
    ensures
        r@ == spec_content_digest(sd.seen@),
        r@.len() == 64,
{
    let ghost seen = sd.seen@;
    let digest = sd.finish();
    let hex = hex_upper(digest.as_slice());
    proof {
        lemma_hex_upper_len(sha256_of(seen));
    }
    hex
}

} // verus!
