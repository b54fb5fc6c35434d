//! Streaming content fingerprinting: a file's bytes are absorbed in bounded
//! chunks, so memory use stays constant whatever the file size, and the
//! resulting fingerprint depends on the byte content alone.
use vstd::prelude::*;
use md5::Digest;

verus! {

/// The MD5 digest of a byte sequence, printed as 32 lowercase hex digits.
/// The algorithm itself is left abstract: the contracts only rely on the
/// digest being a function of the bytes alone.
pub uninterp spec fn md5_hex_of(bytes: Seq<u8>) -> Seq<char>;

/// The bytes a hasher has absorbed so far.
pub uninterp spec fn absorbed(h: ContentHasher) -> Seq<u8>;

#[verifier::external_type_specification]
#[verifier::external_body]
pub struct ExMd5(md5::Md5);

/// Incremental content fingerprinter over the MD5 algorithm. Callers feed it
/// chunks of any size and close it once the whole content has been read; no
/// partial fingerprint is ever exposed.
pub struct ContentHasher {
    inner: md5::Md5,
}

/// The concatenation of a sequence of byte chunks.
pub open spec fn concat_bytes(chunks: Seq<Seq<u8>>) -> Seq<u8>
    decreases chunks.len(),
{
    if chunks.len() == 0 {
        Seq::empty()
    } else {
        concat_bytes(chunks.drop_last()) + chunks.last()
    }
}

impl ContentHasher {
    /// Relies on `md5::Md5::new` (`Digest::new`): a fresh hasher has absorbed
    /// nothing.
    #[verifier::external_body]
    fn init() -> (h: ContentHasher)
        ensures
            absorbed(h) == Seq::<u8>::empty(),
    {
        ContentHasher { inner: md5::Md5::new() }
    }

    /// Relies on `md5::Md5::update` (`Digest::update`): the chunk is absorbed
    /// after everything absorbed before it.
    #[verifier::external_body]
    fn update(&mut self, chunk: &[u8])
        ensures
            absorbed(*final(self)) == absorbed(*old(self)) + chunk@,
    {
        self.inner.update(chunk);
    }

    /// Relies on `md5::Md5::finalize` (`Digest::finalize`): the digest is a
    /// function of the absorbed bytes alone, 16 bytes long, printed here as 32
    /// lowercase hex digits.
    #[verifier::external_body]
    fn close(self) -> (r: String)
        ensures
            r@ == md5_hex_of(absorbed(self)),
            r@.len() == 32,
    {
        let digest = self.inner.finalize();
        let mut out = String::new();
        for b in digest.iter() {
            out += &format!("{:02x}", b);
        }
        out
    }

    /// A hasher that has absorbed nothing yet.
    pub fn new() -> (h: ContentHasher)
        ensures
            absorbed(h) == Seq::<u8>::empty(),
    {
        ContentHasher::init()
    }

    /// Absorbs one chunk of content.
    pub fn absorb(&mut self, chunk: &[u8])
        ensures
            absorbed(*final(self)) == absorbed(*old(self)) + chunk@,
    {
        self.update(chunk);
    }

    /// Closes the stream and returns the fingerprint of everything absorbed.
    pub fn finish(self) -> (r: String)
        ensures
            r@ == md5_hex_of(absorbed(self)),
            r@.len() == 32,
    {
        self.close()
    }
}

/// The fingerprint of a byte slice held in memory.
pub fn hash_bytes(data: &[u8]) -> (r: String)
    ensures
        r@ == md5_hex_of(data@),
        r@.len() == 32,
{
    let mut h = ContentHasher::new();
    h.absorb(data);
    proof {
        assert(Seq::<u8>::empty() + data@ =~= data@);
    }
    h.finish()
}

/// The fingerprint of content presented as a sequence of chunks, equal to the
/// fingerprint of the chunks' concatenation however the content was split.
pub fn hash_chunks(chunks: &Vec<Vec<u8>>) -> (r: String)
    ensures
        r@ == md5_hex_of(concat_bytes(chunks@.map_values(|c: Vec<u8>| c@))),
        r@.len() == 32,
{
    let ghost m: Seq<Seq<u8>> = chunks@.map_values(|c: Vec<u8>| c@);
    let mut h = ContentHasher::new();
    let mut i: usize = 0;
    while i < chunks.len()
        invariant
            i <= chunks.len(),
            m == chunks@.map_values(|c: Vec<u8>| c@),
            absorbed(h) == concat_bytes(m.take(i as int)),
        decreases chunks.len() - i,
    {
        h.absorb(chunks[i].as_slice());
        proof {
            assert(m.take(i + 1).drop_last() =~= m.take(i as int));
            assert(m.take(i + 1).last() == m[i as int]);
        }
        i = i + 1;
    }
    proof {
        assert(m.take(chunks@.len() as int) =~= m);
    }
    h.finish()
}

/// Fingerprint determinism: the fingerprint depends on the byte content
/// alone, so two chunkings of the same content — however the chunk
/// boundaries fall — yield the same fingerprint.
pub proof fn lemma_fingerprint_deterministic(a: Seq<Seq<u8>>, b: Seq<Seq<u8>>)
    requires
        concat_bytes(a) == concat_bytes(b),
    ensures
        md5_hex_of(concat_bytes(a)) == md5_hex_of(concat_bytes(b)),
{
}

} // verus!
