//! Stream-cipher facade: one chunk-keystream operation over the two
//! supported ciphers.
//!
//! The cipher object itself is opaque; beside it the stream keeps a
//! ghost model (algorithm, key, nonce, position) and every operation is
//! specified against the keystream determined by that model. Applying
//! the keystream across arbitrary chunk boundaries therefore provably
//! equals one application over the concatenated bytes.

use vstd::prelude::*;
use aes::cipher::{NewCipher, StreamCipher};

verus! {

/// The closed set of supported stream ciphers.
#[derive(Clone, Copy, Debug, PartialEq, Eq, Structural)]
pub enum CipherAlgorithm {
    AesCtr,
    XChaCha20,
}

impl CipherAlgorithm {
    /// The nonce length the cipher is initialised with.
    pub open spec fn spec_nonce_size(self) -> usize {
        match self {
            CipherAlgorithm::AesCtr => 16,
            CipherAlgorithm::XChaCha20 => 24,
        }
    }

    /// The nonce length the cipher is initialised with: 16 bytes for
    /// AES-CTR, 24 for XChaCha20.
    pub fn get_nonce_size(&self) -> (r: usize)
        ensures
            r == self.spec_nonce_size(),
    {
        match self {
            CipherAlgorithm::AesCtr => 16,
            CipherAlgorithm::XChaCha20 => 24,
        }
    }

    /// The single byte identifying the cipher in the container header.
    pub open spec fn spec_id_byte(self) -> u8 {
        match self {
            CipherAlgorithm::AesCtr => 0,
            CipherAlgorithm::XChaCha20 => 1,
        }
    }

    /// The single byte identifying the cipher in the container header:
    /// 0 for AES-CTR, 1 for XChaCha20.
    pub fn id_byte(&self) -> (r: u8)
        ensures
            r == self.spec_id_byte(),
    {
        match self {
            CipherAlgorithm::AesCtr => 0,
            CipherAlgorithm::XChaCha20 => 1,
        }
    }

    /// The cipher identified by a header byte; unknown bytes are a
    /// recoverable parse failure.
    pub open spec fn spec_from_id(b: u8) -> Option<CipherAlgorithm> {
        if b == 0 {
            Some(CipherAlgorithm::AesCtr)
        } else if b == 1 {
            Some(CipherAlgorithm::XChaCha20)
        } else {
            None
        }
    }

    /// Parses the cipher id byte of the container header.
    pub fn from_id(b: u8) -> (r: Option<CipherAlgorithm>)
        ensures
            r == CipherAlgorithm::spec_from_id(b),
    {
        if b == 0 {
            Some(CipherAlgorithm::AesCtr)
        } else if b == 1 {
            Some(CipherAlgorithm::XChaCha20)
        } else {
            None
        }
    }

    /// The cipher's display name.
    pub fn name(&self) -> (r: &'static str)
        ensures
            self is AesCtr ==> r@ == "AES-CTR"@,
            self is XChaCha20 ==> r@ == "XChaCha20"@,
    {
        match self {
            CipherAlgorithm::AesCtr => "AES-CTR",
            CipherAlgorithm::XChaCha20 => "XChaCha20",
        }
    }
}

/// Byte `i` of the AES-256-CTR keystream for a 32-byte key and a
/// 16-byte nonce. A fixed function of its arguments.
pub uninterp spec fn aes256_ctr_keystream(key: Seq<u8>, nonce: Seq<u8>, i: int) -> u8;

/// Byte `i` of the XChaCha20 keystream for a 32-byte key and a 24-byte
/// nonce. A fixed function of its arguments.
pub uninterp spec fn xchacha20_keystream(key: Seq<u8>, nonce: Seq<u8>, i: int) -> u8;

/// Byte `i` of the keystream of the chosen cipher.
pub open spec fn keystream_byte(alg: CipherAlgorithm, key: Seq<u8>, nonce: Seq<u8>, i: int) -> u8 {
    match alg {
        CipherAlgorithm::AesCtr => aes256_ctr_keystream(key, nonce, i),
        CipherAlgorithm::XChaCha20 => xchacha20_keystream(key, nonce, i),
    }
}

/// `data` XORed with the keystream starting at keystream offset `start`.
pub open spec fn xor_keystream(
    data: Seq<u8>,
    alg: CipherAlgorithm,
    key: Seq<u8>,
    nonce: Seq<u8>,
    start: int,
) -> Seq<u8> {
    Seq::new(data.len(), |i: int| data[i] ^ keystream_byte(alg, key, nonce, start + i))
}

/// XORing the same keystream twice gives back the original bytes.
pub proof fn lemma_xor_keystream_involution(
    data: Seq<u8>,
    alg: CipherAlgorithm,
    key: Seq<u8>,
    nonce: Seq<u8>,
    start: int,
)
    ensures
        xor_keystream(xor_keystream(data, alg, key, nonce, start), alg, key, nonce, start) == data,
{
    let once = xor_keystream(data, alg, key, nonce, start);
    let twice = xor_keystream(once, alg, key, nonce, start);
    assert forall|i: int| 0 <= i < data.len() implies twice[i] == data[i] by {
        let a = data[i];
        let k = keystream_byte(alg, key, nonce, start + i);
        assert((a ^ k) ^ k == a) by (bit_vector);
    }
    assert(twice =~= data);
}

/// Applying the keystream to concatenated chunks equals applying it to
/// each chunk at its own offset: chunk boundaries do not matter.
pub proof fn lemma_xor_keystream_append(
    a: Seq<u8>,
    b: Seq<u8>,
    alg: CipherAlgorithm,
    key: Seq<u8>,
    nonce: Seq<u8>,
    start: int,
)
    ensures
        xor_keystream(a + b, alg, key, nonce, start) == xor_keystream(a, alg, key, nonce, start)
            + xor_keystream(b, alg, key, nonce, start + a.len()),
{
    assert(xor_keystream(a + b, alg, key, nonce, start) =~= xor_keystream(a, alg, key, nonce, start)
        + xor_keystream(b, alg, key, nonce, start + a.len()));
}

/// The ghost model of a live cipher stream: which cipher, its key and
/// nonce, and how many keystream bytes have been consumed.
pub ghost struct StreamModel {
    pub alg: CipherAlgorithm,
    pub key: Seq<u8>,
    pub nonce: Seq<u8>,
    pub pos: int,
}

/// Opaque holder of the live cipher object of the outside crates. The
/// concrete cipher types cannot be named in verified signatures (the
/// XChaCha20 struct's generics are not exported), so the object is
/// held behind one trait object, as a trusted opaque field.
#[verifier::external_body]
pub(crate) struct StreamCipherHandle {
    inner: Box<dyn StreamCipher>,
}

/// A keyed stream cipher, advanced chunk by chunk.
pub struct CipherStream {
    handle: StreamCipherHandle,
    model: Ghost<StreamModel>,
}

impl View for CipherStream {
    type V = StreamModel;

    closed spec fn view(&self) -> StreamModel {
        self.model@
    }
}

/// Relies on `aes::Aes256Ctr::new_from_slices` and
/// `chacha20::XChaCha20::new_from_slices`: with a 32-byte key and a
/// nonce of the cipher's nonce length the constructors cannot fail, and
/// the fresh cipher sits at keystream offset 0 — [`CipherStream::new`]
/// records exactly that in the model the other wrappers are specified
/// against.
#[verifier::external_body]
fn new_handle(alg: CipherAlgorithm, key: &[u8], nonce: &[u8]) -> (r: StreamCipherHandle)
    requires
        key@.len() == 32,
        nonce@.len() == alg.spec_nonce_size(),
{
    let inner: Box<dyn StreamCipher> = match alg {
        CipherAlgorithm::AesCtr => Box::new(aes::Aes256Ctr::new_from_slices(key, nonce).unwrap()),
        CipherAlgorithm::XChaCha20 => Box::new(
            chacha20::XChaCha20::new_from_slices(key, nonce).unwrap(),
        ),
    };
    StreamCipherHandle { inner }
}

impl CipherStream {
    /// A fresh cipher stream for `alg`, keyed with `key` and `nonce`,
    /// at keystream offset 0.
    pub(crate) fn new(alg: CipherAlgorithm, key: &[u8], nonce: &[u8]) -> (r: CipherStream)
        requires
            key@.len() == 32,
            nonce@.len() == alg.spec_nonce_size(),
        ensures
            r@.alg == alg,
            r@.key == key@,
            r@.nonce == nonce@,
            r@.pos == 0,
    {
        let handle = new_handle(alg, key, nonce);
        CipherStream {
            handle,
            model: Ghost(StreamModel { alg, key: key@, nonce: nonce@, pos: 0 }),
        }
    }

    /// Relies on `cipher::StreamCipher::apply_keystream` for
    /// `aes::Aes256Ctr` and `chacha20::XChaCha20`: XORs the next
    /// `buf.len()` keystream bytes into `buf` in place and advances the
    /// cipher by that many bytes. Far below the ciphers' keystream end,
    /// which is past 2^64 bytes for both, the call cannot fail.
    #[verifier::external_body]
    pub(crate) fn apply_keystream(&mut self, buf: &mut Vec<u8>)
        requires
            old(self)@.pos + old(buf)@.len() <= 0xFFFF_FFFF_FFFF_FFFF,
        ensures
            final(self)@.alg == old(self)@.alg,
            final(self)@.key == old(self)@.key,
            final(self)@.nonce == old(self)@.nonce,
            final(self)@.pos == old(self)@.pos + old(buf)@.len(),
            final(buf)@.len() == old(buf)@.len(),
            old(self)@.alg == CipherAlgorithm::AesCtr ==> forall|i: int|
                0 <= i < old(buf)@.len() ==> final(buf)@[i] == (old(buf)@[i] ^ aes256_ctr_keystream(
                    old(self)@.key,
                    old(self)@.nonce,
                    old(self)@.pos + i,
                )),
            old(self)@.alg == CipherAlgorithm::XChaCha20 ==> forall|i: int|
                0 <= i < old(buf)@.len() ==> final(buf)@[i] == (old(buf)@[i] ^ xchacha20_keystream(
                    old(self)@.key,
                    old(self)@.nonce,
                    old(self)@.pos + i,
                )),
    {
        self.handle.inner.apply_keystream(buf.as_mut_slice());
    }
}

} // verus!
