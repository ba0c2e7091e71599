//! The container header parameters and the chunked encrypt/decrypt
//! state machine.

use vstd::prelude::*;
use vstd::slice::slice_subrange;
use rand::RngCore;

use crate::auth::{blake2b_mac, AuthState};
use crate::cipher::{xor_keystream, CipherAlgorithm, CipherStream};
use crate::kdf::{
    argon2id_derive, argon2id_hash, costs_valid, hkdf_blake2b_expand, hkdf_expand, wipe,
    ArgonParams,
};
use crate::wire::{
    append_bytes, bytes_equal, copy_range, lemma_u32_be_bytes_parse_serialize,
    spec_u32_from_be_bytes, spec_u32_to_be_bytes, u32_from_be_bytes, u32_to_be_bytes,
};

verus! {

/// Length of the salt stored in the container header.
pub const SALT_LEN: usize = 64;

/// Length of the authentication tag closing the container.
pub const HMAC_LEN: usize = 32;

/// Length of the master key and of the derived sub-keys.
pub const KEY_LEN: usize = 32;

/// The parameter bundle stored in the 77-byte container header: salt,
/// key-derivation costs and cipher choice.
#[derive(Debug)]
pub struct EncryptionParams {
    pub salt: Vec<u8>,
    pub argon2: ArgonParams,
    pub cipher: CipherAlgorithm,
}

impl EncryptionParams {
    /// Wire size of the serialised bundle: 64 (salt) + 4 (time cost)
    /// + 4 (memory cost) + 4 (parallelism) + 1 (cipher id).
    pub const LEN: usize = 77;

    /// A well-formed bundle: a full-length salt and an accepted cost
    /// tuple.
    pub open spec fn wf(self) -> bool {
        &&& self.salt@.len() == 64
        &&& self.argon2.wf()
    }

    /// The 77 header bytes: salt, then the three costs big-endian, then
    /// the cipher id byte.
    pub open spec fn spec_serialize(self) -> Seq<u8> {
        self.salt@ + spec_u32_to_be_bytes(self.argon2.t_cost) + spec_u32_to_be_bytes(
            self.argon2.m_cost,
        ) + spec_u32_to_be_bytes(self.argon2.parallelism as u32) + seq![self.cipher.spec_id_byte()]
    }

    /// A fresh bundle with a 64-byte salt drawn from the operating
    /// system's CSPRNG.
    pub fn new(argon2_params: ArgonParams, cipher: CipherAlgorithm) -> (r: EncryptionParams)
        requires
            argon2_params.wf(),
        ensures
            r.wf(),
            r.argon2 == argon2_params,
            r.cipher == cipher,
    {
        EncryptionParams { salt: random_salt(), argon2: argon2_params, cipher }
    }

    /// Serialises the bundle, appending its 77 bytes to `out`.
    pub fn write(&self, out: &mut Vec<u8>)
        requires
            self.wf(),
        ensures
            final(out)@ == old(out)@ + self.spec_serialize(),
            final(out)@.len() == old(out)@.len() + 77,
    {
        append_bytes(out, self.salt.as_slice());
        u32_to_be_bytes(self.argon2.t_cost, out);
        u32_to_be_bytes(self.argon2.m_cost, out);
        u32_to_be_bytes(self.argon2.parallelism as u32, out);
        out.push(self.cipher.id_byte());
        proof {
            assert(out@ =~= old(out)@ + self.spec_serialize());
        }
    }

    /// Whether a 77-byte header parses: a known cipher id and a cost
    /// tuple the key-derivation function accepts.
    pub open spec fn spec_header_parses(h: Seq<u8>) -> bool
        recommends
            h.len() == 77,
    {
        let t_cost = spec_u32_from_be_bytes(h.subrange(64, 68));
        let m_cost = spec_u32_from_be_bytes(h.subrange(68, 72));
        let p_raw = spec_u32_from_be_bytes(h.subrange(72, 76));
        &&& CipherAlgorithm::spec_from_id(h[76]) is Some
        &&& p_raw <= 255
        &&& costs_valid(t_cost, m_cost, p_raw as u8)
    }

    /// Parses a 77-byte header. Yields `None` — "not recognized" —
    /// exactly when the cipher id byte is unknown or the cost tuple is
    /// not accepted; a parsed bundle re-serialises to the same bytes.
    pub fn read(header: &[u8]) -> (r: Option<EncryptionParams>)
        requires
            header@.len() == 77,
        ensures
            r is Some <==> Self::spec_header_parses(header@),
            r is Some ==> {
                let p = r->0;
                &&& p.wf()
                &&& p.salt@ == header@.subrange(0, 64)
                &&& p.argon2.t_cost == spec_u32_from_be_bytes(header@.subrange(64, 68))
                &&& p.argon2.m_cost == spec_u32_from_be_bytes(header@.subrange(68, 72))
                &&& p.argon2.parallelism as u32 == spec_u32_from_be_bytes(
                    header@.subrange(72, 76),
                )
                &&& p.cipher.spec_id_byte() == header@[76]
                &&& p.spec_serialize() == header@
            },
    {
        let salt = copy_range(header, 0, 64);
        let t_cost = u32_from_be_bytes(slice_subrange(header, 64, 68));
        let m_cost = u32_from_be_bytes(slice_subrange(header, 68, 72));
        let p_raw = u32_from_be_bytes(slice_subrange(header, 72, 76));
        let cipher = match CipherAlgorithm::from_id(header[76]) {
            Some(c) => c,
            None => {
                return None;
            },
        };
        if p_raw > 255 {
            return None;
        }
        let parallelism = p_raw as u8;
        proof {
            assert(parallelism as u32 == p_raw) by (bit_vector)
                requires
                    p_raw <= 255,
                    parallelism == p_raw as u8,
            ;
        }
        let argon2_params = match ArgonParams::new(t_cost, m_cost, parallelism) {
            Ok(a) => a,
            Err(_) => {
                return None;
            },
        };
        let p = EncryptionParams { salt, argon2: argon2_params, cipher };
        proof {
            lemma_u32_be_bytes_parse_serialize(header@.subrange(64, 68));
            lemma_u32_be_bytes_parse_serialize(header@.subrange(68, 72));
            lemma_u32_be_bytes_parse_serialize(header@.subrange(72, 76));
            assert(p.spec_serialize() =~= header@);
        }
        Some(p)
    }
}

impl PartialEq for EncryptionParams {
    /// Bundles are equal when salt, costs and cipher all agree.
    fn eq(&self, other: &EncryptionParams) -> (r: bool) {
        let cipher_eq = match (self.cipher, other.cipher) {
            (CipherAlgorithm::AesCtr, CipherAlgorithm::AesCtr) => true,
            (CipherAlgorithm::XChaCha20, CipherAlgorithm::XChaCha20) => true,
            _ => false,
        };
        bytes_equal(self.salt.as_slice(), other.salt.as_slice()) && self.argon2.t_cost
            == other.argon2.t_cost && self.argon2.m_cost == other.argon2.m_cost
            && self.argon2.parallelism == other.argon2.parallelism && cipher_eq
    }
}

impl vstd::std_specs::cmp::PartialEqSpecImpl for EncryptionParams {
    open spec fn obeys_eq_spec() -> bool {
        true
    }

    open spec fn eq_spec(&self, other: &EncryptionParams) -> bool {
        &&& self.salt@ == other.salt@
        &&& self.argon2 == other.argon2
        &&& self.cipher == other.cipher
    }
}

/// The context string `doby_nonce` for deriving the nonce.
pub open spec fn spec_info_nonce() -> Seq<u8> {
    seq![0x64u8, 0x6fu8, 0x62u8, 0x79u8, 0x5fu8, 0x6eu8, 0x6fu8, 0x6eu8, 0x63u8, 0x65u8]
}

/// The context string `doby_encryption_key` for deriving the cipher key.
pub open spec fn spec_info_encryption_key() -> Seq<u8> {
    seq![
        0x64u8, 0x6fu8, 0x62u8, 0x79u8, 0x5fu8, 0x65u8, 0x6eu8, 0x63u8, 0x72u8, 0x79u8, 0x70u8,
        0x74u8, 0x69u8, 0x6fu8, 0x6eu8, 0x5fu8, 0x6bu8, 0x65u8, 0x79u8,
    ]
}

/// The context string `doby_authentication_key` for deriving the
/// authenticator key.
pub open spec fn spec_info_authentication_key() -> Seq<u8> {
    seq![
        0x64u8, 0x6fu8, 0x62u8, 0x79u8, 0x5fu8, 0x61u8, 0x75u8, 0x74u8, 0x68u8, 0x65u8, 0x6eu8,
        0x74u8, 0x69u8, 0x63u8, 0x61u8, 0x74u8, 0x69u8, 0x6fu8, 0x6eu8, 0x5fu8, 0x6bu8, 0x65u8,
        0x79u8,
    ]
}

/// ASCII bytes of `doby_nonce`.
fn info_nonce() -> (r: Vec<u8>)
    ensures
        r@ == spec_info_nonce(),
{
    let r: Vec<u8> = vec![0x64, 0x6f, 0x62, 0x79, 0x5f, 0x6e, 0x6f, 0x6e, 0x63, 0x65];
    proof {
        assert(r@ =~= spec_info_nonce());
    }
    r
}

/// ASCII bytes of `doby_encryption_key`.
fn info_encryption_key() -> (r: Vec<u8>)
    ensures
        r@ == spec_info_encryption_key(),
{
    let r: Vec<u8> = vec![
        0x64, 0x6f, 0x62, 0x79, 0x5f, 0x65, 0x6e, 0x63, 0x72, 0x79, 0x70, 0x74, 0x69, 0x6f, 0x6e,
        0x5f, 0x6b, 0x65, 0x79,
    ];
    proof {
        assert(r@ =~= spec_info_encryption_key());
    }
    r
}

/// ASCII bytes of `doby_authentication_key`.
fn info_authentication_key() -> (r: Vec<u8>)
    ensures
        r@ == spec_info_authentication_key(),
{
    let r: Vec<u8> = vec![
        0x64, 0x6f, 0x62, 0x79, 0x5f, 0x61, 0x75, 0x74, 0x68, 0x65, 0x6e, 0x74, 0x69, 0x63, 0x61,
        0x74, 0x69, 0x6f, 0x6e, 0x5f, 0x6b, 0x65, 0x79,
    ];
    proof {
        assert(r@ =~= spec_info_authentication_key());
    }
    r
}

/// The 32-byte master key: Argon2id over password, salt and costs.
pub open spec fn spec_master_key(password: Seq<u8>, params: EncryptionParams) -> Seq<u8> {
    argon2id_hash(
        password,
        params.salt@,
        params.argon2.t_cost,
        params.argon2.m_cost,
        params.argon2.parallelism,
    )
}

/// The derived nonce: HKDF of the master key under context
/// `doby_nonce`, as long as the cipher's nonce.
pub open spec fn spec_nonce(password: Seq<u8>, params: EncryptionParams) -> Seq<u8> {
    hkdf_blake2b_expand(
        params.salt@,
        spec_master_key(password, params),
        spec_info_nonce(),
        params.cipher.spec_nonce_size(),
    )
}

/// The derived 32-byte cipher key, context `doby_encryption_key`.
pub open spec fn spec_encryption_key(password: Seq<u8>, params: EncryptionParams) -> Seq<u8> {
    hkdf_blake2b_expand(
        params.salt@,
        spec_master_key(password, params),
        spec_info_encryption_key(),
        32,
    )
}

/// The derived 32-byte authenticator key, context
/// `doby_authentication_key`.
pub open spec fn spec_authentication_key(password: Seq<u8>, params: EncryptionParams) -> Seq<u8> {
    hkdf_blake2b_expand(
        params.salt@,
        spec_master_key(password, params),
        spec_info_authentication_key(),
        32,
    )
}

/// The chunked encrypt/decrypt state machine: a keyed cipher stream, a
/// keyed authenticator, and the look-behind buffer used by the
/// decrypter to hold back the candidate tag.
pub struct DobyCipher {
    cipher: CipherStream,
    hasher: AuthState,
    buffer: Vec<u8>,
}

impl DobyCipher {
    /// The cipher in use.
    pub closed spec fn alg(self) -> CipherAlgorithm {
        self.cipher@.alg
    }

    /// The cipher key.
    pub closed spec fn enc_key(self) -> Seq<u8> {
        self.cipher@.key
    }

    /// The cipher nonce.
    pub closed spec fn nonce(self) -> Seq<u8> {
        self.cipher@.nonce
    }

    /// How many keystream bytes have been consumed.
    pub closed spec fn pos(self) -> int {
        self.cipher@.pos
    }

    /// The authenticator key.
    pub closed spec fn auth_key(self) -> Seq<u8> {
        self.hasher@.key
    }

    /// Every byte absorbed by the authenticator so far, in order.
    pub closed spec fn absorbed(self) -> Seq<u8> {
        self.hasher@.msg
    }

    /// The decrypter's look-behind buffer.
    pub closed spec fn residual(self) -> Seq<u8> {
        self.buffer@
    }

    /// A fresh state as [`DobyCipher::new`] builds it for `password`
    /// and `params`: keys from the key schedule, the keystream at
    /// offset 0, exactly the 77 header bytes absorbed, and an empty
    /// look-behind buffer.
    pub open spec fn keyed_for(self, password: Seq<u8>, params: EncryptionParams) -> bool {
        &&& self.alg() == params.cipher
        &&& self.enc_key() == spec_encryption_key(password, params)
        &&& self.nonce() == spec_nonce(password, params)
        &&& self.auth_key() == spec_authentication_key(password, params)
        &&& self.pos() == 0
        &&& self.absorbed() == params.spec_serialize()
        &&& self.residual() == Seq::<u8>::empty()
    }

    /// Runs the key schedule: Argon2id to a master key, HKDF to nonce,
    /// cipher key and authenticator key (each secret buffer zeroed as
    /// soon as it has been consumed), then pre-feeds the authenticator
    /// with the 77 header bytes — not the magic bytes.
    pub fn new(password: &[u8], params: &EncryptionParams) -> (r: DobyCipher)
        requires
            params.wf(),
            password@.len() <= 0xFFFFFFFF,
        ensures
            r.keyed_for(password@, *params),
    {
        let mut master_key = argon2id_derive(password, params.salt.as_slice(), &params.argon2);

        let info_n = info_nonce();
        let nonce_size = params.cipher.get_nonce_size();
        let nonce = hkdf_expand(
            params.salt.as_slice(),
            master_key.as_slice(),
            info_n.as_slice(),
            nonce_size,
        );
        let info_e = info_encryption_key();
        let mut encryption_key = hkdf_expand(
            params.salt.as_slice(),
            master_key.as_slice(),
            info_e.as_slice(),
            KEY_LEN,
        );
        let info_a = info_authentication_key();
        let mut authentication_key = hkdf_expand(
            params.salt.as_slice(),
            master_key.as_slice(),
            info_a.as_slice(),
            KEY_LEN,
        );
        wipe(&mut master_key);

        let mut encoded_params: Vec<u8> = Vec::new();
        params.write(&mut encoded_params);

        let mut hasher = AuthState::new(authentication_key.as_slice());
        wipe(&mut authentication_key);
        hasher.update(encoded_params.as_slice());

        let cipher = CipherStream::new(params.cipher, encryption_key.as_slice(), nonce.as_slice());
        wipe(&mut encryption_key);

        proof {
            assert(Seq::<u8>::empty() + encoded_params@ =~= encoded_params@);
        }
        DobyCipher { cipher, hasher, buffer: Vec::new() }
    }

    /// Encrypts one chunk in place: XORs the keystream into `buff`,
    /// absorbs the resulting ciphertext, and appends it to `writer`.
    pub fn encrypt_chunk(&mut self, buff: &mut Vec<u8>, writer: &mut Vec<u8>)
        requires
            old(self).pos() + old(buff)@.len() <= 0xFFFF_FFFF_FFFF_FFFF,
        ensures
            final(self).alg() == old(self).alg(),
            final(self).enc_key() == old(self).enc_key(),
            final(self).nonce() == old(self).nonce(),
            final(self).auth_key() == old(self).auth_key(),
            final(self).residual() == old(self).residual(),
            final(self).pos() == old(self).pos() + old(buff)@.len(),
            final(buff)@ == xor_keystream(
                old(buff)@,
                old(self).alg(),
                old(self).enc_key(),
                old(self).nonce(),
                old(self).pos(),
            ),
            final(self).absorbed() == old(self).absorbed() + final(buff)@,
            final(writer)@ == old(writer)@ + final(buff)@,
    {
        self.cipher.apply_keystream(buff);
        proof {
            assert(buff@ =~= xor_keystream(
                old(buff)@,
                old(self).alg(),
                old(self).enc_key(),
                old(self).nonce(),
                old(self).pos(),
            ));
        }
        self.hasher.update(buff.as_slice());
        append_bytes(writer, buff.as_slice());
    }

    /// Finalises the authenticator and appends the 32-byte tag.
    pub fn write_hmac(self, writer: &mut Vec<u8>)
        ensures
            final(writer)@ == old(writer)@ + blake2b_mac(self.auth_key(), self.absorbed()),
            final(writer)@.len() == old(writer)@.len() + 32,
    {
        let tag = self.hasher.finalize();
        append_bytes(writer, tag.as_slice());
    }

    /// Consumes the bytes read this round. Together with the
    /// look-behind buffer, all but the last 32 available bytes are
    /// confirmed ciphertext: they are absorbed, deciphered and appended
    /// to `writer`; the last 32 stay back as the tag candidate. Returns
    /// how many bytes were confirmed.
    pub fn decrypt_chunk(&mut self, data: &[u8], writer: &mut Vec<u8>) -> (n: usize)
        requires
            old(self).residual().len() + data@.len() <= usize::MAX,
            old(self).pos() + old(self).residual().len() + data@.len() <= 0xFFFF_FFFF_FFFF_FFFF,
        ensures
            final(self).alg() == old(self).alg(),
            final(self).enc_key() == old(self).enc_key(),
            final(self).nonce() == old(self).nonce(),
            final(self).auth_key() == old(self).auth_key(),
            n == if old(self).residual().len() + data@.len() >= 32 {
                old(self).residual().len() + data@.len() - 32
            } else {
                0
            },
            final(self).residual() == (old(self).residual() + data@).skip(n as int),
            final(self).absorbed() == old(self).absorbed() + (old(self).residual()
                + data@).take(n as int),
            final(self).pos() == old(self).pos() + n,
            final(writer)@ == old(writer)@ + xor_keystream(
                (old(self).residual() + data@).take(n as int),
                old(self).alg(),
                old(self).enc_key(),
                old(self).nonce(),
                old(self).pos(),
            ),
    {
        let ghost avail = old(self).residual() + data@;
        let mut work: Vec<u8> = Vec::new();
        append_bytes(&mut work, self.buffer.as_slice());
        append_bytes(&mut work, data);
        let avail_len = work.len();
        let n: usize = if avail_len >= 32 {
            avail_len - 32
        } else {
            0
        };
        let new_residual = copy_range(work.as_slice(), n, avail_len);
        work.truncate(n);
        proof {
            assert(new_residual@ =~= avail.skip(n as int));
            assert(work@ =~= avail.take(n as int));
        }
        self.buffer = new_residual;
        self.hasher.update(work.as_slice());
        let ghost ct = work@;
        self.cipher.apply_keystream(&mut work);
        proof {
            assert(work@ =~= xor_keystream(
                ct,
                old(self).alg(),
                old(self).enc_key(),
                old(self).nonce(),
                old(self).pos(),
            ));
        }
        append_bytes(writer, work.as_slice());
        n
    }

    /// Finalises the authenticator and compares it, in constant time,
    /// against the look-behind buffer — the candidate tag.
    pub fn verify_hmac(self) -> (r: bool)
        ensures
            r == (blake2b_mac(self.auth_key(), self.absorbed()) == self.residual()),
    {
        let DobyCipher { cipher: _, hasher, buffer } = self;
        hasher.verify(buffer.as_slice())
    }
}

/// Relies on `rand::rngs::OsRng` (`fill_bytes`): fills the buffer from
/// the operating system's CSPRNG. Any outcome of 64 bytes is possible;
/// nothing more is assumed.
#[verifier::external_body]
fn random_salt() -> (r: Vec<u8>)
    ensures
        r@.len() == 64,
{
    let mut salt = vec![0u8; 64];
    rand::rngs::OsRng.fill_bytes(&mut salt);
    salt
}

} // verus!
