//! Key-derivation costs and the memory-hard key schedule primitives.
//!
//! The cost tuple is validated up front, exactly as the underlying
//! Argon2id implementation validates it, so that deriving a key with a
//! well-formed [`ArgonParams`] cannot fail.

use vstd::prelude::*;
use zeroize::Zeroize;

verus! {

/// Rejections of a key-derivation cost tuple, mirroring the conditions
/// (and the human-readable wording) of the underlying Argon2id
/// implementation.
#[derive(Clone, Copy, Debug, PartialEq, Eq, Structural)]
pub enum KdfError {
    MemoryTooLittle,
    MemoryTooMuch,
    TimeTooSmall,
    ThreadsTooFew,
}

impl KdfError {
    /// The wording used when reporting the error.
    pub open spec fn spec_message(self) -> Seq<char> {
        match self {
            KdfError::MemoryTooLittle => "memory cost is too small"@,
            KdfError::MemoryTooMuch => "memory cost is too large"@,
            KdfError::TimeTooSmall => "time cost is too small"@,
            KdfError::ThreadsTooFew => "not enough threads"@,
        }
    }

    /// A human-readable description of the rejection.
    pub fn message(&self) -> (r: &'static str)
        ensures
            r@ == self.spec_message(),
    {
        match self {
            KdfError::MemoryTooLittle => "memory cost is too small",
            KdfError::MemoryTooMuch => "memory cost is too large",
            KdfError::TimeTooSmall => "time cost is too small",
            KdfError::ThreadsTooFew => "not enough threads",
        }
    }
}

/// The exact set of cost tuples the Argon2id implementation accepts:
/// memory cost between 8 KiB and 0x0FFFFFFF KiB, at least one pass, at
/// least one lane, and at least 8 KiB of memory per lane.
pub open spec fn costs_valid(t_cost: u32, m_cost: u32, parallelism: u8) -> bool {
    &&& 1 <= t_cost
    &&& 8 <= m_cost <= 0x0FFFFFFF
    &&& 1 <= parallelism
    &&& m_cost >= 8 * (parallelism as u32)
}

/// Key-derivation cost parameters: time cost (passes), memory cost in
/// KiB, and parallelism (lanes).
#[derive(Clone, Copy, Debug, PartialEq, Eq, Structural)]
pub struct ArgonParams {
    pub t_cost: u32,
    pub m_cost: u32,
    pub parallelism: u8,
}

impl ArgonParams {
    /// A well-formed cost tuple is one the key-derivation function accepts.
    pub open spec fn wf(self) -> bool {
        costs_valid(self.t_cost, self.m_cost, self.parallelism)
    }

    /// Validates a cost tuple, with the same checks in the same order as
    /// the underlying Argon2id implementation, so an invalid tuple is
    /// rejected before any work is done.
    pub fn new(t_cost: u32, m_cost: u32, parallelism: u8) -> (r: Result<ArgonParams, KdfError>)
        ensures
            r is Ok <==> costs_valid(t_cost, m_cost, parallelism),
            r is Ok ==> r->Ok_0 == (ArgonParams { t_cost, m_cost, parallelism }),
            m_cost < 8 ==> r == Result::<ArgonParams, KdfError>::Err(KdfError::MemoryTooLittle),
            m_cost > 0x0FFFFFFF ==> r == Result::<ArgonParams, KdfError>::Err(
                KdfError::MemoryTooMuch,
            ),
            8 <= m_cost <= 0x0FFFFFFF && t_cost < 1 ==> r == Result::<ArgonParams, KdfError>::Err(
                KdfError::TimeTooSmall,
            ),
            8 <= m_cost <= 0x0FFFFFFF && 1 <= t_cost && parallelism < 1 ==> r == Result::<
                ArgonParams,
                KdfError,
            >::Err(KdfError::ThreadsTooFew),
            8 <= m_cost <= 0x0FFFFFFF && 1 <= t_cost && 1 <= parallelism && m_cost < 8 * (
            parallelism as u32) ==> r == Result::<ArgonParams, KdfError>::Err(
                KdfError::MemoryTooLittle,
            ),
    {
        if m_cost < 8 {
            return Err(KdfError::MemoryTooLittle);
        }
        if m_cost > 0x0FFFFFFF {
            return Err(KdfError::MemoryTooMuch);
        }
        if t_cost < 1 {
            return Err(KdfError::TimeTooSmall);
        }
        if parallelism < 1 {
            return Err(KdfError::ThreadsTooFew);
        }
        if m_cost < 8 * (parallelism as u32) {
            return Err(KdfError::MemoryTooLittle);
        }
        Ok(ArgonParams { t_cost, m_cost, parallelism })
    }
}

/// The 32-byte Argon2id (version 0x13) output for a password, salt and
/// cost tuple. A fixed function of its arguments.
pub uninterp spec fn argon2id_hash(
    password: Seq<u8>,
    salt: Seq<u8>,
    t_cost: u32,
    m_cost: u32,
    parallelism: u8,
) -> Seq<u8>;

/// Relies on `argon2::Argon2::hash_password_into` (Argon2id, version
/// 0x13, no secret, no associated data): a deterministic 32-byte digest
/// of password, salt and costs. With a well-formed cost tuple, a salt of
/// 8..=0xFFFFFFFF bytes, a password of at most 0xFFFFFFFF bytes and a
/// 32-byte output buffer, the call cannot fail.
#[verifier::external_body]
pub(crate) fn argon2id_derive(password: &[u8], salt: &[u8], params: &ArgonParams) -> (r: Vec<u8>)
    requires
        params.wf(),
        8 <= salt@.len() <= 0xFFFFFFFF,
        password@.len() <= 0xFFFFFFFF,
    ensures
        r@ == argon2id_hash(password@, salt@, params.t_cost, params.m_cost, params.parallelism),
        r@.len() == 32,
{
    let inner = argon2::Argon2::new(
        argon2::Algorithm::Argon2id,
        argon2::Version::V0x13,
        argon2::Params::new(params.m_cost, params.t_cost, params.parallelism as u32, None).unwrap(),
    );
    let mut out = vec![0u8; 32];
    inner.hash_password_into(password, salt, &mut out).unwrap();
    out
}

/// The first `n` bytes of the HKDF-Blake2b-512 output keyed with `ikm`,
/// salted with `salt`, for context string `info`. A fixed function of
/// its arguments.
pub uninterp spec fn hkdf_blake2b_expand(
    salt: Seq<u8>,
    ikm: Seq<u8>,
    info: Seq<u8>,
    n: usize,
) -> Seq<u8>;

/// Relies on `hkdf::Hkdf::<blake2::Blake2b>::new` and `expand`: a
/// deterministic `n`-byte output from salt, input key material and
/// context string. `expand` fails only when more than 255 hash blocks
/// (16320 bytes) are requested.
#[verifier::external_body]
pub(crate) fn hkdf_expand(salt: &[u8], ikm: &[u8], info: &[u8], n: usize) -> (r: Vec<u8>)
    requires
        n <= 16320,
    ensures
        r@ == hkdf_blake2b_expand(salt@, ikm@, info@, n),
        r@.len() == n,
{
    let h = hkdf::Hkdf::<blake2::Blake2b>::new(Some(salt), ikm);
    let mut okm = vec![0u8; n];
    h.expand(info, &mut okm).unwrap();
    okm
}

/// Relies on `zeroize::Zeroize` for `Vec<u8>`: overwrites the contents
/// and the spare capacity with zeros (with a guarantee the writes are
/// not optimised away), then clears the vector.
#[verifier::external_body]
pub(crate) fn wipe(buf: &mut Vec<u8>)
    ensures
        final(buf)@.len() == 0,
{
    buf.zeroize();
}

} // verus!
