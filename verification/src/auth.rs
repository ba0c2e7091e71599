//! Authenticator: a keyed Blake2b hash with a 32-byte tag, absorbed
//! byte-for-byte with the header and ciphertext, then finalised or
//! verified in constant time.

use vstd::prelude::*;
use blake2::digest::{Update, VariableOutput};
use subtle::ConstantTimeEq;

verus! {

/// The 32-byte keyed Blake2b digest of `msg` under `key`. A fixed
/// function of its arguments.
pub uninterp spec fn blake2b_mac(key: Seq<u8>, msg: Seq<u8>) -> Seq<u8>;

#[verifier::external_type_specification]
#[verifier::external_body]
pub struct ExVarBlake2b(blake2::VarBlake2b);

/// The ghost model of a live authenticator: its key and the bytes
/// absorbed so far.
pub ghost struct AuthModel {
    pub key: Seq<u8>,
    pub msg: Seq<u8>,
}

/// A keyed hash in progress.
pub struct AuthState {
    inner: blake2::VarBlake2b,
    model: Ghost<AuthModel>,
}

impl View for AuthState {
    type V = AuthModel;

    closed spec fn view(&self) -> AuthModel {
        self.model@
    }
}

/// Relies on `blake2::VarBlake2b::new_keyed`: with a key of at most 64
/// bytes and an output size of 32 the constructor cannot panic, and the
/// fresh hasher has absorbed nothing — [`AuthState::new`] records
/// exactly that in the model the other wrappers are specified against.
#[verifier::external_body]
fn new_keyed_blake2b(key: &[u8]) -> (r: blake2::VarBlake2b)
    requires
        key@.len() == 32,
{
    blake2::VarBlake2b::new_keyed(key, 32)
}

impl AuthState {
    /// A fresh authenticator keyed with the 32-byte `key`, with nothing
    /// absorbed yet.
    pub(crate) fn new(key: &[u8]) -> (r: AuthState)
        requires
            key@.len() == 32,
        ensures
            r@.key == key@,
            r@.msg == Seq::<u8>::empty(),
    {
        let inner = new_keyed_blake2b(key);
        AuthState { inner, model: Ghost(AuthModel { key: key@, msg: Seq::empty() }) }
    }

    /// Relies on `blake2::digest::Update::update` for `VarBlake2b`:
    /// absorbs the bytes in order, equivalent across any chunking.
    #[verifier::external_body]
    pub(crate) fn update(&mut self, data: &[u8])
        ensures
            final(self)@.key == old(self)@.key,
            final(self)@.msg == old(self)@.msg + data@,
    {
        self.inner.update(data);
    }

    /// Relies on `blake2::digest::VariableOutput::finalize_boxed` for
    /// `VarBlake2b`: the 32-byte keyed digest of everything absorbed.
    #[verifier::external_body]
    pub(crate) fn finalize(self) -> (r: Vec<u8>)
        ensures
            r@ == blake2b_mac(self@.key, self@.msg),
            r@.len() == 32,
    {
        self.inner.finalize_boxed().into_vec()
    }

    /// Relies on `finalize_boxed` and on `subtle::ConstantTimeEq` for
    /// byte slices: true exactly when `expected` equals the 32-byte
    /// digest of everything absorbed, compared without short-circuiting
    /// on the first differing byte.
    #[verifier::external_body]
    pub(crate) fn verify(self, expected: &[u8]) -> (r: bool)
        ensures
            r == (blake2b_mac(self@.key, self@.msg) == expected@),
    {
        self.inner.finalize_boxed().ct_eq(expected).into()
    }
}

} // verus!
