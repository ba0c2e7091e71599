//! Crate-level laws relating the encrypt and decrypt pipelines.

use vstd::prelude::*;

use crate::auth::blake2b_mac;
use crate::cipher::{lemma_xor_keystream_involution, xor_keystream};
use crate::crypto::{
    spec_authentication_key, spec_encryption_key, spec_nonce, EncryptionParams,
};
use crate::wire::spec_u32_to_be_bytes;
use crate::{
    spec_confirmed_ciphertext, spec_container, spec_decrypt_payload, spec_magic,
    spec_tag_accepted, spec_tag_candidate,
};

verus! {

/// The ciphertext of the container for `password`, `params`, `plain`.
pub open spec fn spec_container_ciphertext(
    password: Seq<u8>,
    params: EncryptionParams,
    plain: Seq<u8>,
) -> Seq<u8> {
    xor_keystream(
        plain,
        params.cipher,
        spec_encryption_key(password, params),
        spec_nonce(password, params),
        0,
    )
}

/// The tag of the container for `password`, `params`, `plain`.
pub open spec fn spec_container_tag(
    password: Seq<u8>,
    params: EncryptionParams,
    plain: Seq<u8>,
) -> Seq<u8> {
    blake2b_mac(
        spec_authentication_key(password, params),
        params.spec_serialize() + spec_container_ciphertext(password, params, plain),
    )
}

/// Round trip: decrypting what the encrypter emitted after the magic
/// and header — with the keys derived from the same password and the
/// stored parameters — recovers the plaintext, and the tag verifies.
/// (The tag-length hypothesis states what the authenticator always
/// produces: a 32-byte tag.)
pub proof fn lemma_round_trip(password: Seq<u8>, params: EncryptionParams, plain: Seq<u8>)
    requires
        params.wf(),
        spec_container_tag(password, params, plain).len() == 32,
    ensures
        ({
            let body = spec_container(password, params, plain).skip(81);
            &&& spec_decrypt_payload(
                body,
                params.cipher,
                spec_encryption_key(password, params),
                spec_nonce(password, params),
            ) == plain
            &&& spec_tag_accepted(
                body,
                spec_authentication_key(password, params),
                params.spec_serialize(),
            )
        }),
{
    let ct = spec_container_ciphertext(password, params, plain);
    let tag = spec_container_tag(password, params, plain);
    let body = spec_container(password, params, plain).skip(81);
    assert(params.spec_serialize().len() == 77);
    assert(body =~= ct + tag);
    assert(body.len() == plain.len() + 32);
    assert(spec_confirmed_ciphertext(body) =~= ct);
    assert(spec_tag_candidate(body) =~= tag);
    lemma_xor_keystream_involution(
        plain,
        params.cipher,
        spec_encryption_key(password, params),
        spec_nonce(password, params),
        0,
    );
}

/// Size identity: the container is exactly 113 bytes — 4 of magic, 77
/// of header, 32 of tag — longer than the payload, whatever the
/// payload's size. (The tag-length hypothesis states what the
/// authenticator always produces: a 32-byte tag.)
pub proof fn lemma_size_identity(password: Seq<u8>, params: EncryptionParams, plain: Seq<u8>)
    requires
        params.wf(),
        spec_container_tag(password, params, plain).len() == 32,
    ensures
        spec_container(password, params, plain).len() == plain.len() + 113,
{
    assert(params.spec_serialize().len() == 77);
}

/// Chunk independence: the emitted container is a function of the
/// password, the parameter bundle and the payload alone. The encrypter
/// promises its output equals that function for every chunk size, so
/// two runs over the same payload with different chunk sizes emit
/// identical bytes.
pub proof fn lemma_chunk_independence(
    out1: Seq<u8>,
    out2: Seq<u8>,
    password: Seq<u8>,
    params: EncryptionParams,
    plain: Seq<u8>,
)
    requires
        out1 == spec_container(password, params, plain),
        out2 == spec_container(password, params, plain),
    ensures
        out1 == out2,
{
}

/// Header layout: the container opens with the magic bytes, then the
/// salt, the three costs big-endian, and the cipher id byte — which is
/// always 0 or 1 — at offset 80.
pub proof fn lemma_container_header(password: Seq<u8>, params: EncryptionParams, plain: Seq<u8>)
    requires
        params.wf(),
    ensures
        ({
            let c = spec_container(password, params, plain);
            &&& c.subrange(0, 4) == spec_magic()
            &&& c.subrange(4, 81) == params.spec_serialize()
            &&& c.subrange(4, 68) == params.salt@
            &&& c.subrange(68, 72) == spec_u32_to_be_bytes(params.argon2.t_cost)
            &&& c.subrange(72, 76) == spec_u32_to_be_bytes(params.argon2.m_cost)
            &&& c.subrange(76, 80) == spec_u32_to_be_bytes(params.argon2.parallelism as u32)
            &&& c[80] == params.cipher.spec_id_byte()
            &&& (c[80] == 0 || c[80] == 1)
        }),
{
    let c = spec_container(password, params, plain);
    assert(params.spec_serialize().len() == 77);
    assert(c.subrange(0, 4) =~= spec_magic());
    assert(c.subrange(4, 81) =~= params.spec_serialize());
    assert(c.subrange(4, 68) =~= params.salt@);
    assert(c.subrange(68, 72) =~= spec_u32_to_be_bytes(params.argon2.t_cost));
    assert(c.subrange(72, 76) =~= spec_u32_to_be_bytes(params.argon2.m_cost));
    assert(c.subrange(76, 80) =~= spec_u32_to_be_bytes(params.argon2.parallelism as u32));
    assert(c[80] == params.cipher.spec_id_byte());
}

/// Any change confined to the trailing tag of a well-formed stream is
/// detected: if the confirmed ciphertext is unchanged but the stream
/// differs at all, the tag no longer verifies.
pub proof fn lemma_tag_tamper_detected(
    body: Seq<u8>,
    tampered: Seq<u8>,
    auth_key: Seq<u8>,
    absorbed: Seq<u8>,
)
    requires
        body.len() >= 32,
        tampered.len() == body.len(),
        spec_confirmed_ciphertext(tampered) == spec_confirmed_ciphertext(body),
        tampered != body,
        spec_tag_accepted(body, auth_key, absorbed),
    ensures
        !spec_tag_accepted(tampered, auth_key, absorbed),
{
    if spec_tag_candidate(tampered) == spec_tag_candidate(body) {
        let l = body.len();
        assert forall|i: int| 0 <= i < l implies tampered[i] == body[i] by {
            if i < l - 32 {
                assert(tampered.take(l - 32)[i] == body.take(l - 32)[i]);
            } else {
                assert(tampered.skip(l - 32)[i - (l - 32)] == body.skip(l - 32)[i - (l - 32)]);
            }
        }
        assert(tampered =~= body);
    }
}

/// Force-encrypting a container again always changes it — the outer
/// container is exactly 113 bytes longer — and decrypting twice
/// recovers the original plaintext.
pub proof fn lemma_double_encrypt(
    password1: Seq<u8>,
    params1: EncryptionParams,
    password2: Seq<u8>,
    params2: EncryptionParams,
    plain: Seq<u8>,
)
    requires
        params1.wf(),
        params2.wf(),
        spec_container_tag(password1, params1, plain).len() == 32,
        spec_container_tag(
            password2,
            params2,
            spec_container(password1, params1, plain),
        ).len() == 32,
    ensures
        ({
            let inner = spec_container(password1, params1, plain);
            let outer = spec_container(password2, params2, inner);
            &&& outer.len() == inner.len() + 113
            &&& outer != inner
            &&& spec_decrypt_payload(
                outer.skip(81),
                params2.cipher,
                spec_encryption_key(password2, params2),
                spec_nonce(password2, params2),
            ) == inner
            &&& spec_decrypt_payload(
                inner.skip(81),
                params1.cipher,
                spec_encryption_key(password1, params1),
                spec_nonce(password1, params1),
            ) == plain
            &&& spec_tag_accepted(
                outer.skip(81),
                spec_authentication_key(password2, params2),
                params2.spec_serialize(),
            )
            &&& spec_tag_accepted(
                inner.skip(81),
                spec_authentication_key(password1, params1),
                params1.spec_serialize(),
            )
        }),
{
    let inner = spec_container(password1, params1, plain);
    let outer = spec_container(password2, params2, inner);
    lemma_round_trip(password1, params1, plain);
    lemma_round_trip(password2, params2, inner);
    assert(params1.spec_serialize().len() == 77);
    assert(params2.spec_serialize().len() == 77);
    assert(inner.len() == plain.len() + 113);
    assert(outer.len() == inner.len() + 113);
}

} // verus!
