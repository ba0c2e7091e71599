//! Symmetric, authenticated, streaming encryption of byte streams.
//!
//! A container starts with the four magic bytes `DOBY`, followed by a
//! 77-byte parameter header (salt, key-derivation costs, cipher id), the
//! ciphertext (same length as the plaintext) and a trailing 32-byte
//! authentication tag over header and ciphertext.

use vstd::prelude::*;

pub mod auth;
pub mod cipher;
pub mod crypto;
pub mod kdf;
pub mod laws;
pub mod wire;

use crate::auth::blake2b_mac;
use crate::cipher::{lemma_xor_keystream_append, xor_keystream, CipherAlgorithm};
use crate::crypto::{
    spec_authentication_key, spec_encryption_key, spec_nonce, DobyCipher, EncryptionParams,
};
use crate::wire::{append_bytes, copy_range};

verus! {

/// The four ASCII magic bytes `DOBY` that open every container.
pub open spec fn spec_magic() -> Seq<u8> {
    seq![0x44u8, 0x4fu8, 0x42u8, 0x59u8]
}

/// The magic bytes as a vector.
pub fn magic_bytes() -> (r: Vec<u8>)
    ensures
        r@ == spec_magic(),
{
    let mut v: Vec<u8> = Vec::new();
    v.push(0x44);
    v.push(0x4f);
    v.push(0x42);
    v.push(0x59);
    proof {
        assert(v@ =~= spec_magic());
    }
    v
}

/// Container recognition: true exactly when the peeked bytes are `DOBY`.
pub fn is_magic(bytes: &[u8]) -> (r: bool)
    ensures
        r == (bytes@ == spec_magic()),
{
    if bytes.len() != 4 {
        proof {
            assert(bytes@.len() != spec_magic().len());
        }
        return false;
    }
    let r = bytes[0] == 0x44 && bytes[1] == 0x4f && bytes[2] == 0x42 && bytes[3] == 0x59;
    proof {
        if r {
            assert(bytes@ =~= spec_magic());
        }
    }
    r
}

/// The mode selector's decision: a stream is routed to the decrypter
/// exactly when force-encrypt is off and the peeked bytes are the four
/// magic bytes; anything else — including a stream shorter than four
/// bytes — is treated as plaintext to encrypt.
pub fn should_decrypt(peeked: &[u8], force_encrypt: bool) -> (r: bool)
    ensures
        r == (!force_encrypt && peeked@ == spec_magic()),
{
    !force_encrypt && is_magic(peeked)
}

/// The carry-over bytes handed to the encrypter: what the mode selector
/// already read while peeking for the magic bytes.
pub open spec fn spec_carry(already_read: Option<&[u8]>) -> Seq<u8> {
    match already_read {
        Some(c) => c@,
        None => Seq::<u8>::empty(),
    }
}

/// The whole container for a password, parameter bundle and plaintext:
/// magic, header, ciphertext, tag.
pub open spec fn spec_container(
    password: Seq<u8>,
    params: EncryptionParams,
    plain: Seq<u8>,
) -> Seq<u8> {
    let header = params.spec_serialize();
    let ct = xor_keystream(
        plain,
        params.cipher,
        spec_encryption_key(password, params),
        spec_nonce(password, params),
        0,
    );
    spec_magic() + header + ct + blake2b_mac(
        spec_authentication_key(password, params),
        header + ct,
    )
}

/// Of the bytes following the header, all but the last 32 are confirmed
/// ciphertext; with fewer than 32 bytes in all, none are.
pub open spec fn spec_confirmed_ciphertext(body: Seq<u8>) -> Seq<u8> {
    if body.len() >= 32 {
        body.take(body.len() - 32)
    } else {
        Seq::<u8>::empty()
    }
}

/// The candidate tag the decrypter holds back: the last 32 bytes, or
/// everything if the stream is shorter than a tag.
pub open spec fn spec_tag_candidate(body: Seq<u8>) -> Seq<u8> {
    if body.len() >= 32 {
        body.skip(body.len() - 32)
    } else {
        body
    }
}

/// What the decrypter writes for the bytes following the header: the
/// confirmed ciphertext with the keystream applied from offset 0.
pub open spec fn spec_decrypt_payload(
    body: Seq<u8>,
    alg: CipherAlgorithm,
    key: Seq<u8>,
    nonce: Seq<u8>,
) -> Seq<u8> {
    xor_keystream(spec_confirmed_ciphertext(body), alg, key, nonce, 0)
}

/// Whether the candidate tag matches the authenticator over what was
/// absorbed before (the header) plus the confirmed ciphertext.
pub open spec fn spec_tag_accepted(body: Seq<u8>, auth_key: Seq<u8>, absorbed: Seq<u8>) -> bool {
    blake2b_mac(auth_key, absorbed + spec_confirmed_ciphertext(body)) == spec_tag_candidate(body)
}

/// Encrypts `already_read` (the carry-over from magic-byte peeking)
/// followed by `plaintext` into a complete container appended to
/// `writer`: magic bytes, 77-byte header, ciphertext chunked by
/// `block_size`, and the 32-byte tag. The output does not depend on
/// `block_size`, and is always exactly 113 bytes longer than the
/// payload.
pub fn encrypt(
    plaintext: &[u8],
    writer: &mut Vec<u8>,
    params: &EncryptionParams,
    cipher: DobyCipher,
    block_size: usize,
    already_read: Option<&[u8]>,
)
    requires
        params.wf(),
        cipher.alg() == params.cipher,
        cipher.pos() == 0,
        cipher.absorbed() == params.spec_serialize(),
        block_size >= 1,
        (match already_read {
            Some(c) => c@.len() < block_size,
            None => true,
        }),
        spec_carry(already_read).len() + plaintext@.len() <= 0xFFFF_FFFF_FFFF_FFFF,
    ensures
        ({
            let full = spec_carry(already_read) + plaintext@;
            let ct = xor_keystream(full, cipher.alg(), cipher.enc_key(), cipher.nonce(), 0);
            &&& final(writer)@ == old(writer)@ + spec_magic() + params.spec_serialize() + ct
                + blake2b_mac(cipher.auth_key(), params.spec_serialize() + ct)
            &&& final(writer)@.len() == old(writer)@.len() + full.len() + 113
        }),
{
    let ghost full = spec_carry(already_read) + plaintext@;
    let ghost alg0 = cipher.alg();
    let ghost ekey0 = cipher.enc_key();
    let ghost nonce0 = cipher.nonce();
    let ghost akey0 = cipher.auth_key();
    let ghost header = params.spec_serialize();
    let mut cipher = cipher;

    let magic = magic_bytes();
    append_bytes(writer, magic.as_slice());
    params.write(writer);
    let ghost w1 = writer@;

    let carry_len: usize = match already_read {
        Some(c) => c.len(),
        None => 0,
    };
    let mut consumed: usize = 0;
    if let Some(carry) = already_read {
        let m = if plaintext.len() < block_size - carry.len() {
            plaintext.len()
        } else {
            block_size - carry.len()
        };
        let mut chunk: Vec<u8> = Vec::new();
        append_bytes(&mut chunk, carry);
        let head = copy_range(plaintext, 0, m);
        append_bytes(&mut chunk, head.as_slice());
        proof {
            assert(chunk@ =~= full.take((carry_len + m) as int));
        }
        cipher.encrypt_chunk(&mut chunk, writer);
        consumed = m;
    }
    proof {
        assert(full.take((carry_len + consumed) as int) =~= full.take(carry_len + consumed));
        if already_read is None {
            assert(full.take(0) =~= Seq::<u8>::empty());
            assert(xor_keystream(Seq::<u8>::empty(), alg0, ekey0, nonce0, 0)
                =~= Seq::<u8>::empty());
            assert(w1 + Seq::<u8>::empty() =~= w1);
            assert(header + Seq::<u8>::empty() =~= header);
        }
    }
    while consumed < plaintext.len()
        invariant
            consumed <= plaintext@.len(),
            block_size >= 1,
            full == spec_carry(already_read) + plaintext@,
            full.len() == carry_len + plaintext@.len(),
            full.len() <= 0xFFFF_FFFF_FFFF_FFFF,
            cipher.alg() == alg0,
            cipher.enc_key() == ekey0,
            cipher.nonce() == nonce0,
            cipher.auth_key() == akey0,
            cipher.pos() == carry_len + consumed,
            cipher.absorbed() == header + xor_keystream(
                full.take(carry_len + consumed),
                alg0,
                ekey0,
                nonce0,
                0,
            ),
            writer@ == w1 + xor_keystream(full.take(carry_len + consumed), alg0, ekey0, nonce0, 0),
        decreases plaintext@.len() - consumed,
    {
        let m = if plaintext.len() - consumed < block_size {
            plaintext.len() - consumed
        } else {
            block_size
        };
        let mut chunk = copy_range(plaintext, consumed, consumed + m);
        proof {
            assert(full.take(carry_len + consumed + m) =~= full.take(carry_len + consumed)
                + chunk@);
            lemma_xor_keystream_append(
                full.take(carry_len + consumed),
                chunk@,
                alg0,
                ekey0,
                nonce0,
                0,
            );
        }
        cipher.encrypt_chunk(&mut chunk, writer);
        consumed = consumed + m;
    }
    proof {
        assert(full.take(carry_len + consumed) =~= full);
    }
    cipher.write_hmac(writer);
    proof {
        let ct = xor_keystream(full, alg0, ekey0, nonce0, 0);
        assert(writer@ =~= old(writer)@ + spec_magic() + header + ct + blake2b_mac(
            akey0,
            header + ct,
        ));
    }
}

/// Decrypts the bytes following the header: streams them in chunks of
/// `block_size` through a look-behind buffer of 32 bytes, writes the
/// deciphered confirmed ciphertext to `writer`, and returns whether the
/// held-back candidate tag matches the authenticator. A stream shorter
/// than a whole tag verifies false.
pub fn decrypt(
    input: &[u8],
    writer: &mut Vec<u8>,
    cipher: DobyCipher,
    block_size: usize,
) -> (verified: bool)
    requires
        cipher.pos() == 0,
        cipher.residual() == Seq::<u8>::empty(),
        block_size > 32,
    ensures
        final(writer)@ == old(writer)@ + spec_decrypt_payload(
            input@,
            cipher.alg(),
            cipher.enc_key(),
            cipher.nonce(),
        ),
        verified == spec_tag_accepted(input@, cipher.auth_key(), cipher.absorbed()),
{
    let ghost alg0 = cipher.alg();
    let ghost ekey0 = cipher.enc_key();
    let ghost nonce0 = cipher.nonce();
    let ghost akey0 = cipher.auth_key();
    let ghost absorbed0 = cipher.absorbed();
    let ghost w0 = writer@;
    let mut cipher = cipher;

    let len = input.len();
    let mut pos: usize = 0;
    proof {
        assert(input@.take(0) =~= Seq::<u8>::empty());
        assert(input@.subrange(0, 0) =~= Seq::<u8>::empty());
        assert(xor_keystream(Seq::<u8>::empty(), alg0, ekey0, nonce0, 0) =~= Seq::<u8>::empty());
        assert(w0 + Seq::<u8>::empty() =~= w0);
        assert(absorbed0 + Seq::<u8>::empty() =~= absorbed0);
    }
    loop
        invariant
            block_size > 32,
            len == input@.len(),
            pos <= len,
            cipher.alg() == alg0,
            cipher.enc_key() == ekey0,
            cipher.nonce() == nonce0,
            cipher.auth_key() == akey0,
            cipher.residual().len() == if pos < 32 {
                pos as int
            } else {
                32int
            },
            cipher.residual() == input@.subrange(pos - cipher.residual().len(), pos as int),
            cipher.pos() == pos - cipher.residual().len(),
            cipher.absorbed() == absorbed0 + input@.take(pos - cipher.residual().len()),
            writer@ == w0 + xor_keystream(
                input@.take(pos - cipher.residual().len()),
                alg0,
                ekey0,
                nonce0,
                0,
            ),
        ensures
            pos == len,
            cipher.alg() == alg0,
            cipher.enc_key() == ekey0,
            cipher.nonce() == nonce0,
            cipher.auth_key() == akey0,
            cipher.residual().len() == if pos < 32 {
                pos as int
            } else {
                32int
            },
            cipher.residual() == input@.subrange(pos - cipher.residual().len(), pos as int),
            cipher.absorbed() == absorbed0 + input@.take(pos - cipher.residual().len()),
            writer@ == w0 + xor_keystream(
                input@.take(pos - cipher.residual().len()),
                alg0,
                ekey0,
                nonce0,
                0,
            ),
        decreases len - pos + 1,
    {
        let r_len: usize = if pos < 32 {
            pos
        } else {
            32
        };
        let m = if len - pos < block_size - r_len {
            len - pos
        } else {
            block_size - r_len
        };
        let ghost old_residual = cipher.residual();
        let ghost old_ks_pos = cipher.pos();
        let chunk = copy_range(input, pos, pos + m);
        proof {
            assert(old_residual + chunk@ =~= input@.subrange(pos - r_len, (pos + m) as int));
        }
        let n = cipher.decrypt_chunk(chunk.as_slice(), writer);
        proof {
            let avail = old_residual + chunk@;
            let new_pos = pos + m;
            let new_r_len: int = if new_pos < 32 {
                new_pos as int
            } else {
                32int
            };
            assert(avail.len() == r_len + m);
            if avail.len() >= 32 {
                assert(avail.skip(n as int) =~= input@.subrange(new_pos - new_r_len, new_pos as int));
            } else {
                assert(avail.skip(0) =~= avail);
                assert(avail =~= input@.subrange(new_pos - new_r_len, new_pos as int));
            }
            assert(input@.take(old_ks_pos + n) =~= input@.take(old_ks_pos) + avail.take(n as int));
            lemma_xor_keystream_append(
                input@.take(old_ks_pos),
                avail.take(n as int),
                alg0,
                ekey0,
                nonce0,
                0,
            );
        }
        pos = pos + m;
        if n == 0 {
            proof {
                if pos < len {
                    if pos - m >= 32 {
                        assert(r_len == 32);
                        assert(m == 0 || old_residual.len() + m >= 32);
                    }
                    assert(false);
                }
            }
            break;
        }
    }
    let ghost final_r_len: int = if input@.len() < 32 {
        input@.len() as int
    } else {
        32int
    };
    proof {
        assert(input@.take(input@.len() - final_r_len) =~= spec_confirmed_ciphertext(input@));
        assert(input@.subrange(input@.len() - final_r_len, input@.len() as int)
            =~= spec_tag_candidate(input@));
    }
    cipher.verify_hmac()
}

/// Records `time` for `block_size` when it beats (or first sets) the
/// best time seen so far; otherwise leaves both records unchanged.
pub fn set_if_better(
    best_time: &mut Option<u128>,
    time: u128,
    best_block_size: &mut Option<usize>,
    block_size: usize,
)
    ensures
        (*old(best_time) matches Some(bt) ==> time < bt) ==> *final(best_time) == Some(time)
            && *final(best_block_size) == Some(block_size),
        (*old(best_time) matches Some(bt) && time >= bt) ==> *final(best_time) == *old(best_time)
            && *final(best_block_size) == *old(best_block_size),
{
    let mut better = true;
    if let Some(bt) = best_time {
        better = time < *bt;
    }
    if better {
        *best_time = Some(time);
        *best_block_size = Some(block_size);
    }
}

} // verus!
