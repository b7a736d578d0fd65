//! Optional end-to-end encryption of chat text, as the client applies it: a
//! 32-byte key, AES-256-GCM with a fresh 12-byte nonce per message, and the
//! nonce-plus-ciphertext blob carried as base64 text.

use crate::credentials::{b64_decode, b64_decode_of, b64_encode, b64_of};
use crate::errors::ClientError;
use crate::messages::MessagePayload;
use crate::strutil::string_from_utf8;
use vstd::prelude::*;
use vstd::utf8::{decode_utf8, encode_utf8, encode_utf8_decode_utf8, encode_utf8_valid_utf8,
    valid_utf8};

verus! {

/// The nonce length AES-GCM uses here, in bytes.
pub const NONCE_SIZE: usize = 12;

/// What AES-256-GCM decryption yields for a key, nonce, and ciphertext: the
/// plaintext when the ciphertext authenticates, nothing otherwise. A
/// function of its arguments alone.
pub uninterp spec fn aes_open(key: Seq<u8>, nonce: Seq<u8>, ct: Seq<u8>) -> Option<Seq<u8>>;

/// Relies on `aes_gcm::Aes256Gcm::encrypt` with a nonce freshly drawn from
/// the secure source: whatever nonce came out, decrypting the ciphertext
/// with it and the same key gives the message back.
#[verifier::external_body]
pub fn encrypt(key: &[u8], message: &[u8]) -> (r: Result<(Vec<u8>, Vec<u8>), ClientError>)
    requires
        key@.len() == 32,
    ensures
        match r {
            Ok((ct, nonce)) => nonce@.len() == 12 && aes_open(key@, nonce@, ct@) == Some(
                message@,
            ),
            Err(e) => e == ClientError::EncryptMessage,
        },
{
    let key = aes_gcm::Key::<aes_gcm::Aes256Gcm>::from_slice(key);
    let cipher = <aes_gcm::Aes256Gcm as aes_gcm::KeyInit>::new(key);
    let nonce = <aes_gcm::Aes256Gcm as aes_gcm::AeadCore>::generate_nonce(
        &mut aes_gcm::aead::OsRng,
    );
    let ciphertext = aes_gcm::aead::Aead::encrypt(&cipher, &nonce, message).map_err(
        |_| ClientError::EncryptMessage,
    )?;
    Ok((ciphertext, nonce.to_vec()))
}

/// Relies on `aes_gcm::Aes256Gcm::decrypt`: authenticated decryption, a
/// function of key, nonce, and ciphertext alone.
#[verifier::external_body]
pub fn decrypt(key: &[u8], nonce: &[u8], ciphertext: &[u8]) -> (r: Result<Vec<u8>, ClientError>)
    requires
        key@.len() == 32,
        nonce@.len() == 12,
    ensures
        match r {
            Ok(pt) => aes_open(key@, nonce@, ciphertext@) == Some(pt@),
            Err(e) => aes_open(key@, nonce@, ciphertext@) is None && e
                == ClientError::DecryptMessage,
        },
{
    let key = aes_gcm::Key::<aes_gcm::Aes256Gcm>::from_slice(key);
    let cipher = <aes_gcm::Aes256Gcm as aes_gcm::KeyInit>::new(key);
    let nonce = aes_gcm::Nonce::from_slice(nonce);
    aes_gcm::aead::Aead::decrypt(&cipher, nonce, ciphertext).map_err(
        |_| ClientError::DecryptMessage,
    )
}

/// `input` padded with zero bytes to exactly 32 bytes; longer input is cut.
pub fn pad_to_32_bytes(input: &[u8]) -> (r: Vec<u8>)
    ensures
        r@.len() == 32,
        forall|i: int|
            0 <= i < 32 ==> r@[i] == (if i < input@.len() {
                input@[i]
            } else {
                0u8
            }),
{
    let mut padded: Vec<u8> = Vec::new();
    let n = if input.len() < 32 {
        input.len()
    } else {
        32
    };
    let mut i: usize = 0;
    while i < n
        invariant
            n <= 32,
            n <= input@.len(),
            i <= n,
            padded@.len() == i,
            forall|j: int| 0 <= j < i ==> padded@[j] == input@[j],
        decreases n - i,
    {
        padded.push(input[i]);
        i += 1;
    }
    while i < 32
        invariant
            n <= 32,
            n <= i <= 32,
            n == (if input@.len() < 32 {
                input@.len() as int
            } else {
                32int
            }),
            padded@.len() == i,
            forall|j: int| 0 <= j < n ==> padded@[j] == input@[j],
            forall|j: int| n <= j < i ==> padded@[j] == 0u8,
        decreases 32 - i,
    {
        padded.push(0u8);
        i += 1;
    }
    padded
}

/// What decrypting an encrypted text payload yields, from the carried
/// base64 blob: the nonce is its first 12 bytes, the ciphertext the rest.
pub open spec fn decrypt_text_model(key: Seq<u8>, enc: Seq<char>) -> Option<Seq<char>> {
    match b64_decode_of(enc) {
        None => None,
        Some(d) => if d.len() < 12 {
            None
        } else {
            match aes_open(key, d.take(12), d.skip(12)) {
                None => None,
                Some(pt) => if valid_utf8(pt) {
                    Some(decode_utf8(pt))
                } else {
                    None
                },
            }
        },
    }
}

/// Encrypts a text payload under `key`; every other payload passes through
/// unchanged. The carried text becomes the base64 of nonce-plus-ciphertext.
pub fn encrypt_payload(data: MessagePayload, key: &[u8]) -> (r: Result<
    MessagePayload,
    ClientError,
>)
    requires
        key@.len() == 32,
    ensures
        match data@ {
            crate::messages::PayloadView::Text(t) => match r {
                Ok(p) => p@ matches crate::messages::PayloadView::Text(e) && exists|
                    nonce: Seq<u8>,
                    ct: Seq<u8>,
                |
                    {
                        &&& nonce.len() == 12
                        &&& #[trigger] aes_open(key@, nonce, ct) == Some(encode_utf8(t))
                        &&& e == b64_of(nonce + ct)
                        &&& b64_decode_of(e) == Some(nonce + ct)
                    },
                Err(e) => e == ClientError::EncryptMessage,
            },
            _ => r matches Ok(p) && p@ == data@,
        },
{
    match data {
        MessagePayload::Text(text) => {
            let (encrypted_msg, nonce) = encrypt(key, text.as_str().as_bytes())?;
            let mut message_to_send = nonce;
            let ghost nonce_seq = message_to_send@;
            message_to_send.extend_from_slice(encrypted_msg.as_slice());
            let encoded = b64_encode(message_to_send.as_slice());
            proof {
                assert(message_to_send@ =~= nonce_seq + encrypted_msg@);
            }
            Ok(MessagePayload::Text(encoded))
        },
        other => Ok(other),
    }
}

/// Decrypts a text payload under `key`; every other payload passes through
/// unchanged. Failure to decode, authenticate, or read the plaintext as
/// UTF-8 is a decryption failure.
pub fn decrypt_payload(data: MessagePayload, encryption_key: &[u8]) -> (r: Result<
    MessagePayload,
    ClientError,
>)
    requires
        encryption_key@.len() == 32,
    ensures
        match data@ {
            crate::messages::PayloadView::Text(t) => match r {
                Ok(p) => p@ matches crate::messages::PayloadView::Text(s) && decrypt_text_model(
                    encryption_key@,
                    t,
                ) == Some(s),
                Err(e) => decrypt_text_model(encryption_key@, t) is None && e
                    == ClientError::DecryptMessage,
            },
            _ => r matches Ok(p) && p@ == data@,
        },
{
    match data {
        MessagePayload::Text(text) => {
            let decoded = match b64_decode(text.as_str()) {
                Ok(d) => d,
                Err(()) => {
                    return Err(ClientError::DecryptMessage);
                },
            };
            if decoded.len() < NONCE_SIZE {
                return Err(ClientError::DecryptMessage);
            }
            let nonce = &decoded.as_slice()[0..NONCE_SIZE];
            let encrypted_msg = &decoded.as_slice()[NONCE_SIZE..decoded.len()];
            let decrypted = decrypt(encryption_key, nonce, encrypted_msg)?;
            proof {
                assert(nonce@ =~= decoded@.take(12));
                assert(encrypted_msg@ =~= decoded@.skip(12));
            }
            match string_from_utf8(decrypted) {
                Ok(text) => Ok(MessagePayload::Text(text)),
                Err(()) => Err(ClientError::DecryptMessage),
            }
        },
        other => Ok(other),
    }
}

/// The encryption round trip: an encrypted text payload decrypts back to
/// the original text. The requirements are exactly what encryption
/// established about its output.
pub proof fn lemma_e2e_roundtrip(key: Seq<u8>, nonce: Seq<u8>, ct: Seq<u8>, t: Seq<char>)
    requires
        nonce.len() == 12,
        aes_open(key, nonce, ct) == Some(encode_utf8(t)),
        b64_decode_of(b64_of(nonce + ct)) == Some(nonce + ct),
    ensures
        decrypt_text_model(key, b64_of(nonce + ct)) == Some(t),
{
    let d = nonce + ct;
    assert(d.take(12) =~= nonce);
    assert(d.skip(12) =~= ct);
    encode_utf8_valid_utf8(t);
    encode_utf8_decode_utf8(t);
}

} // verus!
