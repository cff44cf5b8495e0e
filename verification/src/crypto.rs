//! Symmetric-cipher utilities: padding of byte strings to a block size and
//! its removal, key derivation, and sealing of a byte string together with a
//! checksum of it.
//!
//! The digest, the key derivation function, the block cipher and the random
//! number generator are those of the crates `sha2`, `argon2`, `aes` with
//! `cbc`, and `rand`.  What this module proves, it proves about the framing
//! and the checks around them; of their results it knows only that they
//! depend on nothing but their inputs, which is stated by naming them.

use aes::cipher::block_padding::Pkcs7;
use aes::cipher::{BlockDecryptMut, BlockEncryptMut, KeyIvInit};
use aes::Aes256;
use cbc::{Decryptor, Encryptor};
use rand::rngs::StdRng;
use rand::{RngCore, SeedableRng};
use sha2::{Digest, Sha256};
use vstd::prelude::*;

verus! {

/// Why padding cannot be stripped.
#[derive(Debug, Clone, Copy, PartialEq, Eq)]
pub enum Pkcs7Error {
    /// Of the trailing `padding_length` bytes only `padding_sum` hold the
    /// padding length.
    Pkcs7PaddingSumMismatch { data_length: usize, padding_length: usize, padding_sum: usize },
    /// The last byte names a padding of no bytes, or one that leaves no
    /// data.
    Pkcs7InvalidPaddingLength { data_length: usize, padding_length: usize },
}

/// The number of bytes that bring `length` up to the next multiple of
/// `multiple`: none where `length` is a multiple already, where there is no
/// data, and where `multiple` is zero.
pub open spec fn padding_needed(length: nat, multiple: nat) -> nat {
    if multiple == 0 || length == 0 || length % multiple == 0 {
        0
    } else {
        (multiple - length % multiple) as nat
    }
}

/// `count` bytes, each holding the low eight bits of `count`.
pub open spec fn padding(count: nat) -> Seq<u8> {
    Seq::new(count, |i: int| count as u8)
}

/// How many of the bytes equal `value`.
pub open spec fn occurrences(bytes: Seq<u8>, value: u8) -> nat
    decreases bytes.len(),
{
    if bytes.len() == 0 {
        0
    } else {
        occurrences(bytes.drop_last(), value) + if bytes.last() == value {
            1nat
        } else {
            0nat
        }
    }
}

/// The padding length that the last byte of non-empty `bytes` names.
pub open spec fn named_padding(bytes: Seq<u8>) -> nat {
    bytes.last() as nat
}

/// The last byte names a padding that is neither empty nor the whole of
/// `bytes`.
pub open spec fn padding_length_valid(bytes: Seq<u8>) -> bool {
    0 < named_padding(bytes) < bytes.len()
}

/// The bytes that the last byte declares to be padding.
pub open spec fn padding_tail(bytes: Seq<u8>) -> Seq<u8> {
    bytes.subrange(bytes.len() - named_padding(bytes), bytes.len() as int)
}

/// Every byte of the declared padding holds the padding length.
pub open spec fn padding_intact(bytes: Seq<u8>) -> bool {
    occurrences(padding_tail(bytes), bytes.last()) == named_padding(bytes)
}

/// **Intact padding is uniform.**  Counting occurrences never counts more
/// than there are bytes, and counts all of them exactly when every byte
/// matches: a padding is intact exactly when each of its bytes holds the
/// padding length.
pub proof fn law_occurrences_count_matches(bytes: Seq<u8>, value: u8)
    ensures
        occurrences(bytes, value) <= bytes.len(),
        occurrences(bytes, value) == bytes.len() <==> forall|i: int|
            0 <= i < bytes.len() ==> bytes[i] == value,
    decreases bytes.len(),
{
    if bytes.len() > 0 {
        law_occurrences_count_matches(bytes.drop_last(), value);
        if occurrences(bytes, value) == bytes.len() {
            assert forall|i: int| 0 <= i < bytes.len() implies bytes[i] == value by {
                if i < bytes.len() - 1 {
                    assert(bytes.drop_last()[i] == bytes[i]);
                }
            }
        }
        if forall|i: int| 0 <= i < bytes.len() ==> bytes[i] == value {
            assert forall|i: int| 0 <= i < bytes.drop_last().len() implies bytes.drop_last()[i]
                == value by {
                assert(bytes.drop_last()[i] == bytes[i]);
            }
        }
    }
}

/// Pads `data_bytes` up to the next multiple of `multiple` and returns the
/// number of bytes added.  Each added byte holds that number, cut to its low
/// eight bits.  Nothing is added to empty data, to data whose length is a
/// multiple already, or where `multiple` is zero.
pub fn pkcs7_apply(
    data_bytes: &mut Vec<u8>,
    multiple: usize,
) -> (outcome: Result<usize, Pkcs7Error>)
    requires
        old(data_bytes).len() + padding_needed(old(data_bytes).len() as nat, multiple as nat)
            <= usize::MAX,
    ensures
        outcome == Ok::<usize, Pkcs7Error>(
            padding_needed(old(data_bytes).len() as nat, multiple as nat) as usize,
        ),
        final(data_bytes)@ == old(data_bytes)@ + padding(
            padding_needed(old(data_bytes).len() as nat, multiple as nat),
        ),
{
    let data_length = data_bytes.len();
    if multiple == 0 || data_length == 0 {
        assert(data_bytes@ + padding(0) =~= data_bytes@);
        return Ok(0);
    }
    let length_remainder = data_length % multiple;
    if length_remainder == 0 {
        assert(data_bytes@ + padding(0) =~= data_bytes@);
        return Ok(0);
    }
    let distance_to_multiple = multiple - length_remainder;
    let padded_length = data_length + distance_to_multiple;
    data_bytes.resize(padded_length, #[verifier::truncate] (distance_to_multiple as u8));
    assert(data_bytes@ =~= old(data_bytes)@ + padding(distance_to_multiple as nat));
    Ok(distance_to_multiple)
}

/// Removes the padding that the last byte declares and returns its length.
/// Empty data has no padding: nothing is removed and the length is zero.
///
/// Where the declared length is zero or leaves no data, and where a byte of
/// the declared padding differs from the length, the data stays as it is and
/// the error says what was found.
pub fn pkcs7_strip(data_bytes: &mut Vec<u8>) -> (outcome: Result<usize, Pkcs7Error>)
    ensures
        old(data_bytes).len() == 0 ==> outcome == Ok::<usize, Pkcs7Error>(0) && final(data_bytes)@
            == old(data_bytes)@,
        old(data_bytes).len() > 0 && !padding_length_valid(old(data_bytes)@) ==> outcome == Err::<
            usize,
            Pkcs7Error,
        >(
            Pkcs7Error::Pkcs7InvalidPaddingLength {
                data_length: old(data_bytes).len(),
                padding_length: named_padding(old(data_bytes)@) as usize,
            },
        ) && final(data_bytes)@ == old(data_bytes)@,
        old(data_bytes).len() > 0 && padding_length_valid(old(data_bytes)@) && !padding_intact(
            old(data_bytes)@,
        ) ==> outcome == Err::<usize, Pkcs7Error>(
            Pkcs7Error::Pkcs7PaddingSumMismatch {
                data_length: old(data_bytes).len(),
                padding_length: named_padding(old(data_bytes)@) as usize,
                padding_sum: occurrences(padding_tail(old(data_bytes)@), old(data_bytes)@.last()) as usize,
            },
        ) && final(data_bytes)@ == old(data_bytes)@,
        old(data_bytes).len() > 0 && padding_length_valid(old(data_bytes)@) && padding_intact(
            old(data_bytes)@,
        ) ==> outcome == Ok::<usize, Pkcs7Error>(named_padding(old(data_bytes)@) as usize)
            && final(data_bytes)@ == old(data_bytes)@.subrange(
            0,
            old(data_bytes).len() - named_padding(old(data_bytes)@),
        ),
{
    let data_length = data_bytes.len();
    if data_length == 0 {
        return Ok(0);
    }
    let last = data_bytes[data_length - 1];
    let padding_length = last as usize;
    if padding_length == 0 || padding_length >= data_length {
        return Err(Pkcs7Error::Pkcs7InvalidPaddingLength { data_length, padding_length });
    }
    let padding_start = data_length - padding_length;
    let ghost tail = padding_tail(data_bytes@);
    let mut padding_sum: usize = 0;
    let mut i: usize = padding_start;
    proof {
        assert(tail.take(0) =~= Seq::<u8>::empty());
    }
    while i < data_length
        invariant
            padding_start <= i <= data_length,
            data_length == data_bytes.len(),
            padding_start == data_length - padding_length,
            tail == padding_tail(data_bytes@),
            tail.len() == padding_length,
            last == data_bytes@.last(),
            padding_length == named_padding(data_bytes@),
            padding_sum == occurrences(tail.take(i - padding_start), last),
            padding_sum <= i - padding_start,
        decreases data_length - i,
    {
        proof {
            let done = tail.take(i - padding_start);
            let next = tail.take(i - padding_start + 1);
            assert(next.drop_last() =~= done);
            assert(next.last() == data_bytes@[i as int]);
        }
        if data_bytes[i] == last {
            padding_sum += 1;
        }
        i += 1;
    }
    proof {
        assert(tail.take(i - padding_start) =~= tail);
    }
    if padding_sum != padding_length {
        return Err(Pkcs7Error::Pkcs7PaddingSumMismatch { data_length, padding_length, padding_sum });
    }
    data_bytes.truncate(padding_start);
    Ok(padding_length)
}

/// The error type of the key derivation crate.
#[verifier::external_type_specification]
#[verifier::external_body]
pub struct ExArgon2Error(argon2::Error);

/// The SHA-256 digest of a byte string.
pub uninterp spec fn sha256(data: Seq<u8>) -> Seq<u8>;

/// The raw Argon2 hash of a password under a salt, with the default
/// parameters of the key derivation crate.
pub uninterp spec fn argon2_raw_hash(password: Seq<u8>, salt: Seq<u8>) -> Seq<u8>;

/// The AES-256 ciphertext, in CBC mode under the given key and initial
/// vector, of a message that was padded after PKCS#7.
pub uninterp spec fn aes256_cbc_sealed(key: Seq<u8>, iv: Seq<u8>, message: Seq<u8>) -> Seq<u8>;

/// The message that AES-256 in CBC mode under the given key and initial
/// vector decrypts a ciphertext to, once its PKCS#7 padding is removed;
/// `None` where the ciphertext is not made of whole blocks or the padding is
/// malformed.
pub uninterp spec fn aes256_cbc_opened(key: Seq<u8>, iv: Seq<u8>, ciphertext: Seq<u8>) -> Option<
    Seq<u8>,
>;

/// Bytes in one block of the cipher.
pub const BLOCK_LENGTH: usize = 16;

/// Bytes in a digest.
pub const DIGEST_LENGTH: usize = 32;

/// Bytes that a sealed frame holds in front of its payload: one block of
/// random bytes, and the digest of the payload.
pub const FRAME_HEADER_LENGTH: usize = 48;

/// The length of the ciphertext of a message: the message's whole blocks,
/// and one block more for the rest of it and the padding.
pub open spec fn sealed_length(message_length: nat) -> nat {
    (message_length / 16) * 16 + 16
}

/// The key derivation accepts a password with a salt: the salt has at least
/// eight bytes, and neither is longer than 32 bits can count.
pub open spec fn argon2_accepts(password_length: nat, salt_length: nat) -> bool {
    &&& 8 <= salt_length <= 0xFFFF_FFFF
    &&& password_length <= 0xFFFF_FFFF
}

/// The SHA-256 digest of `data`, as `sha2::Sha256` computes it with `new`,
/// `update` and `finalize`.  Trusted: the digest depends on the data alone
/// and has 32 bytes.
#[verifier::external_body]
pub fn get_sha256_digest(data: &Vec<u8>) -> (digest: Vec<u8>)
    ensures
        digest@ == sha256(data@),
        digest.len() == DIGEST_LENGTH,
{
    let mut hasher = Sha256::new();
    hasher.update(data.as_slice());
    hasher.finalize().to_vec()
}

/// Sixteen bytes from `rand::rngs::StdRng`, seeded by `from_entropy` and read
/// with `fill_bytes`.  Trusted; nothing is known of the bytes.  Seeding
/// fails, and does not return, on a system that has no entropy to give.
#[verifier::external_body]
fn random_block() -> (block: [u8; 16]) {
    let mut rng = StdRng::from_entropy();
    let mut buffer: [u8; 16] = [0; 16];
    rng.fill_bytes(&mut buffer);
    buffer
}

/// Calls `argon2::hash_raw` with the crate's default configuration.
/// Trusted: the call succeeds exactly where the salt has at least eight
/// bytes and neither input is longer than 32 bits can count; the hash then
/// depends on the two inputs alone and has 32 bytes.
#[verifier::external_body]
fn argon2_hash_raw(password: &Vec<u8>, salt: &Vec<u8>) -> (hash: Result<Vec<u8>, argon2::Error>)
    ensures
        argon2_accepts(password.len() as nat, salt.len() as nat) ==> hash is Ok && hash->Ok_0@
            == argon2_raw_hash(password@, salt@) && hash->Ok_0.len() == 32,
        !argon2_accepts(password.len() as nat, salt.len() as nat) ==> hash is Err,
{
    argon2::hash_raw(password.as_slice(), salt.as_slice(), &argon2::Config::default())
}

/// Calls `encrypt_padded_mut` with PKCS#7 padding on a `cbc::Encryptor` over
/// `aes::Aes256`: encrypts the first `message_length` bytes of the buffer in
/// place and hands the ciphertext out.  Trusted: the call succeeds exactly
/// where the buffer has room for the padded message; the ciphertext then
/// depends on key, initial vector and message alone.
#[verifier::external_body]
fn cbc_encrypt_padded(
    key: &[u8; 32],
    iv: &[u8; 16],
    buffer: &mut Vec<u8>,
    message_length: usize,
) -> (ciphertext: Option<Vec<u8>>)
    ensures
        final(buffer).len() == old(buffer).len(),
        sealed_length(message_length as nat) <= old(buffer).len() ==> ciphertext is Some
            && ciphertext->Some_0@ == aes256_cbc_sealed(
            key@,
            iv@,
            old(buffer)@.take(message_length as int),
        ) && ciphertext->Some_0.len() == sealed_length(message_length as nat),
        sealed_length(message_length as nat) > old(buffer).len() ==> ciphertext is None,
{
    Encryptor::<Aes256>::new(key.into(), iv.into())
        .encrypt_padded_mut::<Pkcs7>(buffer.as_mut_slice(), message_length)
        .ok()
        .map(|sealed| sealed.to_vec())
}

/// Calls `decrypt_padded_mut` with PKCS#7 padding on a `cbc::Decryptor` over
/// `aes::Aes256`, on a copy of the ciphertext.  Trusted: the outcome depends
/// on key, initial vector and ciphertext alone.
#[verifier::external_body]
fn cbc_decrypt_padded(
    key: &[u8; 32],
    iv: &[u8; 16],
    ciphertext: &Vec<u8>,
) -> (message: Option<Vec<u8>>)
    ensures
        message is Some <==> aes256_cbc_opened(key@, iv@, ciphertext@) is Some,
        message is Some ==> message->Some_0@ == aes256_cbc_opened(key@, iv@, ciphertext@)->Some_0,
{
    let mut buffer = ciphertext.clone();
    Decryptor::<Aes256>::new(key.into(), iv.into())
        .decrypt_padded_mut::<Pkcs7>(buffer.as_mut_slice())
        .ok()
        .map(|opened| opened.to_vec())
}

/// Why a key cannot be derived.
#[derive(Debug, Clone, Copy, PartialEq, Eq, Structural)]
pub enum KeyError {
    /// The data, which serves as its own salt, has fewer than eight bytes.
    SaltTooShort,
    /// The data is longer than 32 bits can count.
    DataTooLong,
}

/// Why a byte string cannot be opened.
#[derive(Debug, Clone, Copy, PartialEq, Eq, Structural)]
pub enum CipherError {
    /// The ciphertext is not made of whole blocks, or its padding is
    /// malformed.
    Malformed,
    /// The decrypted frame is too short to hold the random block and the
    /// digest.
    TooShort { length: usize },
    /// The digest in the frame is not the digest of the payload.
    ChecksumMismatch,
}

/// The key that a raw hash stands for: the hash, filled up with zero bytes;
/// all zero where the hash is longer than a key.
pub open spec fn key_of(hash: Seq<u8>) -> Seq<u8> {
    Seq::new(
        32,
        |i: int|
            if hash.len() <= 32 && i < hash.len() {
                hash[i]
            } else {
                0u8
            },
    )
}

/// The key that a raw hash stands for.
pub fn key_from_hash(hash: &Vec<u8>) -> (key: [u8; 32])
    ensures
        key@ == key_of(hash@),
{
    let mut buffer: [u8; 32] = [0u8; 32];
    if hash.len() <= 32 {
        let mut i: usize = 0;
        while i < hash.len()
            invariant
                i <= hash.len() <= 32,
                forall|j: int| 0 <= j < i ==> buffer@[j] == hash@[j],
                forall|j: int| i <= j < 32 ==> buffer@[j] == 0u8,
            decreases hash.len() - i,
        {
            buffer[i] = hash[i];
            i += 1;
        }
    }
    assert(buffer@ =~= key_of(hash@));
    buffer
}

/// Derives a 32-byte key from `data`, which serves as password and as salt.
pub fn derive_key(data: &Vec<u8>) -> (key: Result<[u8; 32], KeyError>)
    ensures
        argon2_accepts(data.len() as nat, data.len() as nat) ==> key is Ok && key->Ok_0@ == key_of(
            argon2_raw_hash(data@, data@),
        ),
        data.len() < 8 ==> key == Err::<[u8; 32], KeyError>(KeyError::SaltTooShort),
        data.len() > 0xFFFF_FFFF ==> key == Err::<[u8; 32], KeyError>(KeyError::DataTooLong),
{
    match argon2_hash_raw(data, data) {
        Ok(hash) => Ok(key_from_hash(&hash)),
        Err(_) => if data.len() < 8 {
            Err(KeyError::SaltTooShort)
        } else {
            Err(KeyError::DataTooLong)
        },
    }
}

/// The frame that is sealed for a payload: a block of random bytes, the
/// digest of the payload, the payload.
pub open spec fn framed(nonce: Seq<u8>, digest: Seq<u8>, payload: Seq<u8>) -> Seq<u8> {
    nonce + digest + payload
}

/// Puts a frame together.
pub fn frame(nonce: &[u8; 16], digest: &Vec<u8>, payload: &Vec<u8>) -> (frame: Vec<u8>)
    ensures
        frame@ == framed(nonce@, digest@, payload@),
{
    let mut frame: Vec<u8> = Vec::new();
    let mut i: usize = 0;
    while i < 16
        invariant
            i <= 16,
            frame@ == nonce@.take(i as int),
        decreases 16 - i,
    {
        frame.push(nonce[i]);
        assert(nonce@.take(i + 1) =~= nonce@.take(i as int).push(nonce@[i as int]));
        i += 1;
    }
    assert(nonce@.take(16) =~= nonce@);
    let mut i: usize = 0;
    while i < digest.len()
        invariant
            i <= digest.len(),
            frame@ == nonce@ + digest@.take(i as int),
        decreases digest.len() - i,
    {
        frame.push(digest[i]);
        assert(nonce@ + digest@.take(i + 1) =~= (nonce@ + digest@.take(i as int)).push(
            digest@[i as int],
        ));
        i += 1;
    }
    assert(digest@.take(digest.len() as int) =~= digest@);
    let mut i: usize = 0;
    while i < payload.len()
        invariant
            i <= payload.len(),
            frame@ == nonce@ + digest@ + payload@.take(i as int),
        decreases payload.len() - i,
    {
        frame.push(payload[i]);
        assert(nonce@ + digest@ + payload@.take(i + 1) =~= (nonce@ + digest@ + payload@.take(
            i as int,
        )).push(payload@[i as int]));
        i += 1;
    }
    assert(payload@.take(payload.len() as int) =~= payload@);
    frame
}

/// The digest that a frame carries.
pub open spec fn frame_digest(frame: Seq<u8>) -> Seq<u8> {
    frame.subrange(16, 48)
}

/// The payload that a frame carries.
pub open spec fn frame_payload(frame: Seq<u8>) -> Seq<u8> {
    frame.subrange(48, frame.len() as int)
}

/// Takes a frame apart into the digest it carries and its payload.  A frame
/// that is too short to hold the random block and a digest is refused.
pub fn split_frame(frame: &Vec<u8>) -> (parts: Result<(Vec<u8>, Vec<u8>), CipherError>)
    ensures
        frame.len() < FRAME_HEADER_LENGTH ==> parts == Err::<(Vec<u8>, Vec<u8>), CipherError>(
            CipherError::TooShort { length: frame.len() },
        ),
        frame.len() >= FRAME_HEADER_LENGTH ==> parts is Ok && parts->Ok_0.0@ == frame_digest(frame@)
            && parts->Ok_0.1@ == frame_payload(frame@),
{
    if frame.len() < FRAME_HEADER_LENGTH {
        return Err(CipherError::TooShort { length: frame.len() });
    }
    let mut digest: Vec<u8> = Vec::new();
    let mut i: usize = 16;
    while i < 48
        invariant
            16 <= i <= 48 <= frame.len(),
            digest@ == frame@.subrange(16, i as int),
        decreases 48 - i,
    {
        digest.push(frame[i]);
        assert(frame@.subrange(16, i + 1) =~= frame@.subrange(16, i as int).push(frame@[i as int]));
        i += 1;
    }
    let mut payload: Vec<u8> = Vec::new();
    let mut i: usize = 48;
    while i < frame.len()
        invariant
            48 <= i <= frame.len(),
            payload@ == frame@.subrange(48, i as int),
        decreases frame.len() - i,
    {
        payload.push(frame[i]);
        assert(frame@.subrange(48, i + 1) =~= frame@.subrange(48, i as int).push(frame@[i as int]));
        i += 1;
    }
    Ok((digest, payload))
}

/// Whether two byte strings are the same.
pub fn same_bytes(a: &Vec<u8>, b: &Vec<u8>) -> (same: bool)
    ensures
        same == (a@ == b@),
{
    if a.len() != b.len() {
        return false;
    }
    let mut i: usize = 0;
    while i < a.len()
        invariant
            i <= a.len(),
            a.len() == b.len(),
            forall|j: int| 0 <= j < i ==> a@[j] == b@[j],
        decreases a.len() - i,
    {
        if a[i] != b[i] {
            return false;
        }
        i += 1;
    }
    assert(a@ =~= b@);
    true
}

/// What opening a decrypted frame yields, given the digest of its payload.
pub open spec fn frame_outcome(
    frame: Seq<u8>,
    payload_digest: Seq<u8>,
) -> Result<Seq<u8>, CipherError> {
    if frame.len() < FRAME_HEADER_LENGTH {
        Err(CipherError::TooShort { length: frame.len() as usize })
    } else if frame_digest(frame) == payload_digest {
        Ok(frame_payload(frame))
    } else {
        Err(CipherError::ChecksumMismatch)
    }
}

/// The view of an outcome that carries bytes.
pub open spec fn outcome_view(
    outcome: Result<Vec<u8>, CipherError>,
) -> Result<Seq<u8>, CipherError> {
    match outcome {
        Ok(bytes) => Ok(bytes@),
        Err(error) => Err(error),
    }
}

/// Opens a decrypted frame: hands out its payload if the digest that the
/// frame carries is the digest `payload_digest` of that payload.
pub fn check_frame(
    digest: &Vec<u8>,
    payload: Vec<u8>,
    payload_digest: &Vec<u8>,
) -> (outcome: Result<Vec<u8>, CipherError>)
    ensures
        digest@ == payload_digest@ ==> outcome is Ok && outcome->Ok_0@ == payload@,
        digest@ != payload_digest@ ==> outcome == Err::<Vec<u8>, CipherError>(
            CipherError::ChecksumMismatch,
        ),
{
    if same_bytes(digest, payload_digest) {
        Ok(payload)
    } else {
        Err(CipherError::ChecksumMismatch)
    }
}

/// Opens a decrypted frame: checks the payload against the digest that the
/// frame carries, and hands the payload out.
pub fn open_frame(frame: &Vec<u8>) -> (outcome: Result<Vec<u8>, CipherError>)
    ensures
        outcome_view(outcome) == frame_outcome(frame@, sha256(frame_payload(frame@))),
{
    match split_frame(frame) {
        Err(error) => Err(error),
        Ok((digest, payload)) => {
            let payload_digest = get_sha256_digest(&payload);
            check_frame(&digest, payload, &payload_digest)
        },
    }
}

/// What opening yields, given what the cipher decrypted the ciphertext to.
pub open spec fn opened_outcome(decrypted: Option<Seq<u8>>) -> Result<Seq<u8>, CipherError> {
    match decrypted {
        None => Err(CipherError::Malformed),
        Some(frame) => frame_outcome(frame, sha256(frame_payload(frame))),
    }
}

/// Seals a plaintext with a given block of random bytes and a given initial
/// vector: frames it behind the random block and its own digest, and
/// encrypts the frame under `key`.
pub fn seal_with(
    plaintext: &Vec<u8>,
    key: &[u8; 32],
    nonce: &[u8; 16],
    iv: &[u8; 16],
) -> (ciphertext: Vec<u8>)
    requires
        plaintext.len() + FRAME_HEADER_LENGTH + BLOCK_LENGTH <= usize::MAX,
    ensures
        ciphertext@ == aes256_cbc_sealed(key@, iv@, framed(nonce@, sha256(plaintext@), plaintext@)),
        ciphertext.len() == sealed_length((plaintext.len() + FRAME_HEADER_LENGTH) as nat),
{
    let digest = get_sha256_digest(plaintext);
    let in_data = frame(nonce, &digest, plaintext);
    let in_length = in_data.len();
    let mut cipher_buf = in_data;
    let mut i: usize = 0;
    while i < BLOCK_LENGTH
        invariant
            i <= BLOCK_LENGTH,
            in_length == plaintext.len() + FRAME_HEADER_LENGTH,
            cipher_buf.len() == in_length + i,
            cipher_buf@.take(in_length as int) == framed(nonce@, digest@, plaintext@),
            in_length + BLOCK_LENGTH <= usize::MAX,
        decreases BLOCK_LENGTH - i,
    {
        cipher_buf.push(0u8);
        assert(cipher_buf@.take(in_length as int) =~= framed(nonce@, digest@, plaintext@));
        i += 1;
    }
    match cbc_encrypt_padded(key, iv, &mut cipher_buf, in_length) {
        Some(ciphertext) => ciphertext,
        None => Vec::new(),
    }
}

/// Seals a plaintext: frames it behind a block of random bytes and its own
/// digest, and encrypts the frame under `key` with a random initial vector.
pub fn encrypt(plaintext: &Vec<u8>, key: &[u8; 32]) -> (ciphertext: Vec<u8>)
    requires
        plaintext.len() + FRAME_HEADER_LENGTH + BLOCK_LENGTH <= usize::MAX,
    ensures
        exists|nonce: Seq<u8>, iv: Seq<u8>|
            nonce.len() == 16 && iv.len() == 16 && ciphertext@ == #[trigger] aes256_cbc_sealed(
                key@,
                iv,
                framed(nonce, sha256(plaintext@), plaintext@),
            ),
        ciphertext.len() == sealed_length((plaintext.len() + FRAME_HEADER_LENGTH) as nat),
{
    let nonce = random_block();
    let iv = random_block();
    let ciphertext = seal_with(plaintext, key, &nonce, &iv);
    assert(ciphertext@ == aes256_cbc_sealed(
        key@,
        iv@,
        framed(nonce@, sha256(plaintext@), plaintext@),
    ));
    ciphertext
}

/// Opens a sealed byte string with a given initial vector: decrypts it under
/// `key`, checks the payload against the digest in the frame, and hands the
/// payload out.
pub fn open_with(ciphertext: &Vec<u8>, key: &[u8; 32], iv: &[u8; 16]) -> (outcome: Result<
    Vec<u8>,
    CipherError,
>)
    ensures
        outcome_view(outcome) == opened_outcome(aes256_cbc_opened(key@, iv@, ciphertext@)),
{
    match cbc_decrypt_padded(key, iv, ciphertext) {
        None => Err(CipherError::Malformed),
        Some(frame) => open_frame(&frame),
    }
}

/// Opens a sealed byte string: decrypts it under `key` with a random initial
/// vector, which garbles no more than the frame's leading block of random
/// bytes, checks the payload against the digest in the frame, and hands the
/// payload out.
pub fn decrypt(ciphertext: &Vec<u8>, key: &[u8; 32]) -> (outcome: Result<Vec<u8>, CipherError>)
    ensures
        exists|iv: Seq<u8>|
            iv.len() == 16 && outcome_view(outcome) == opened_outcome(
                #[trigger] aes256_cbc_opened(key@, iv, ciphertext@),
            ),
{
    let iv = random_block();
    let outcome = open_with(ciphertext, key, &iv);
    assert(outcome_view(outcome) == opened_outcome(aes256_cbc_opened(key@, iv@, ciphertext@)));
    outcome
}

} // verus!
