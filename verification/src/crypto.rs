//! Encryption/decryption for static content.
//!
//! Uses AES-256-GCM with Argon2id key derivation.
//! Format: `enc:v1:<base64(salt + nonce + ciphertext)>`
use crate::text::{chars_of, concat_str, has_prefix, starts_with_chars, string_of};
use aes_gcm::aead::{Aead, KeyInit};
use aes_gcm::{Aes256Gcm, Nonce};
use argon2::Argon2;
use base64::engine::general_purpose::STANDARD as BASE64;
use base64::Engine;
use rand::RngCore;
use vstd::prelude::*;
use vstd::slice::{slice_subrange, slice_to_vec};
use vstd::utf8::{decode_utf8, encode_utf8, valid_utf8};

verus! {

broadcast use vstd::utf8::encode_utf8_valid_utf8, vstd::utf8::encode_utf8_decode_utf8;

pub const SALT_LEN: usize = 16;

pub const NONCE_LEN: usize = 12;

/// AES-256 key length.
pub const KEY_LEN: usize = 32;

/// GCM authentication tag length.
pub const TAG_LEN: usize = 16;

/// Largest plaintext, in bytes, that AES-GCM accepts (2^36).
pub const MAX_PLAINTEXT_LEN: u64 = 0x10_0000_0000;

/// Largest password or salt, in bytes, that Argon2 accepts.
pub const MAX_ARGON2_INPUT_LEN: u64 = 0xFFFF_FFFF;

/// `base64::DecodeError`, carried by `CryptoError::InvalidBase64`.
#[verifier::external_type_specification]
#[verifier::external_body]
pub struct ExDecodeError(base64::DecodeError);

#[derive(Debug)]
pub enum CryptoError {
    InvalidFormat,
    UnsupportedVersion(String),
    DecryptionFailed,
    EncryptionFailed,
    InvalidBase64(base64::DecodeError),
    KeyNotConfigured,
}

/// Kinds of failure, as the contracts speak of them.
#[derive(Debug, Clone, Copy, PartialEq, Eq, Structural)]
pub enum CryptoFailure {
    InvalidFormat,
    InvalidBase64,
    EncryptionFailed,
    DecryptionFailed,
}

/// The marker in front of encrypted content: `enc:v1:`.
pub open spec fn prefix() -> Seq<char> {
    seq!['e', 'n', 'c', ':', 'v', '1', ':']
}

/// The 32-byte key that Argon2id (default parameters) derives from a password
/// and a salt.
pub uninterp spec fn argon2id_key(password: Seq<u8>, salt: Seq<u8>) -> Seq<u8>;

/// The AES-256-GCM ciphertext (with its 16-byte tag appended) of a message.
pub uninterp spec fn aes256gcm_seal(key: Seq<u8>, nonce: Seq<u8>, msg: Seq<u8>) -> Seq<u8>;

/// The AES-256-GCM decryption of a ciphertext with its tag: `None` when the
/// tag does not authenticate it.
pub uninterp spec fn aes256gcm_open(key: Seq<u8>, nonce: Seq<u8>, ct: Seq<u8>) -> Option<
    Seq<u8>,
>;

/// The standard base64 alphabet: `A`-`Z`, `a`-`z`, `0`-`9`, `+`, `/`.
pub open spec fn base64_digit(v: u8) -> char {
    if v < 26 {
        (('A' as u32) + (v as u32)) as char
    } else if v < 52 {
        (('a' as u32) + (v as u32) - 26) as char
    } else if v < 62 {
        (('0' as u32) + (v as u32) - 52) as char
    } else if v == 62 {
        '+'
    } else {
        '/'
    }
}

/// Standard base64 (with padding) text of bytes: each group of three bytes
/// becomes four digits of six bits each; a last group of one or two bytes
/// is padded with `=`.
pub open spec fn base64_encoded(bytes: Seq<u8>) -> Seq<char>
    decreases bytes.len(),
{
    if bytes.len() == 0 {
        Seq::empty()
    } else if bytes.len() == 1 {
        let b0 = bytes[0];
        seq![base64_digit(b0 >> 2), base64_digit((b0 & 3) << 4), '=', '=']
    } else if bytes.len() == 2 {
        let b0 = bytes[0];
        let b1 = bytes[1];
        seq![
            base64_digit(b0 >> 2),
            base64_digit(((b0 & 3) << 4) | (b1 >> 4)),
            base64_digit((b1 & 15) << 2),
            '=',
        ]
    } else {
        let b0 = bytes[0];
        let b1 = bytes[1];
        let b2 = bytes[2];
        seq![
            base64_digit(b0 >> 2),
            base64_digit(((b0 & 3) << 4) | (b1 >> 4)),
            base64_digit(((b1 & 15) << 2) | (b2 >> 6)),
            base64_digit(b2 & 63),
        ] + base64_encoded(bytes.skip(3))
    }
}

/// Standard base64 decoding of a text, `None` when it is not valid base64.
pub uninterp spec fn base64_decoded(text: Seq<char>) -> Option<Seq<u8>>;

/// Calls `Argon2::default().hash_password_into` with a 32-byte output.
/// Claimed from argon2's source: it fails exactly when the password is longer
/// than `0xFFFF_FFFF` bytes or the salt is shorter than 8 or longer than
/// `0xFFFF_FFFF` bytes, and otherwise yields the key that the parameters
/// determine.
#[verifier::external_body]
fn argon2_hash_password_into(pwd: &[u8], salt: &[u8]) -> (r: Option<[u8; 32]>)
    ensures
        r is Some <==> (pwd@.len() <= MAX_ARGON2_INPUT_LEN && 8 <= salt@.len()
            <= MAX_ARGON2_INPUT_LEN),
        r matches Some(k) ==> k@ == argon2id_key(pwd@, salt@),
{
    let mut key = [0u8; 32];
    match Argon2::default().hash_password_into(pwd, salt, &mut key) {
        Ok(()) => Some(key),
        Err(_) => None,
    }
}

/// Calls `Aes256Gcm::encrypt` (the cipher built from the key).
/// Claimed from aes-gcm's source: it fails exactly when the message is longer
/// than 2^36 bytes; the ciphertext is the message length plus the 16-byte
/// tag, and decrypting it with the same key and nonce gives the message back.
#[verifier::external_body]
fn aes_gcm_encrypt(key: &[u8; 32], nonce: &[u8; 12], msg: &[u8]) -> (r: Option<Vec<u8>>)
    ensures
        r is Some <==> msg@.len() <= MAX_PLAINTEXT_LEN,
        r matches Some(c) ==> c@ == aes256gcm_seal(key@, nonce@, msg@),
        r matches Some(c) ==> c@.len() == msg@.len() + TAG_LEN,
        r matches Some(c) ==> aes256gcm_open(key@, nonce@, c@) == Some(msg@),
{
    Aes256Gcm::new(key.into()).encrypt(Nonce::from_slice(nonce), msg).ok()
}

/// Calls `Aes256Gcm::decrypt` (the cipher built from the key).
/// Claimed: the result is the decryption of the ciphertext, a fixed function
/// of key, nonce and ciphertext.
#[verifier::external_body]
fn aes_gcm_decrypt(key: &[u8; 32], nonce: &[u8], ct: &[u8]) -> (r: Option<Vec<u8>>)
    requires
        nonce@.len() == NONCE_LEN,
    ensures
        match r {
            Some(p) => aes256gcm_open(key@, nonce@, ct@) == Some(p@),
            None => aes256gcm_open(key@, nonce@, ct@) is None,
        },
{
    Aes256Gcm::new(key.into()).decrypt(Nonce::from_slice(nonce), ct).ok()
}

/// Calls `STANDARD.encode` (base64 with padding). Claimed: the text is the
/// standard padded base64 encoding of the bytes (RFC 4648), and decoding it
/// gives the bytes back. The
/// encoder panics when the encoded length overflows `usize`; the bound on
/// the input keeps well clear of that.
#[verifier::external_body]
fn base64_encode(bytes: &[u8]) -> (r: String)
    requires
        bytes@.len() <= usize::MAX / 2,
    ensures
        r@ == base64_encoded(bytes@),
        base64_decoded(r@) == Some(bytes@),
{
    BASE64.encode(bytes)
}

/// Calls `STANDARD.decode`. Claimed: the result is a fixed function of the
/// text, and from base64's source (the standard engine requires canonical
/// padding and rejects trailing bits) it succeeds exactly on the texts that
/// are the standard padded encoding of some bytes, giving those bytes.
#[verifier::external_body]
fn base64_decode(text: &str) -> (r: Result<Vec<u8>, base64::DecodeError>)
    ensures
        match r {
            Ok(v) => base64_decoded(text@) == Some(v@) && base64_encoded(v@) == text@,
            Err(_) => base64_decoded(text@) is None && forall|b: Seq<u8>|
                #[trigger] base64_encoded(b) != text@,
        },
{
    BASE64.decode(text)
}

/// Calls `RngCore::fill_bytes` on the thread-local generator. Nothing is
/// claimed of the bytes.
#[verifier::external_body]
fn random_bytes<const N: usize>() -> (r: [u8; N]) {
    let mut bytes = [0u8; N];
    rand::rng().fill_bytes(&mut bytes);
    bytes
}

/// Calls `String::from_utf8`: `Some` exactly when the bytes are valid UTF-8,
/// holding the text they encode.
#[verifier::external_body]
fn utf8_string(bytes: Vec<u8>) -> (r: Option<String>)
    ensures
        r is Some <==> valid_utf8(bytes@),
        r matches Some(s) ==> s@ == decode_utf8(bytes@),
{
    String::from_utf8(bytes).ok()
}

/// Calls `Display` on a `base64::DecodeError`. Nothing is claimed of the text.
#[verifier::external_body]
fn decode_error_text(e: &base64::DecodeError) -> (r: String) {
    format!("{e}")
}

/// Plaintext and passphrase are within the sizes that AES-GCM and Argon2
/// accept.
pub open spec fn encryptable(plaintext: Seq<char>, passphrase: Seq<char>) -> bool {
    &&& encode_utf8(passphrase).len() <= MAX_ARGON2_INPUT_LEN
    &&& encode_utf8(plaintext).len() <= MAX_PLAINTEXT_LEN
    &&& encode_utf8(plaintext).len() + SALT_LEN + NONCE_LEN + TAG_LEN <= usize::MAX / 2
}

/// The packed bytes `salt + nonce + ciphertext`.
pub open spec fn packed_of(plaintext: Seq<char>, passphrase: Seq<char>, salt: Seq<u8>, nonce: Seq<
    u8,
>) -> Seq<u8> {
    salt + nonce + aes256gcm_seal(
        argon2id_key(encode_utf8(passphrase), salt),
        nonce,
        encode_utf8(plaintext),
    )
}

/// The encrypted text of `plaintext` under `passphrase` with the given salt
/// and nonce: `enc:v1:<base64(salt + nonce + ciphertext)>`.
pub open spec fn encrypted_text(plaintext: Seq<char>, passphrase: Seq<char>, salt: Seq<u8>, nonce: Seq<
    u8,
>) -> Seq<char> {
    prefix() + base64_encoded(packed_of(plaintext, passphrase, salt, nonce))
}

/// The bytes an encrypted text carries after its marker, base64-decoded.
pub open spec fn packed_bytes_of(encrypted: Seq<char>) -> Option<Seq<u8>> {
    base64_decoded(encrypted.skip(prefix().len() as int))
}

/// The layout of an encrypted text: after the marker, base64 of the salt,
/// the nonce and the ciphertext with its tag, so as many bytes as the
/// plaintext's UTF-8 encoding plus 16 + 12 + 16.
pub open spec fn well_laid_out(encrypted: Seq<char>, plaintext: Seq<char>) -> bool {
    &&& has_prefix(encrypted, prefix())
    &&& packed_bytes_of(encrypted) matches Some(b)
    &&& b.len() == SALT_LEN + NONCE_LEN + encode_utf8(plaintext).len() + TAG_LEN
}

/// What decrypting `encrypted` with `passphrase` gives.
pub open spec fn decrypt_outcome(encrypted: Seq<char>, passphrase: Seq<char>) -> Result<
    Seq<char>,
    CryptoFailure,
> {
    if !has_prefix(encrypted, prefix()) {
        Err(CryptoFailure::InvalidFormat)
    } else {
        match base64_decoded(encrypted.skip(prefix().len() as int)) {
            None => Err(CryptoFailure::InvalidBase64),
            Some(packed) => if packed.len() < SALT_LEN + NONCE_LEN + TAG_LEN {
                Err(CryptoFailure::InvalidFormat)
            } else if encode_utf8(passphrase).len() > MAX_ARGON2_INPUT_LEN {
                Err(CryptoFailure::EncryptionFailed)
            } else {
                let salt = packed.take(SALT_LEN as int);
                let nonce = packed.subrange(SALT_LEN as int, (SALT_LEN + NONCE_LEN) as int);
                let ct = packed.skip((SALT_LEN + NONCE_LEN) as int);
                match aes256gcm_open(argon2id_key(encode_utf8(passphrase), salt), nonce, ct) {
                    None => Err(CryptoFailure::DecryptionFailed),
                    Some(bytes) => if valid_utf8(bytes) {
                        Ok(decode_utf8(bytes))
                    } else {
                        Err(CryptoFailure::DecryptionFailed)
                    },
                }
            },
        }
    }
}

/// A result of `encrypt`/`decrypt` agrees with an outcome of the contracts.
pub open spec fn agrees(r: Result<String, CryptoError>, o: Result<Seq<char>, CryptoFailure>) -> bool {
    match (r, o) {
        (Ok(s), Ok(t)) => s@ == t,
        (Err(CryptoError::InvalidFormat), Err(CryptoFailure::InvalidFormat)) => true,
        (Err(CryptoError::InvalidBase64(_)), Err(CryptoFailure::InvalidBase64)) => true,
        (Err(CryptoError::EncryptionFailed), Err(CryptoFailure::EncryptionFailed)) => true,
        (Err(CryptoError::DecryptionFailed), Err(CryptoFailure::DecryptionFailed)) => true,
        _ => false,
    }
}

/// What opening a ciphertext yields as text: the UTF-8 text of the opened
/// bytes; a failed open or bytes that are not UTF-8 fail decryption.
pub open spec fn opened_text(opened: Option<Seq<u8>>) -> Result<Seq<char>, CryptoFailure> {
    match opened {
        None => Err(CryptoFailure::DecryptionFailed),
        Some(bytes) => if valid_utf8(bytes) {
            Ok(decode_utf8(bytes))
        } else {
            Err(CryptoFailure::DecryptionFailed)
        },
    }
}

/// The `enc:v1:` layout: the marker, then base64 of the 16 salt bytes, then
/// the 12 nonce bytes, then the AES-256-GCM ciphertext of the plaintext's
/// UTF-8 bytes under the Argon2id key of the passphrase and that salt.
pub proof fn lemma_encrypted_text_layout(
    plaintext: Seq<char>,
    passphrase: Seq<char>,
    salt: Seq<u8>,
    nonce: Seq<u8>,
)
    requires
        salt.len() == SALT_LEN,
        nonce.len() == NONCE_LEN,
    ensures
        ({
            let ct = aes256gcm_seal(
                argon2id_key(encode_utf8(passphrase), salt),
                nonce,
                encode_utf8(plaintext),
            );
            let packed = salt + nonce + ct;
            &&& encrypted_text(plaintext, passphrase, salt, nonce) == seq![
                'e',
                'n',
                'c',
                ':',
                'v',
                '1',
                ':',
            ] + base64_encoded(packed)
            &&& packed.take(16) == salt
            &&& packed.subrange(16, 28) == nonce
            &&& packed.skip(28) == ct
        }),
{
    let ct = aes256gcm_seal(argon2id_key(encode_utf8(passphrase), salt), nonce, encode_utf8(plaintext));
    let packed = salt + nonce + ct;
    assert(packed.take(16) =~= salt);
    assert(packed.subrange(16, 28) =~= nonce);
    assert(packed.skip(28) =~= ct);
}

/// Decryption reads the salt from bytes 0..16 of the decoded body, the nonce
/// from bytes 16..28 and the ciphertext from the rest, and opens it with the
/// Argon2id key of the passphrase and that salt.
pub proof fn lemma_decrypt_reads_fixed_offsets(
    encrypted: Seq<char>,
    passphrase: Seq<char>,
    packed: Seq<u8>,
)
    requires
        has_prefix(encrypted, seq!['e', 'n', 'c', ':', 'v', '1', ':']),
        base64_decoded(encrypted.skip(7)) == Some(packed),
        packed.len() >= 16 + 12 + 16,
        encode_utf8(passphrase).len() <= MAX_ARGON2_INPUT_LEN,
    ensures
        decrypt_outcome(encrypted, passphrase) == opened_text(
            aes256gcm_open(
                argon2id_key(encode_utf8(passphrase), packed.take(16)),
                packed.subrange(16, 28),
                packed.skip(28),
            ),
        ),
{
    assert(has_prefix(encrypted, prefix()));
}

/// Derive a 256-bit key from passphrase + salt using Argon2id.
fn derive_key(passphrase: &str, salt: &[u8]) -> (r: Result<[u8; KEY_LEN], CryptoError>)
    requires
        salt@.len() == SALT_LEN,
    ensures
        r is Ok <==> encode_utf8(passphrase@).len() <= MAX_ARGON2_INPUT_LEN,
        r matches Ok(k) ==> k@ == argon2id_key(encode_utf8(passphrase@), salt@),
        r matches Err(e) ==> e is EncryptionFailed,
{
    match argon2_hash_password_into(passphrase.as_bytes(), salt) {
        Some(key) => Ok(key),
        None => Err(CryptoError::EncryptionFailed),
    }
}

/// Encrypt `plaintext` with `passphrase`, using the given salt and nonce.
pub fn encrypt_with(plaintext: &str, passphrase: &str, salt: &[u8; 16], nonce: &[u8; 12]) -> (r:
    Result<String, CryptoError>)
    ensures
        r is Ok <==> encryptable(plaintext@, passphrase@),
        r matches Ok(e) ==> e@ == encrypted_text(plaintext@, passphrase@, salt@, nonce@),
        r matches Err(e) ==> e is EncryptionFailed,
        r matches Ok(e) ==> decrypt_outcome(e@, passphrase@) == Ok::<Seq<char>, CryptoFailure>(
            plaintext@,
        ),
        r matches Ok(e) ==> well_laid_out(e@, plaintext@),
        r matches Ok(e) ==> e@ == seq!['e', 'n', 'c', ':', 'v', '1', ':'] + base64_encoded(
            salt@ + nonce@ + aes256gcm_seal(
                argon2id_key(encode_utf8(passphrase@), salt@),
                nonce@,
                encode_utf8(plaintext@),
            ),
        ),
        r matches Ok(e) ==> (packed_bytes_of(e@) matches Some(b) && b.take(16) == salt@
            && b.subrange(16, 28) == nonce@),
{
    let key = derive_key(passphrase, salt)?;
    let msg = plaintext.as_bytes();
    let ciphertext = match aes_gcm_encrypt(&key, nonce, msg) {
        Some(c) => c,
        None => return Err(CryptoError::EncryptionFailed),
    };
    let mut packed: Vec<u8> = Vec::new();
    let mut i: usize = 0;
    while i < SALT_LEN
        invariant
            0 <= i <= SALT_LEN,
            packed@ == salt@.take(i as int),
        decreases SALT_LEN - i,
    {
        packed.push(salt[i]);
        assert(salt@.take(i + 1) =~= salt@.take(i as int).push(salt@[i as int]));
        i = i + 1;
    }
    assert(salt@.take(16) =~= salt@);
    let mut j: usize = 0;
    while j < NONCE_LEN
        invariant
            0 <= j <= NONCE_LEN,
            packed@ == salt@ + nonce@.take(j as int),
        decreases NONCE_LEN - j,
    {
        packed.push(nonce[j]);
        assert(nonce@.take(j + 1) =~= nonce@.take(j as int).push(nonce@[j as int]));
        assert(salt@ + nonce@.take(j + 1) =~= (salt@ + nonce@.take(j as int)).push(nonce@[j as int]));
        j = j + 1;
    }
    assert(nonce@.take(12) =~= nonce@);
    let n = ciphertext.len();
    let mut k: usize = 0;
    while k < n
        invariant
            0 <= k <= n,
            n == ciphertext@.len(),
            packed@ == salt@ + nonce@ + ciphertext@.take(k as int),
        decreases n - k,
    {
        packed.push(ciphertext[k]);
        assert(ciphertext@.take(k + 1) =~= ciphertext@.take(k as int).push(ciphertext@[k as int]));
        assert(salt@ + nonce@ + ciphertext@.take(k + 1) =~= (salt@ + nonce@ + ciphertext@.take(
            k as int,
        )).push(ciphertext@[k as int]));
        k = k + 1;
    }
    assert(ciphertext@.take(n as int) =~= ciphertext@);
    if packed.len() > usize::MAX / 2 {
        return Err(CryptoError::EncryptionFailed);
    }
    let ghost packed_bytes = packed@;
    let encoded = base64_encode(packed.as_slice());
    let result = concat_str("enc:v1:", encoded.as_str());
    proof {
        reveal_strlit("enc:v1:");
        assert("enc:v1:"@ =~= prefix());
        let e = result@;
        assert(e.take(7) =~= prefix());
        assert(e.skip(7) =~= encoded@);
        assert(packed_bytes.take(16) =~= salt@);
        assert(packed_bytes.subrange(16, 28) =~= nonce@);
        assert(packed_bytes.skip(28) =~= ciphertext@);
        assert(prefix().len() == 7);
        assert(has_prefix(e, prefix()));
        assert(packed_bytes_of(e) == Some(packed_bytes));
    }
    Ok(result)
}

/// Encrypt plaintext with the given passphrase.
///
/// Returns a string in format `enc:v1:<base64(salt + nonce + ciphertext)>`,
/// with a fresh random salt and nonce.
pub fn encrypt(plaintext: &str, passphrase: &str) -> (r: Result<String, CryptoError>)
    ensures
        r is Ok <==> encryptable(plaintext@, passphrase@),
        r matches Ok(e) ==> exists|salt: Seq<u8>, nonce: Seq<u8>|
            salt.len() == SALT_LEN && nonce.len() == NONCE_LEN && e@ == encrypted_text(
                plaintext@,
                passphrase@,
                salt,
                nonce,
            ),
        r matches Err(e) ==> e is EncryptionFailed,
        r matches Ok(e) ==> decrypt_outcome(e@, passphrase@) == Ok::<Seq<char>, CryptoFailure>(
            plaintext@,
        ),
        r matches Ok(e) ==> has_prefix(e@, prefix()),
        r matches Ok(e) ==> well_laid_out(e@, plaintext@),
        r matches Ok(e) ==> exists|salt: Seq<u8>, nonce: Seq<u8>|
            #![trigger argon2id_key(encode_utf8(passphrase@), salt), nonce.len()]
            salt.len() == SALT_LEN && nonce.len() == NONCE_LEN && e@ == seq![
                'e',
                'n',
                'c',
                ':',
                'v',
                '1',
                ':',
            ] + base64_encoded(
                salt + nonce + aes256gcm_seal(
                    argon2id_key(encode_utf8(passphrase@), salt),
                    nonce,
                    encode_utf8(plaintext@),
                ),
            ),
{
    let salt: [u8; 16] = random_bytes();
    let nonce: [u8; 12] = random_bytes();
    let r = encrypt_with(plaintext, passphrase, &salt, &nonce);
    proof {
        if let Ok(e) = &r {
            assert(e@.take(7) =~= prefix());
        }
    }
    r
}

/// Decrypt an `enc:v1:...` string with the given passphrase.
pub fn decrypt(encrypted: &str, passphrase: &str) -> (r: Result<String, CryptoError>)
    ensures
        agrees(r, decrypt_outcome(encrypted@, passphrase@)),
        has_prefix(encrypted@, prefix()) ==> (r matches Err(CryptoError::InvalidBase64(_))
            <==> forall|b: Seq<u8>| #[trigger] base64_encoded(b) != encrypted@.skip(7)),
        has_prefix(encrypted@, seq!['e', 'n', 'c', ':', 'v', '1', ':']) && encode_utf8(
            passphrase@,
        ).len() <= MAX_ARGON2_INPUT_LEN ==> match base64_decoded(encrypted@.skip(7)) {
            Some(packed) => packed.len() >= 16 + 12 + 16 ==> agrees(
                r,
                opened_text(
                    aes256gcm_open(
                        argon2id_key(encode_utf8(passphrase@), packed.take(16)),
                        packed.subrange(16, 28),
                        packed.skip(28),
                    ),
                ),
            ),
            None => true,
        },
{
    let chars = chars_of(encrypted);
    if !starts_with_chars(chars.as_slice(), &['e', 'n', 'c', ':', 'v', '1', ':']) {
        return Err(CryptoError::InvalidFormat);
    }
    let body_chars = slice_subrange(chars.as_slice(), 7, chars.len());
    let body = string_of(body_chars);
    assert(body@ =~= encrypted@.skip(7));
    let packed = match base64_decode(body.as_str()) {
        Ok(p) => p,
        Err(e) => return Err(CryptoError::InvalidBase64(e)),
    };
    if packed.len() < SALT_LEN + NONCE_LEN + TAG_LEN {
        return Err(CryptoError::InvalidFormat);
    }
    let salt = slice_subrange(packed.as_slice(), 0, SALT_LEN);
    let nonce = slice_subrange(packed.as_slice(), SALT_LEN, SALT_LEN + NONCE_LEN);
    let ciphertext = slice_subrange(packed.as_slice(), SALT_LEN + NONCE_LEN, packed.len());
    assert(salt@ =~= packed@.take(16));
    assert(ciphertext@ =~= packed@.skip(28));
    let key = derive_key(passphrase, salt)?;
    let plain = match aes_gcm_decrypt(&key, nonce, ciphertext) {
        Some(p) => p,
        None => return Err(CryptoError::DecryptionFailed),
    };
    match utf8_string(plain) {
        Some(s) => Ok(s),
        None => Err(CryptoError::DecryptionFailed),
    }
}

/// Check if a string looks like encrypted content.
pub fn is_encrypted(s: &str) -> (r: bool)
    ensures
        r == has_prefix(s@, prefix()),
{
    let chars = chars_of(s);
    starts_with_chars(chars.as_slice(), &['e', 'n', 'c', ':', 'v', '1', ':'])
}

/// The text of a crypto error, as shown to the user.
pub open spec fn crypto_error_text(e: CryptoError, text: Seq<char>) -> bool {
    match e {
        CryptoError::InvalidFormat => text == "Invalid encrypted content format"@,
        CryptoError::UnsupportedVersion(v) => text == "Unsupported encryption version: "@ + v@,
        CryptoError::DecryptionFailed => text == "Decryption failed — wrong key or corrupted data"@,
        CryptoError::EncryptionFailed => text == "Encryption failed"@,
        CryptoError::InvalidBase64(_) => has_prefix(text, "Invalid base64: "@),
        CryptoError::KeyNotConfigured => text == "encryption_key not configured in [settings]"@,
    }
}

impl CryptoError {
    /// The message shown to the user for this error.
    pub fn message(&self) -> (r: String)
        ensures
            crypto_error_text(*self, r@),
    {
        match self {
            CryptoError::InvalidFormat => "Invalid encrypted content format".to_owned(),
            CryptoError::UnsupportedVersion(v) => concat_str("Unsupported encryption version: ", v.as_str()),
            CryptoError::DecryptionFailed => "Decryption failed — wrong key or corrupted data".to_owned(),
            CryptoError::EncryptionFailed => "Encryption failed".to_owned(),
            CryptoError::InvalidBase64(e) => {
                let detail = decode_error_text(e);
                let r = concat_str("Invalid base64: ", detail.as_str());
                assert(r@.take("Invalid base64: "@.len() as int) =~= "Invalid base64: "@);
                r
            },
            CryptoError::KeyNotConfigured => "encryption_key not configured in [settings]".to_owned(),
        }
    }
}

} // verus!
