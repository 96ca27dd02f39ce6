use vstd::prelude::*;

verus! {

/// The value of a hexadecimal digit, in either case; -1 for other characters.
pub open spec fn hex_value(c: char) -> int {
    if '0' <= c && c <= '9' {
        c as int - '0' as int
    } else if 'a' <= c && c <= 'f' {
        c as int - 'a' as int + 10
    } else if 'A' <= c && c <= 'F' {
        c as int - 'A' as int + 10
    } else {
        -1
    }
}

/// Text that decodes as hexadecimal: an even number of hex digits.
pub open spec fn is_hex_text(s: Seq<char>) -> bool {
    s.len() % 2 == 0 && forall|i: int| 0 <= i < s.len() ==> hex_value(#[trigger] s[i]) >= 0
}

/// The bytes that hexadecimal text writes, two digits each.
pub open spec fn hex_bytes(s: Seq<char>) -> Seq<u8> {
    Seq::new((s.len() / 2) as nat, |i: int| (hex_value(s[2 * i]) * 16 + hex_value(s[2 * i + 1])) as u8)
}

/// The lower-case hexadecimal digit of a value below 16.
pub open spec fn hex_digit(d: int) -> char {
    "0123456789abcdef"@[d]
}

/// Bytes written as lower-case hexadecimal text.
pub open spec fn hex_text(b: Seq<u8>) -> Seq<char> {
    Seq::new(
        2 * b.len(),
        |i: int|
            if i % 2 == 0 {
                hex_digit(b[i / 2] as int / 16)
            } else {
                hex_digit(b[i / 2] as int % 16)
            },
    )
}

/// Relies on `hex::decode`: an even number of hex digits (either case),
/// two per byte; an error otherwise.
#[verifier::external_body]
pub(crate) fn decode_hex(s: &str) -> (r: Option<Vec<u8>>)
    ensures
        match r {
            Some(v) => is_hex_text(s@) && v@ == hex_bytes(s@),
            None => !is_hex_text(s@),
        },
{
    hex::decode(s).ok()
}

/// Relies on `hex::encode`: two lower-case hex digits per byte.
#[verifier::external_body]
pub(crate) fn encode_hex(b: &[u8]) -> (r: String)
    ensures
        r@ == hex_text(b@),
{
    hex::encode(b)
}

/// The standard base64 text of bytes.
pub uninterp spec fn base64_text(b: Seq<u8>) -> Seq<char>;

/// The bytes that standard base64 text decodes to.
pub uninterp spec fn base64_bytes(s: Seq<char>) -> Option<Seq<u8>>;

/// Relies on base64's `STANDARD` engine `encode`.
#[verifier::external_body]
pub(crate) fn encode_base64(b: &[u8]) -> (r: String)
    ensures
        r@ == base64_text(b@),
{
    base64::Engine::encode(&base64::engine::general_purpose::STANDARD, b)
}

/// Relies on base64's `STANDARD` engine `decode`.
#[verifier::external_body]
pub(crate) fn decode_base64(s: &str) -> (r: Option<Vec<u8>>)
    ensures
        match r {
            Some(v) => base64_bytes(s@) == Some(v@),
            None => base64_bytes(s@) is None,
        },
{
    base64::Engine::decode(&base64::engine::general_purpose::STANDARD, s).ok()
}

/// AES-256-GCM sealing with a 96-bit nonce (ciphertext and tag).
pub uninterp spec fn gcm_seal(key: Seq<u8>, nonce: Seq<u8>, data: Seq<u8>) -> Option<Seq<u8>>;

/// AES-256-GCM opening with a 96-bit nonce; `None` where the tag does not verify.
pub uninterp spec fn gcm_open(key: Seq<u8>, nonce: Seq<u8>, data: Seq<u8>) -> Option<Seq<u8>>;

/// AES-256-GCM opening with a 128-bit nonce; `None` where the tag does not verify.
pub uninterp spec fn gcm16_open(key: Seq<u8>, nonce: Seq<u8>, data: Seq<u8>) -> Option<Seq<u8>>;

/// Relies on aes-gcm's `Aes256Gcm` (`new_from_slice`, `Aead::encrypt`).
#[verifier::external_body]
fn seal_gcm(key: &[u8], nonce: &[u8], data: &[u8]) -> (r: Option<Vec<u8>>)
    requires
        key@.len() == 32,
        nonce@.len() == 12,
    ensures
        match r {
            Some(v) => gcm_seal(key@, nonce@, data@) == Some(v@),
            None => gcm_seal(key@, nonce@, data@) is None,
        },
{
    let cipher = <aes_gcm::Aes256Gcm as aes_gcm::KeyInit>::new_from_slice(key).ok()?;
    aes_gcm::aead::Aead::encrypt(&cipher, aes_gcm::Nonce::from_slice(nonce), data).ok()
}

/// Relies on aes-gcm's `Aes256Gcm` (`new_from_slice`, `Aead::decrypt`).
#[verifier::external_body]
fn open_gcm(key: &[u8], nonce: &[u8], data: &[u8]) -> (r: Option<Vec<u8>>)
    requires
        key@.len() == 32,
        nonce@.len() == 12,
    ensures
        match r {
            Some(v) => gcm_open(key@, nonce@, data@) == Some(v@),
            None => gcm_open(key@, nonce@, data@) is None,
        },
{
    let cipher = <aes_gcm::Aes256Gcm as aes_gcm::KeyInit>::new_from_slice(key).ok()?;
    aes_gcm::aead::Aead::decrypt(&cipher, aes_gcm::Nonce::from_slice(nonce), data).ok()
}

/// Relies on aes-gcm's `AesGcm<Aes256, U16>` (`new_from_slice`, `Aead::decrypt`).
#[verifier::external_body]
fn open_gcm16(key: &[u8], nonce: &[u8], data: &[u8]) -> (r: Option<Vec<u8>>)
    requires
        key@.len() == 32,
        nonce@.len() == 16,
    ensures
        match r {
            Some(v) => gcm16_open(key@, nonce@, data@) == Some(v@),
            None => gcm16_open(key@, nonce@, data@) is None,
        },
{
    let cipher = <aes_gcm::AesGcm<aes::Aes256, typenum::U16> as aes_gcm::KeyInit>::new_from_slice(key).ok()?;
    let n = aes_gcm::aead::generic_array::GenericArray::from_slice(nonce);
    aes_gcm::aead::Aead::decrypt(&cipher, n, data).ok()
}

/// The SHA-256 digest of bytes.
pub uninterp spec fn sha256_digest(b: Seq<u8>) -> Seq<u8>;

/// Relies on sha2's `Sha256` (`Digest::digest`): the 32-byte digest.
#[verifier::external_body]
fn digest_sha256(b: &[u8]) -> (r: Vec<u8>)
    ensures
        r@ == sha256_digest(b@),
        r@.len() == 32,
{
    <sha2::Sha256 as sha2::Digest>::digest(b).to_vec()
}

/// Relies on rand's `OsRng` (`RngCore::fill_bytes`): `n` bytes from the
/// operating system's generator.
#[verifier::external_body]
pub(crate) fn random_bytes(n: usize) -> (r: Vec<u8>)
    ensures
        r@.len() == n,
{
    let mut v = vec![0u8; n];
    rand::RngCore::fill_bytes(&mut rand::rngs::OsRng, &mut v);
    v
}

/// Why a symmetric encryption or decryption was refused.
#[derive(PartialEq, Eq, Structural, Clone, Copy, Debug)]
pub enum CipherError {
    InvalidKeyHex,
    InvalidNonceHex,
    InvalidBase64,
    KeyLength,
    NonceLength,
    EncryptionFailed,
    DecryptionFailed,
}

/// The outcome of an encryption: the checks in order (key text, nonce text,
/// a 32-byte key, a 12-byte nonce), then the sealed bytes in base64.
pub open spec fn encrypt_spec(data: Seq<u8>, key_hex: Seq<char>, nonce_hex: Seq<char>) -> Result<Seq<char>, CipherError> {
    if !is_hex_text(key_hex) {
        Err(CipherError::InvalidKeyHex)
    } else if !is_hex_text(nonce_hex) {
        Err(CipherError::InvalidNonceHex)
    } else if hex_bytes(key_hex).len() != 32 {
        Err(CipherError::KeyLength)
    } else if hex_bytes(nonce_hex).len() != 12 {
        Err(CipherError::NonceLength)
    } else {
        match gcm_seal(hex_bytes(key_hex), hex_bytes(nonce_hex), data) {
            Some(c) => Ok(base64_text(c)),
            None => Err(CipherError::EncryptionFailed),
        }
    }
}

/// Encrypts bytes with AES-256-GCM under a hex key and a hex 12-byte nonce;
/// the result is base64.
pub fn aes_gcm_encrypt(data: &Vec<u8>, key_hex: &str, nonce_hex: &str) -> (r: Result<String, CipherError>)
    ensures
        match r {
            Ok(s) => encrypt_spec(data@, key_hex@, nonce_hex@) == Ok::<Seq<char>, CipherError>(s@),
            Err(e) => encrypt_spec(data@, key_hex@, nonce_hex@) == Err::<Seq<char>, CipherError>(e),
        },
{
    let key = match decode_hex(key_hex) {
        Some(k) => k,
        None => return Err(CipherError::InvalidKeyHex),
    };
    let nonce = match decode_hex(nonce_hex) {
        Some(n) => n,
        None => return Err(CipherError::InvalidNonceHex),
    };
    if key.len() != 32 {
        return Err(CipherError::KeyLength);
    }
    if nonce.len() != 12 {
        return Err(CipherError::NonceLength);
    }
    match seal_gcm(key.as_slice(), nonce.as_slice(), data.as_slice()) {
        Some(c) => Ok(encode_base64(c.as_slice())),
        None => Err(CipherError::EncryptionFailed),
    }
}

/// The outcome of a decryption: the checks in order (key text, nonce text,
/// base64, a 32-byte key), then opening with a 12- or 16-byte nonce.
pub open spec fn decrypt_spec(b64: Seq<char>, key_hex: Seq<char>, nonce_hex: Seq<char>) -> Result<Seq<u8>, CipherError> {
    if !is_hex_text(key_hex) {
        Err(CipherError::InvalidKeyHex)
    } else if !is_hex_text(nonce_hex) {
        Err(CipherError::InvalidNonceHex)
    } else if base64_bytes(b64) is None {
        Err(CipherError::InvalidBase64)
    } else if hex_bytes(key_hex).len() != 32 {
        Err(CipherError::KeyLength)
    } else {
        let k = hex_bytes(key_hex);
        let n = hex_bytes(nonce_hex);
        let c = base64_bytes(b64)->0;
        let opened = if n.len() == 12 {
            gcm_open(k, n, c)
        } else {
            gcm16_open(k, n, c)
        };
        if n.len() != 12 && n.len() != 16 {
            Err(CipherError::NonceLength)
        } else {
            match opened {
                Some(p) => Ok(p),
                None => Err(CipherError::DecryptionFailed),
            }
        }
    }
}

/// Decrypts base64 AES-256-GCM data under a hex key and a hex nonce of 12
/// bytes (standard) or 16 bytes.
pub fn aes_gcm_decrypt(encrypted_base64: &str, key_hex: &str, nonce_hex: &str) -> (r: Result<Vec<u8>, CipherError>)
    ensures
        match r {
            Ok(p) => decrypt_spec(encrypted_base64@, key_hex@, nonce_hex@) == Ok::<Seq<u8>, CipherError>(p@),
            Err(e) => decrypt_spec(encrypted_base64@, key_hex@, nonce_hex@) == Err::<Seq<u8>, CipherError>(e),
        },
{
    let key = match decode_hex(key_hex) {
        Some(k) => k,
        None => return Err(CipherError::InvalidKeyHex),
    };
    let nonce = match decode_hex(nonce_hex) {
        Some(n) => n,
        None => return Err(CipherError::InvalidNonceHex),
    };
    let data = match decode_base64(encrypted_base64) {
        Some(d) => d,
        None => return Err(CipherError::InvalidBase64),
    };
    if key.len() != 32 {
        return Err(CipherError::KeyLength);
    }
    let opened = if nonce.len() == 12 {
        open_gcm(key.as_slice(), nonce.as_slice(), data.as_slice())
    } else if nonce.len() == 16 {
        open_gcm16(key.as_slice(), nonce.as_slice(), data.as_slice())
    } else {
        return Err(CipherError::NonceLength);
    };
    match opened {
        Some(p) => Ok(p),
        None => Err(CipherError::DecryptionFailed),
    }
}

/// The SHA-256 digest of bytes, in lower-case hex.
pub fn sha256_hash(data: &Vec<u8>) -> (r: String)
    ensures
        r@ == hex_text(sha256_digest(data@)),
        r@.len() == 64,
{
    let d = digest_sha256(data.as_slice());
    encode_hex(d.as_slice())
}

/// A fresh random 256-bit key, in hex.
pub fn generate_aes_key() -> (r: String)
    ensures
        exists|b: Seq<u8>| b.len() == 32 && r@ == hex_text(b),
{
    let b = random_bytes(32);
    encode_hex(b.as_slice())
}

/// A fresh random 96-bit nonce, in hex.
pub fn generate_aes_nonce() -> (r: String)
    ensures
        exists|b: Seq<u8>| b.len() == 12 && r@ == hex_text(b),
{
    let b = random_bytes(12);
    encode_hex(b.as_slice())
}

} // verus!
