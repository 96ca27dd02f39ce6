use vstd::prelude::*;

verus! {

/// The public key (hex) that a secret key (hex or bech32) gives.
pub uninterp spec fn public_key_of(secret_key: Seq<char>) -> Option<Seq<char>>;

/// Whether event JSON parses and its id and signature check out.
pub uninterp spec fn event_verifies(event_json: Seq<char>) -> bool;

/// Whether a phrase is a valid BIP-39 mnemonic.
pub uninterp spec fn mnemonic_valid(phrase: Seq<char>) -> bool;

/// The secret key (hex) that NIP-06 derives from a mnemonic.
pub uninterp spec fn mnemonic_secret(phrase: Seq<char>) -> Option<Seq<char>>;

/// The English BIP-39 mnemonic of some entropy.
pub uninterp spec fn mnemonic_of_entropy(entropy: Seq<u8>) -> Option<Seq<char>>;

/// Relies on `nostr::Keys::generate`: a fresh random key pair, as the secret
/// key and the public key in hex.
#[verifier::external_body]
pub fn generate_keypair() -> (r: (String, String)) {
    let keys = nostr::Keys::generate();
    (keys.secret_key().to_secret_hex(), keys.public_key().to_hex())
}

/// Relies on `nostr::Keys::parse` and `PublicKey::to_hex`: the public key of
/// a secret key, `None` where the secret key does not parse.
#[verifier::external_body]
pub fn get_public_key(private_key_hex: &str) -> (r: Option<String>)
    ensures
        r.deep_view() == public_key_of(private_key_hex@),
{
    let keys = nostr::Keys::parse(private_key_hex).ok()?;
    Some(keys.public_key().to_hex())
}

/// Relies on `nostr::Keys::sign_schnorr` over the 32 bytes of an event id
/// (`EventId::parse`); `None` where the key or the id does not parse. A
/// signature draws fresh randomness, so nothing is promised of its text.
#[verifier::external_body]
pub fn sign_event_id(event_id_hex: &str, private_key_hex: &str) -> (r: Option<String>) {
    let keys = nostr::Keys::parse(private_key_hex).ok()?;
    let id = nostr::EventId::parse(event_id_hex).ok()?;
    let message = nostr::secp256k1::Message::from_digest(id.to_bytes());
    Some(keys.sign_schnorr(&message).to_string())
}

/// Relies on `nostr::Event::from_json` and `Event::verify`.
#[verifier::external_body]
pub fn verify_event(event_json: &str) -> (r: bool)
    ensures
        r == event_verifies(event_json@),
{
    match <nostr::Event as nostr::JsonUtil>::from_json(event_json) {
        Ok(event) => event.verify().is_ok(),
        Err(_) => false,
    }
}

/// Relies on `bip39::Mnemonic::parse_normalized`.
#[verifier::external_body]
pub fn validate_mnemonic(mnemonic: &str) -> (r: bool)
    ensures
        r == mnemonic_valid(mnemonic@),
{
    bip39::Mnemonic::parse_normalized(mnemonic).is_ok()
}

/// Relies on nostr's NIP-06 `FromMnemonic::from_mnemonic` (no passphrase)
/// and `SecretKey::to_secret_hex`.
#[verifier::external_body]
pub fn mnemonic_to_private_key(mnemonic: &str) -> (r: Option<String>)
    ensures
        r.deep_view() == mnemonic_secret(mnemonic@),
{
    let keys = <nostr::Keys as nostr::nips::nip06::FromMnemonic>::from_mnemonic(mnemonic, None).ok()?;
    Some(keys.secret_key().to_secret_hex())
}

/// Relies on `bip39::Mnemonic::from_entropy` and its `Display`.
#[verifier::external_body]
fn mnemonic_from_entropy(entropy: &[u8]) -> (r: Option<String>)
    ensures
        r.deep_view() == mnemonic_of_entropy(entropy@),
{
    Some(bip39::Mnemonic::from_entropy(entropy).ok()?.to_string())
}

/// A fresh twelve-word mnemonic: 128 bits of entropy from the operating system.
pub fn generate_mnemonic() -> (r: Option<String>)
    ensures
        exists|e: Seq<u8>| e.len() == 16 && r.deep_view() == mnemonic_of_entropy(e),
{
    let e = crate::crypto::random_bytes(16);
    mnemonic_from_entropy(e.as_slice())
}

} // verus!
