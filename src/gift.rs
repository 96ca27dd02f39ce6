use vstd::prelude::*;

use crate::compose::decimal_text;
use crate::event::{Event, TagsView};
use crate::keys::get_public_key;

verus! {

/// Kind of a gift wrap.
pub const KIND_GIFT_WRAP: u16 = 1059;

/// Kind of a private direct message.
pub const KIND_PRIVATE_MESSAGE: u16 = 14;

/// Kind of a private file message.
pub const KIND_FILE_MESSAGE: u16 = 15;

/// The kind of the event that JSON text holds, if it parses as an event.
pub uninterp spec fn event_kind_in(event_json: Seq<char>) -> Option<u16>;

/// The NIP-44 plaintext of a payload between two keys.
pub uninterp spec fn nip44_plain(payload: Seq<char>, receiver_sk: Seq<char>, sender_pk: Seq<char>) -> Option<Seq<char>>;

/// What opening a gift wrap with a secret key yields: the sender (hex) and
/// the sealed rumor as JSON.
pub uninterp spec fn unwrapped_of(receiver_sk: Seq<char>, gift_wrap_json: Seq<char>) -> Option<(Seq<char>, Seq<char>)>;

/// The fields of an unsigned event given as JSON: id (empty where absent),
/// author, time, kind, content and tags.
pub uninterp spec fn rumor_fields(rumor_json: Seq<char>) -> Option<(Seq<char>, Seq<char>, u64, u16, Seq<char>, TagsView)>;

/// Relies on `nostr::Event::from_json`: the kind of the parsed event.
#[verifier::external_body]
fn parsed_kind(event_json: &str) -> (r: Option<u16>)
    ensures
        r == event_kind_in(event_json@),
{
    Some(<nostr::Event as nostr::JsonUtil>::from_json(event_json).ok()?.kind.as_u16())
}

/// Whether JSON text is a gift-wrap event.
pub fn is_gift_wrap(event_json: &str) -> (r: bool)
    ensures
        r == (event_kind_in(event_json@) == Some(KIND_GIFT_WRAP)),
{
    match parsed_kind(event_json) {
        Some(k) => k == KIND_GIFT_WRAP,
        None => false,
    }
}

/// Relies on nostr's `EventBuilder::new(..).tags(..).build` for the rumor and
/// `EventBuilder::gift_wrap` (sealed to `recipient_pk`); `None` where a key
/// does not parse or wrapping fails.
/// Wrapping draws fresh keys and randomness, so nothing is promised of the text.
#[verifier::external_body]
fn wrap_rumor(sender_sk: &str, recipient_pk: &str, kind: u16, content: &str, tags: &Vec<Vec<String>>) -> (r: Option<String>)
    requires
        forall|i: int| 0 <= i < tags.len() ==> (#[trigger] tags[i]).len() > 0,
{
    let keys = nostr::Keys::parse(sender_sk).ok()?;
    let receiver = nostr::PublicKey::parse(recipient_pk).ok()?;
    let tags = tags.iter().map(|t| nostr::Tag::custom(nostr::TagKind::custom(t[0].clone()), t[1..].to_vec()));
    let rumor = nostr::EventBuilder::new(nostr::Kind::from(kind), content).tags(tags).build(keys.public_key());
    let rt = tokio::runtime::Builder::new_current_thread().enable_all().build().ok()?;
    let wrap = rt.block_on(nostr::EventBuilder::gift_wrap(&keys, &receiver, rumor, [])).ok()?;
    Some(nostr::JsonUtil::as_json(&wrap))
}

/// Relies on `nostr::nips::nip59::UnwrappedGift::from_gift_wrap`: the
/// sender and the rumor (as JSON) sealed for this key.
#[verifier::external_body]
fn open_wrap(receiver_sk: &str, gift_wrap_json: &str) -> (r: Option<(String, String)>)
    ensures
        match r {
            Some(u) => unwrapped_of(receiver_sk@, gift_wrap_json@) == Some((u.0@, u.1@)),
            None => unwrapped_of(receiver_sk@, gift_wrap_json@) is None,
        },
{
    let keys = nostr::Keys::parse(receiver_sk).ok()?;
    let wrap = <nostr::Event as nostr::JsonUtil>::from_json(gift_wrap_json).ok()?;
    let rt = tokio::runtime::Builder::new_current_thread().enable_all().build().ok()?;
    let u = rt.block_on(nostr::nips::nip59::UnwrappedGift::from_gift_wrap(&keys, &wrap)).ok()?;
    Some((u.sender.to_hex(), nostr::JsonUtil::as_json(&u.rumor)))
}

/// Relies on `nostr::UnsignedEvent::from_json`: the rumor's fields (its
/// signature field stays empty).
#[verifier::external_body]
fn parse_rumor(rumor_json: &str) -> (r: Option<Event>)
    ensures
        match r {
            Some(e) => rumor_fields(rumor_json@) == Some((e.id@, e.pubkey@, e.created_at, e.kind, e.content@, e.tags_view())),
            None => rumor_fields(rumor_json@) is None,
        },
{
    let u = <nostr::UnsignedEvent as nostr::JsonUtil>::from_json(rumor_json).ok()?;
    let tags = u.tags.iter().map(|t| t.as_slice().to_vec()).collect();
    let id = u.id.map(|i| i.to_hex()).unwrap_or_default();
    Some(Event { id, pubkey: u.pubkey.to_hex(), created_at: u.created_at.as_u64(), kind: u.kind.as_u16(), content: u.content, tags, sig: String::new() })
}

/// Opens a gift wrap: the sender and the sealed rumor (its `sig` is empty).
pub fn unwrap_gift_wrap(receiver_private_key_hex: &str, gift_wrap_json: &str) -> (r: Option<(String, Event)>)
    ensures
        match unwrapped_of(receiver_private_key_hex@, gift_wrap_json@) {
            None => r is None,
            Some((sender, rumor)) => match rumor_fields(rumor) {
                None => r is None,
                Some(f) => match r {
                    Some(u) => u.0@ == sender && f == (
                        u.1.id@,
                        u.1.pubkey@,
                        u.1.created_at,
                        u.1.kind,
                        u.1.content@,
                        u.1.tags_view(),
                    ),
                    None => false,
                },
            },
        },
{
    let (sender, rumor) = match open_wrap(receiver_private_key_hex, gift_wrap_json) {
        Some(u) => u,
        None => return None,
    };
    match parse_rumor(rumor.as_str()) {
        Some(e) => Some((sender, e)),
        None => None,
    }
}

fn one(name: &str, value: String) -> (r: Vec<String>)
    ensures
        r.deep_view() == seq![name@, value@],
{
    let mut v: Vec<String> = Vec::new();
    v.push(name.to_owned());
    v.push(value);
    assert(v.deep_view() =~= seq![name@, v[1]@]);
    v
}

/// Relies on `<u64 as ToString>::to_string`: decimal digits.
#[verifier::external_body]
fn decimal_u64(n: u64) -> (r: String)
    ensures
        r@ == decimal_text(n as nat),
{
    n.to_string()
}

/// The tags of a private file message: the receiver, the file type, how the
/// file is encrypted (AES-GCM, key and nonce), the hashes of the encrypted
/// and original file, and the size where known.
pub fn file_message_tags(
    receiver_pubkey_hex: String,
    mime_type: String,
    encryption_key_hex: String,
    encryption_nonce_hex: String,
    encrypted_hash: String,
    original_hash: String,
    file_size: Option<u64>,
) -> (r: Vec<Vec<String>>)
    ensures
        r.deep_view() == seq![
            seq!["p"@, receiver_pubkey_hex@],
            seq!["file-type"@, mime_type@],
            seq!["encryption-algorithm"@, "aes-gcm"@],
            seq!["decryption-key"@, encryption_key_hex@],
            seq!["decryption-nonce"@, encryption_nonce_hex@],
            seq!["x"@, encrypted_hash@],
            seq!["ox"@, original_hash@],
        ] + match file_size {
            Some(n) => seq![seq!["size"@, decimal_text(n as nat)]],
            None => Seq::<Seq<Seq<char>>>::empty(),
        },
        forall|i: int| 0 <= i < r.len() ==> (#[trigger] r[i]).len() > 0,
{
    let mut v: Vec<Vec<String>> = Vec::new();
    v.push(one("p", receiver_pubkey_hex));
    v.push(one("file-type", mime_type));
    v.push(one("encryption-algorithm", "aes-gcm".to_owned()));
    v.push(one("decryption-key", encryption_key_hex));
    v.push(one("decryption-nonce", encryption_nonce_hex));
    v.push(one("x", encrypted_hash));
    v.push(one("ox", original_hash));
    if let Some(n) = file_size {
        v.push(one("size", decimal_u64(n)));
    }
    assert(v.deep_view() =~= seq![
        seq!["p"@, receiver_pubkey_hex@],
        seq!["file-type"@, mime_type@],
        seq!["encryption-algorithm"@, "aes-gcm"@],
        seq!["decryption-key"@, encryption_key_hex@],
        seq!["decryption-nonce"@, encryption_nonce_hex@],
        seq!["x"@, encrypted_hash@],
        seq!["ox"@, original_hash@],
    ] + match file_size {
        Some(n) => seq![seq!["size"@, decimal_text(n as nat)]],
        None => Seq::<Seq<Seq<char>>>::empty(),
    });
    assert forall|i: int| 0 <= i < v.len() implies (#[trigger] v[i]).len() > 0 by {
        assert(v.deep_view()[i] == v[i].deep_view());
        assert(v.deep_view()[i].len() == 2);
    }
    v
}

/// A private message to `receiver`, gift-wrapped for the receiver.
pub fn create_gift_wrap_dm(sender_private_key_hex: &str, receiver_pubkey_hex: &str, message: &str) -> Option<String> {
    let mut tags: Vec<Vec<String>> = Vec::new();
    tags.push(one("p", receiver_pubkey_hex.to_owned()));
    assert(tags.deep_view()[0] == tags[0].deep_view());
    assert(tags[0].len() > 0);
    wrap_rumor(sender_private_key_hex, receiver_pubkey_hex, KIND_PRIVATE_MESSAGE, message, &tags)
}

/// The sender's own copy of a private message, gift-wrapped for the sender.
pub fn create_gift_wrap_dm_for_sender(sender_private_key_hex: &str, receiver_pubkey_hex: &str, message: &str) -> Option<String> {
    let mut tags: Vec<Vec<String>> = Vec::new();
    tags.push(one("p", receiver_pubkey_hex.to_owned()));
    assert(tags.deep_view()[0] == tags[0].deep_view());
    assert(tags[0].len() > 0);
    match get_public_key(sender_private_key_hex) {
        Some(own) => wrap_rumor(sender_private_key_hex, own.as_str(), KIND_PRIVATE_MESSAGE, message, &tags),
        None => None,
    }
}

fn wrap_file(
    sender_private_key_hex: &str,
    receiver_pubkey_hex: &str,
    file_url: &str,
    tags: Vec<Vec<String>>,
    for_sender: bool,
) -> Option<String>
    requires
        forall|i: int| 0 <= i < tags.len() ==> (#[trigger] tags[i]).len() > 0,
{
    if for_sender {
        match get_public_key(sender_private_key_hex) {
            Some(own) => wrap_rumor(sender_private_key_hex, own.as_str(), KIND_FILE_MESSAGE, file_url, &tags),
            None => None,
        }
    } else {
        wrap_rumor(sender_private_key_hex, receiver_pubkey_hex, KIND_FILE_MESSAGE, file_url, &tags)
    }
}

/// A private message carrying an encrypted file (its URL is the content; the
/// tags say how to decrypt and check it), gift-wrapped for the receiver.
pub fn create_gift_wrap_file_message(
    sender_private_key_hex: &str,
    receiver_pubkey_hex: &str,
    file_url: &str,
    mime_type: String,
    encryption_key_hex: String,
    encryption_nonce_hex: String,
    encrypted_hash: String,
    original_hash: String,
    file_size: Option<u64>,
) -> Option<String> {
    let tags = file_message_tags(
        receiver_pubkey_hex.to_owned(),
        mime_type,
        encryption_key_hex,
        encryption_nonce_hex,
        encrypted_hash,
        original_hash,
        file_size,
    );
    wrap_file(sender_private_key_hex, receiver_pubkey_hex, file_url, tags, false)
}

/// The sender's own copy of a private file message, gift-wrapped for the sender.
pub fn create_gift_wrap_file_message_for_sender(
    sender_private_key_hex: &str,
    receiver_pubkey_hex: &str,
    file_url: &str,
    mime_type: String,
    encryption_key_hex: String,
    encryption_nonce_hex: String,
    encrypted_hash: String,
    original_hash: String,
    file_size: Option<u64>,
) -> Option<String> {
    let tags = file_message_tags(
        receiver_pubkey_hex.to_owned(),
        mime_type,
        encryption_key_hex,
        encryption_nonce_hex,
        encrypted_hash,
        original_hash,
        file_size,
    );
    wrap_file(sender_private_key_hex, receiver_pubkey_hex, file_url, tags, true)
}

/// Relies on `nostr::nips::nip44::encrypt` (default version). The payload
/// carries a fresh random nonce, so nothing is promised of its text.
#[verifier::external_body]
pub fn nip44_encrypt(content: &str, sender_sk_hex: &str, receiver_pk_hex: &str) -> (r: Option<String>) {
    let sk = nostr::SecretKey::parse(sender_sk_hex).ok()?;
    let pk = nostr::PublicKey::parse(receiver_pk_hex).ok()?;
    nostr::nips::nip44::encrypt(&sk, &pk, content, nostr::nips::nip44::Version::default()).ok()
}

/// Relies on `nostr::nips::nip44::decrypt`.
#[verifier::external_body]
pub fn nip44_decrypt(payload: &str, receiver_sk_hex: &str, sender_pk_hex: &str) -> (r: Option<String>)
    ensures
        r.deep_view() == nip44_plain(payload@, receiver_sk_hex@, sender_pk_hex@),
{
    let sk = nostr::SecretKey::parse(receiver_sk_hex).ok()?;
    let pk = nostr::PublicKey::parse(sender_pk_hex).ok()?;
    nostr::nips::nip44::decrypt(&sk, &pk, payload).ok()
}

} // verus!
