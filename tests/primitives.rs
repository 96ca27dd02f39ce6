use nostr_core::compose::{
    blossom_auth_tags, create_note_event, event_tags, list_tags, quote_tags, reaction_tags, repost_tags,
};
use nostr_core::crypto::{aes_gcm_decrypt, aes_gcm_encrypt, generate_aes_key, generate_aes_nonce, sha256_hash, CipherError};
use nostr_core::gift::{create_gift_wrap_dm, file_message_tags, is_gift_wrap, unwrap_gift_wrap};
use nostr_core::keys::{
    generate_keypair, generate_mnemonic, get_public_key, mnemonic_to_private_key, validate_mnemonic, verify_event,
};
use nostr_core::nip19::{encode_basic_bech32, nip19_decode, nip19_decode_tlv, nip19_encode_pubkey, Nip19Entity, Nip19Error};
use nostr_core::profile::{author_card, card_of};
use nostr_core::event::{Event, KIND_METADATA};
use nostr_core::wallet::{parse_nwc_uri, validate_nwc_uri, wallet_step, WalletFailure, WalletNotice, WalletStep};

fn strs(v: &[&str]) -> Vec<String> {
    v.iter().map(|s| s.to_string()).collect()
}

const KEY: &str = "0000000000000000000000000000000000000000000000000000000000000000";
const NONCE: &str = "000000000000000000000000";

#[test]
fn sha256_known_digest() {
    assert_eq!(
        sha256_hash(&b"abc".to_vec()),
        "ba7816bf8f01cfea414140de5dae2223b00361a396177a9cb410ff61f20015ad"
    );
}

#[test]
fn aes_gcm_known_tag() {
    assert_eq!(aes_gcm_encrypt(&vec![], KEY, NONCE), Ok("Uw+K+8dFNrmpY7TxxMtziw==".to_string()));
}

#[test]
fn aes_gcm_round_trip() {
    let key = generate_aes_key();
    let nonce = generate_aes_nonce();
    assert_eq!(key.len(), 64);
    assert_eq!(nonce.len(), 24);
    let sealed = aes_gcm_encrypt(&b"secret file".to_vec(), &key, &nonce).unwrap();
    assert_eq!(aes_gcm_decrypt(&sealed, &key, &nonce), Ok(b"secret file".to_vec()));
}

#[test]
fn aes_gcm_errors() {
    assert_eq!(aes_gcm_encrypt(&vec![1], "zz", NONCE), Err(CipherError::InvalidKeyHex));
    assert_eq!(aes_gcm_encrypt(&vec![1], KEY, "abc"), Err(CipherError::InvalidNonceHex));
    assert_eq!(aes_gcm_encrypt(&vec![1], "00ff", NONCE), Err(CipherError::KeyLength));
    assert_eq!(aes_gcm_encrypt(&vec![1], KEY, "0011"), Err(CipherError::NonceLength));
    assert_eq!(aes_gcm_decrypt("***", KEY, NONCE), Err(CipherError::InvalidBase64));
    assert_eq!(aes_gcm_decrypt("Uw+K+8dFNrmpY7TxxMtziw==", KEY, "0011"), Err(CipherError::NonceLength));
    let other = "0100000000000000000000000000000000000000000000000000000000000000";
    assert_eq!(aes_gcm_decrypt("Uw+K+8dFNrmpY7TxxMtziw==", other, NONCE), Err(CipherError::DecryptionFailed));
    assert_eq!(aes_gcm_decrypt("Uw+K+8dFNrmpY7TxxMtziw==", KEY, NONCE), Ok(vec![]));
}

#[test]
fn keys_and_signed_events() {
    let (secret, public) = generate_keypair();
    assert_eq!(get_public_key(&secret), Some(public));
    assert_eq!(get_public_key("not a key"), None);
    let json = create_note_event("hello", &vec![strs(&["t", "nostr"]), vec![]], &secret).unwrap();
    assert!(verify_event(&json));
    assert!(!verify_event("{}"));
    assert_eq!(create_note_event("hello", &vec![], "bad"), None);
}

#[test]
fn mnemonics() {
    let phrase = "leader monkey parrot ring guide accident before fence cannon height naive bean";
    assert!(validate_mnemonic(phrase));
    assert!(!validate_mnemonic("not a mnemonic"));
    assert_eq!(
        mnemonic_to_private_key(phrase),
        Some("7f7ff03d123792d6ac594bfa67bf6d0c0ab55b6b1fdb6249303fe861f1ccba9a".to_string())
    );
    let fresh = generate_mnemonic().unwrap();
    assert_eq!(fresh.split(' ').count(), 12);
    assert!(validate_mnemonic(&fresh));
}

#[test]
fn tag_builders() {
    let tags = reaction_tags("id1".to_string(), "pk1".to_string(), "wss://r".to_string(), 30023);
    assert_eq!(tags, vec![strs(&["e", "id1", "wss://r"]), strs(&["p", "pk1"]), strs(&["k", "30023"])]);
    assert_eq!(repost_tags("n".to_string(), "a".to_string(), "".to_string()), vec![strs(&["e", "n", ""]), strs(&["p", "a"])]);
    assert_eq!(list_tags("p", &strs(&["x", "y"]), true), vec![strs(&["p", "x", ""]), strs(&["p", "y", ""])]);
    assert_eq!(list_tags("r", &strs(&["wss://a"]), false), vec![strs(&["r", "wss://a"])]);
    assert_eq!(
        quote_tags("q1".to_string(), Some("pk".to_string()), "wss://r".to_string(), vec![strs(&["t", "x"])]),
        vec![strs(&["q", "q1", "wss://r", "pk"]), strs(&["p", "pk"]), strs(&["t", "x"])]
    );
    assert_eq!(quote_tags("q1".to_string(), None, "wss://r".to_string(), vec![]), vec![strs(&["q", "q1", "wss://r"])]);
    assert_eq!(
        blossom_auth_tags("abc".to_string(), -5),
        vec![strs(&["t", "upload"]), strs(&["x", "abc"]), strs(&["expiration", "-5"])]
    );
    assert_eq!(event_tags(&vec![vec![], strs(&["a"]), vec![]]), vec![strs(&["a"])]);
}

#[test]
fn bech32_round_trip() {
    let hex = "7e7e9c42a91bfef19fa929e5fda1b72e0ebc1a4c1141673e2794234d86addf4e";
    let npub = nip19_encode_pubkey(hex).unwrap();
    assert_eq!(npub, "npub10elfcs4fr0l0r8af98jlmgdh9c8tcxjvz9qkw038js35mp4dma8qzvjptg");
    match nip19_decode(&npub) {
        Ok(Nip19Entity::Pubkey(x)) => assert_eq!(x, hex),
        _ => panic!("expected a public key"),
    }
    assert_eq!(encode_basic_bech32(hex, &"npub".to_string()), Ok(Some(npub)));
    assert_eq!(encode_basic_bech32(hex, &"nfoo".to_string()), Err(Nip19Error::UnknownPrefix));
    assert!(matches!(nip19_decode("npub1xyz"), Err(Nip19Error::Invalid)));
    assert!(matches!(nip19_decode_tlv("hello"), Err(Nip19Error::UnknownPrefix)));
}

#[test]
fn gift_wrapped_message_round_trip() {
    let (alice_sk, alice_pk) = generate_keypair();
    let (bob_sk, bob_pk) = generate_keypair();
    let wrap = create_gift_wrap_dm(&alice_sk, &bob_pk, "hi bob").unwrap();
    assert!(is_gift_wrap(&wrap));
    assert!(!is_gift_wrap("{}"));
    let (sender, rumor) = unwrap_gift_wrap(&bob_sk, &wrap).unwrap();
    assert_eq!(sender, alice_pk);
    assert_eq!(rumor.content, "hi bob");
    assert_eq!(rumor.kind, 14);
    assert_eq!(unwrap_gift_wrap(&alice_sk, &wrap).is_none(), true);
    let own = nostr_core::gift::create_gift_wrap_dm_for_sender(&alice_sk, &bob_pk, "hi bob").unwrap();
    let (sender, rumor) = unwrap_gift_wrap(&alice_sk, &own).unwrap();
    assert_eq!(sender, alice_pk);
    assert_eq!(rumor.tags, vec![vec!["p".to_string(), bob_pk.clone()]]);
    assert!(unwrap_gift_wrap(&bob_sk, &own).is_none());
}

#[test]
fn file_message_tag_list() {
    let t = file_message_tags(
        "pk".to_string(),
        "image/png".to_string(),
        "k".to_string(),
        "n".to_string(),
        "h1".to_string(),
        "h2".to_string(),
        Some(2048),
    );
    assert_eq!(t.len(), 8);
    assert_eq!(t[2], strs(&["encryption-algorithm", "aes-gcm"]));
    assert_eq!(t[7], strs(&["size", "2048"]));
}

#[test]
fn wallet_uri_and_steps() {
    let uri = "nostr+walletconnect://b889ff5b1513b641e2a139f661a661364979c5beee91842f8f0ef42ab558e9d4?relay=wss%3A%2F%2Frelay.damus.io&secret=71a8c14c1407c113601079c4302dab36460f0ccd0ad506f1f2dc73b5100e4f3c";
    let parsed = parse_nwc_uri(uri).unwrap();
    assert_eq!(parsed.public_key, "b889ff5b1513b641e2a139f661a661364979c5beee91842f8f0ef42ab558e9d4");
    assert_eq!(parsed.secret, "71a8c14c1407c113601079c4302dab36460f0ccd0ad506f1f2dc73b5100e4f3c");
    assert_eq!(parsed.relays.len(), 1);
    assert!(validate_nwc_uri(uri));
    assert!(!validate_nwc_uri("https://example.com"));
    assert!(matches!(wallet_step(&WalletNotice::Event { for_request: true }), WalletStep::Decode));
    assert!(matches!(wallet_step(&WalletNotice::Event { for_request: false }), WalletStep::Wait));
    assert!(matches!(wallet_step(&WalletNotice::Lagged), WalletStep::Wait));
    assert!(matches!(wallet_step(&WalletNotice::Shutdown), WalletStep::Fail(WalletFailure::ConnectionClosed)));
    assert!(matches!(wallet_step(&WalletNotice::Closed), WalletStep::Fail(WalletFailure::ChannelClosed)));
}

#[test]
fn author_cards_from_profiles() {
    let c = card_of(r#"{"display_name":"Alice A","picture":"http://p"}"#).unwrap();
    assert_eq!(c.name, "Alice A");
    assert_eq!(c.picture, "http://p");
    assert_eq!(c.nip05, "");
    assert!(card_of("not json").is_none());
    let p = |content: &str| Event {
        id: "x".to_string(),
        pubkey: "alice".to_string(),
        created_at: 1,
        kind: KIND_METADATA,
        content: content.to_string(),
        tags: vec![],
        sig: String::new(),
    };
    let profiles = vec![p(r#"{"name":"old"}"#), p(r#"{"name":"new","nip05":"a@b.c"}"#), p("broken")];
    let card = author_card(&profiles, &"alice".to_string()).unwrap();
    assert_eq!(card.name, "new");
    assert_eq!(card.nip05, "a@b.c");
    assert!(author_card(&profiles, &"bob".to_string()).is_none());
}

#[test]
fn nip44_round_trip() {
    let (alice_sk, alice_pk) = generate_keypair();
    let (bob_sk, bob_pk) = generate_keypair();
    let payload = nostr_core::gift::nip44_encrypt("psst", &alice_sk, &bob_pk).unwrap();
    assert_ne!(payload, "psst");
    assert_eq!(nostr_core::gift::nip44_decrypt(&payload, &bob_sk, &alice_pk), Some("psst".to_string()));
    assert_eq!(nostr_core::gift::nip44_decrypt("garbage", &bob_sk, &alice_pk), None);
}

#[test]
fn bech32_secret_and_note() {
    let (sk, _) = generate_keypair();
    let nsec = nostr_core::nip19::nip19_encode_privkey(&sk).unwrap();
    assert!(nsec.starts_with("nsec1"));
    match nip19_decode(&nsec) {
        Ok(Nip19Entity::SecretKey(x)) => assert_eq!(x, sk),
        _ => panic!("expected a secret key"),
    }
    let id = "d94a3f4dd87b9a3b0bed183b32e916fa29c8020107845d1752d72697fe5309a5";
    let note = nostr_core::nip19::nip19_encode_note(id).unwrap();
    assert!(note.starts_with("note1"));
    match nip19_decode_tlv(&note) {
        Ok(Nip19Entity::Note(x)) => assert_eq!(x, id),
        _ => panic!("expected a note id"),
    }
    assert_eq!(nostr_core::nip19::nip19_encode_note("xyz"), None);
}
