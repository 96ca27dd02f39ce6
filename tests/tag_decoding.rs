use nostr_core::decode::{
    extract_bolt11_amount_sats, extract_zap_amount_sats, extract_zap_comment, extract_zap_sender,
    invoice_amount_sats, is_event_muted, search_notes, thread_linkage, unmuted_events,
};
use nostr_core::event::{Event, KIND_REPOST, KIND_TEXT_NOTE, KIND_ZAP_RECEIPT};

fn tag(parts: &[&str]) -> Vec<String> {
    parts.iter().map(|s| s.to_string()).collect()
}

fn event(id: &str, pubkey: &str, kind: u16, content: &str, tags: Vec<Vec<String>>) -> Event {
    Event {
        id: id.to_string(),
        pubkey: pubkey.to_string(),
        created_at: 1_700_000_000,
        kind,
        content: content.to_string(),
        tags,
        sig: String::new(),
    }
}

#[test]
fn no_mutes_means_not_muted() {
    let e = event("a1", "bob", KIND_TEXT_NOTE, "Buy CHEAP coins", vec![tag(&["p", "carol"])]);
    assert!(!is_event_muted(&e, &vec![], &vec![]));
    let r = event("a2", "bob", KIND_REPOST, "", vec![tag(&["p", "carol"])]);
    assert!(!is_event_muted(&r, &vec![], &vec![]));
}

#[test]
fn muted_author_is_muted() {
    let e = event("a1", "bob", KIND_TEXT_NOTE, "hello", vec![]);
    assert!(is_event_muted(&e, &vec!["bob".to_string()], &vec![]));
    assert!(!is_event_muted(&e, &vec!["carol".to_string()], &vec![]));
}

#[test]
fn muted_word_matches_any_case() {
    let e = event("a1", "bob", KIND_TEXT_NOTE, "Buy CHEAP coins", vec![]);
    assert!(is_event_muted(&e, &vec![], &vec!["cheap".to_string()]));
    assert!(is_event_muted(&e, &vec![], &vec!["Cheap Coins".to_string()]));
    assert!(!is_event_muted(&e, &vec![], &vec!["expensive".to_string()]));
}

#[test]
fn repost_of_muted_author_is_muted() {
    let r = event("a2", "bob", KIND_REPOST, "", vec![tag(&["e", "n1"]), tag(&["p", "carol"])]);
    assert!(is_event_muted(&r, &vec!["carol".to_string()], &vec![]));
    let note = event("a3", "bob", KIND_TEXT_NOTE, "", vec![tag(&["p", "carol"])]);
    assert!(!is_event_muted(&note, &vec!["carol".to_string()], &vec![]));
}

#[test]
fn unmuted_events_keep_order() {
    let es = vec![
        event("a1", "bob", KIND_TEXT_NOTE, "one", vec![]),
        event("a2", "eve", KIND_TEXT_NOTE, "two", vec![]),
        event("a3", "bob", KIND_TEXT_NOTE, "spam here", vec![]),
        event("a4", "dan", KIND_TEXT_NOTE, "four", vec![]),
    ];
    let kept = unmuted_events(&es, &vec!["eve".to_string()], &vec!["SPAM".to_string()]);
    let ids: Vec<&str> = kept.iter().map(|e| e.id.as_str()).collect();
    assert_eq!(ids, vec!["a1", "a4"]);
}

#[test]
fn bolt11_micro_amount() {
    assert_eq!(extract_bolt11_amount_sats("lnbc10u1pvjluezpp5qqqsyqcyq5rqwzqfqqqsyqcyq5rqwzq"), Some(1000));
}

#[test]
fn bolt11_milli_amount() {
    assert_eq!(extract_bolt11_amount_sats("lnbc1m1pvjluezpp5qqqsyqcyq5rqwzq"), Some(100_000));
}

#[test]
fn bolt11_other_multipliers() {
    assert_eq!(invoice_amount_sats("lnbc2500n1pxyz"), Some(250));
    assert_eq!(invoice_amount_sats("lnbc10000p1pxyz"), Some(1));
    assert_eq!(invoice_amount_sats("lnbc2pxyz1qq"), Some(0));
    assert_eq!(invoice_amount_sats("lntb2pxyz"), None);
    assert_eq!(invoice_amount_sats("lnbcrt5m1pxyz"), Some(500_000));
    assert_eq!(invoice_amount_sats("lntbs3u1pxyz"), Some(300));
    assert_eq!(invoice_amount_sats("lnbc21pxyz"), Some(200_000_000));
}

#[test]
fn bolt11_rejects_bad_requests() {
    assert_eq!(invoice_amount_sats("lnbc1pxyz"), None);
    assert_eq!(invoice_amount_sats("lnxx10u1pxyz"), None);
    assert_eq!(invoice_amount_sats("lnbcu1pxyz"), None);
    assert_eq!(invoice_amount_sats("lnbc10x1pxyz"), None);
    assert_eq!(invoice_amount_sats("nothing"), None);
    assert_eq!(invoice_amount_sats("lnbc99999999999999999999m1pxyz"), None);
}

#[test]
fn bolt11_upper_case_is_read() {
    assert_eq!(extract_bolt11_amount_sats("LNBC10U1PVJLUEZ"), Some(1000));
    assert_eq!(invoice_amount_sats("LNBC10U1PVJLUEZ"), None);
}

#[test]
fn zap_amount_from_invoice_repeatable() {
    let e = event("z1", "wallet", KIND_ZAP_RECEIPT, "", vec![tag(&["bolt11", "lnbc10u1pvjluez"]), tag(&["e", "n1"])]);
    let first = extract_zap_amount_sats(&e);
    let second = extract_zap_amount_sats(&e);
    assert_eq!(first, 1000);
    assert_eq!(first, second);
}

#[test]
fn zap_amount_from_request_when_invoice_unreadable() {
    let desc = r#"{"pubkey":"alice","content":"great post","tags":[["p","bob"],["amount","21000"]]}"#;
    let e = event("z2", "wallet", KIND_ZAP_RECEIPT, "", vec![tag(&["bolt11", "garbage"]), tag(&["description", desc])]);
    assert_eq!(extract_zap_amount_sats(&e), 21);
    assert_eq!(extract_zap_sender(&e), Some("alice".to_string()));
    assert_eq!(extract_zap_comment(&e), "great post".to_string());
}

#[test]
fn zap_without_amount_is_zero() {
    let e = event("z3", "wallet", KIND_ZAP_RECEIPT, "", vec![tag(&["description", "not json"])]);
    assert_eq!(extract_zap_amount_sats(&e), 0);
    assert_eq!(extract_zap_sender(&e), None);
    assert_eq!(extract_zap_comment(&e), String::new());
    let empty_comment = event("z4", "wallet", KIND_ZAP_RECEIPT, "", vec![tag(&["description", r#"{"content":""}"#])]);
    assert_eq!(extract_zap_comment(&empty_comment), String::new());
}

#[test]
fn linkage_with_markers() {
    let l = thread_linkage(&vec![tag(&["e", "A", "", "root"]), tag(&["e", "B", "", "reply"])]);
    assert_eq!(l.root_id, Some("A".to_string()));
    assert_eq!(l.parent_id, Some("B".to_string()));
    assert!(l.is_reply);
}

#[test]
fn linkage_single_unmarked() {
    let l = thread_linkage(&vec![tag(&["e", "C"])]);
    assert_eq!(l.root_id, Some("C".to_string()));
    assert_eq!(l.parent_id, Some("C".to_string()));
    assert!(l.is_reply);
}

#[test]
fn linkage_quote_only() {
    let l = thread_linkage(&vec![tag(&["q", "Q"])]);
    assert_eq!(l.root_id, None);
    assert_eq!(l.parent_id, None);
    assert!(l.is_quote);
    assert!(!l.is_reply);
}

#[test]
fn linkage_legacy_positional_heuristic() {
    let l = thread_linkage(&vec![tag(&["e", "X"]), tag(&["e", "Y", "", "mention"]), tag(&["e", "Z"])]);
    assert_eq!(l.root_id, Some("X".to_string()));
    assert_eq!(l.parent_id, Some("Z".to_string()));
}

#[test]
fn linkage_root_only_is_parent_too() {
    let l = thread_linkage(&vec![tag(&["e", "R", "", "root"]), tag(&["p", "someone"])]);
    assert_eq!(l.root_id, Some("R".to_string()));
    assert_eq!(l.parent_id, Some("R".to_string()));
}

#[test]
fn search_ignores_case_and_limits() {
    let es = vec![
        event("a1", "bob", KIND_TEXT_NOTE, "Nostr is FUN", vec![]),
        event("a2", "bob", KIND_TEXT_NOTE, "nothing", vec![]),
        event("a3", "bob", KIND_TEXT_NOTE, "more fun", vec![]),
        event("a4", "bob", KIND_TEXT_NOTE, "fun again", vec![]),
    ];
    assert_eq!(search_notes(&es, "fUn", 2), vec![0, 2]);
    assert_eq!(search_notes(&es, "FUN", 10), vec![0, 2, 3]);
}
