use nostr_core::article::article_of;
use nostr_core::counts::{batch_interactions, note_interactions};
use nostr_core::event::{Event, KIND_REACTION, KIND_REPOST, KIND_TEXT_NOTE, KIND_ZAP_RECEIPT};
use nostr_core::notes::{feed_note, feed_notes, ids_to_fetch, merge_order, referenced_ids, NoteKey};
use nostr_core::notify::{notification_of, notifications, NotificationType};

fn tag(parts: &[&str]) -> Vec<String> {
    parts.iter().map(|s| s.to_string()).collect()
}

fn ev(id: &str, pubkey: &str, kind: u16, content: &str, created_at: u64, tags: Vec<Vec<String>>) -> Event {
    Event {
        id: id.to_string(),
        pubkey: pubkey.to_string(),
        created_at,
        kind,
        content: content.to_string(),
        tags,
        sig: String::new(),
    }
}

#[test]
fn counts_per_note() {
    let desc = r#"{"pubkey":"me","tags":[["amount","5000"]]}"#;
    let es = vec![
        ev("r1", "me", KIND_REACTION, "+", 1, vec![tag(&["e", "n1"]), tag(&["e", "n1"])]),
        ev("r2", "x", KIND_REACTION, "+", 2, vec![tag(&["e", "n1"])]),
        ev("rp1", "x", KIND_REPOST, "", 3, vec![tag(&["e", "n2"])]),
        ev("t1", "x", KIND_TEXT_NOTE, "hi", 4, vec![tag(&["e", "n1"]), tag(&["e", "n2"])]),
        ev("z1", "w", KIND_ZAP_RECEIPT, "", 5, vec![tag(&["e", "n1"]), tag(&["bolt11", "lnbc10u1pxyz"])]),
        ev("z2", "w", KIND_ZAP_RECEIPT, "", 6, vec![tag(&["e", "n1"]), tag(&["description", desc])]),
    ];
    let c = note_interactions(&es, &"n1".to_string(), &Some("me".to_string()));
    assert_eq!(c.reactions, 2);
    assert_eq!(c.reposts, 0);
    assert_eq!(c.replies, 1);
    assert_eq!(c.zaps, 1005);
    assert!(c.has_reacted);
    assert!(!c.has_reposted);
    assert!(c.has_zapped);
    let all = batch_interactions(&es, &vec!["n2".to_string(), "n3".to_string()], &None);
    assert_eq!(all[0].reposts, 1);
    assert_eq!(all[0].replies, 1);
    assert!(!all[0].has_reposted);
    assert_eq!(all[1].reactions + all[1].reposts + all[1].replies + all[1].zaps, 0);
}

#[test]
fn notification_kinds() {
    let reply = ev("1", "x", KIND_TEXT_NOTE, "re", 1, vec![tag(&["e", "A"]), tag(&["e", "B", "", "reply"])]);
    let n = notification_of(&reply);
    assert!(n.kind == NotificationType::Reply);
    assert_eq!(n.target_note_id, Some("B".to_string()));
    let mention = ev("2", "x", KIND_TEXT_NOTE, "hey", 1, vec![tag(&["e", "A"]), tag(&["e", "C"])]);
    let n = notification_of(&mention);
    assert!(n.kind == NotificationType::Mention);
    assert_eq!(n.target_note_id, Some("C".to_string()));
    let plain = ev("3", "x", KIND_TEXT_NOTE, "hey", 1, vec![tag(&["p", "me"])]);
    assert!(notification_of(&plain).kind == NotificationType::Reply);
    let like = ev("4", "x", KIND_REACTION, "+", 1, vec![tag(&["e", "A"]), tag(&["e", "D"])]);
    let n = notification_of(&like);
    assert!(n.kind == NotificationType::Reaction);
    assert_eq!(n.target_note_id, Some("A".to_string()));
    assert_eq!(n.kind.name(), "reaction");
    let boost = ev("5", "x", KIND_REPOST, "", 1, vec![tag(&["e", "E"])]);
    assert!(notification_of(&boost).kind == NotificationType::Repost);
}

#[test]
fn zap_notification_uses_sender() {
    let desc = r#"{"pubkey":"alice","tags":[]}"#;
    let z = ev("z", "wallet", KIND_ZAP_RECEIPT, "", 1, vec![tag(&["e", "N"]), tag(&["bolt11", "lnbc2500n1pxyz"]), tag(&["description", desc])]);
    let n = notification_of(&z);
    assert!(n.kind == NotificationType::Zap);
    assert_eq!(n.from_pubkey, "alice");
    assert_eq!(n.zap_amount, Some(250));
    assert_eq!(n.target_note_id, Some("N".to_string()));
}

#[test]
fn own_events_not_notified() {
    let es = vec![
        ev("1", "me", KIND_REACTION, "+", 1, vec![tag(&["e", "A"])]),
        ev("2", "x", KIND_REACTION, "+", 2, vec![tag(&["e", "A"])]),
    ];
    let ns = notifications(&es, &"me".to_string());
    assert_eq!(ns.len(), 1);
    assert_eq!(ns[0].id, "2");
}

#[test]
fn repost_is_unwrapped() {
    let inner = r#"{"id":"orig","pubkey":"author","content":"original text","created_at":1234,"tags":[["e","R","","root"]]}"#;
    let r = ev("rp", "booster", KIND_REPOST, inner, 99, vec![tag(&["e", "orig"]), tag(&["p", "tagged"])]);
    let n = feed_note(&r);
    assert_eq!(n.id, "orig");
    assert_eq!(n.pubkey, "author");
    assert_eq!(n.content, "original text");
    assert_eq!(n.created_at, 1234);
    assert!(n.is_repost);
    assert_eq!(n.reposted_by, Some("booster".to_string()));
    assert_eq!(n.repost_created_at, Some(99));
    assert_eq!(n.root_id, Some("R".to_string()));
    assert_eq!(n.parent_id, Some("R".to_string()));
    assert!(n.is_reply);
}

#[test]
fn repost_without_json_uses_tags() {
    let r = ev("rp", "booster", KIND_REPOST, "", 99, vec![tag(&["e", "orig"]), tag(&["p", "tagged"])]);
    let n = feed_note(&r);
    assert_eq!(n.id, "orig");
    assert_eq!(n.pubkey, "tagged");
    assert_eq!(n.created_at, 99);
}

#[test]
fn feed_filters_replies_but_keeps_reposts() {
    let es = vec![
        ev("1", "a", KIND_TEXT_NOTE, "top", 1, vec![]),
        ev("2", "a", KIND_TEXT_NOTE, "reply", 2, vec![tag(&["e", "1"])]),
        ev("3", "a", KIND_TEXT_NOTE, "quote", 3, vec![tag(&["q", "1"])]),
        ev("4", "b", KIND_REPOST, "", 4, vec![tag(&["e", "2"]), tag(&["p", "a"])]),
    ];
    let all = feed_notes(&es, false);
    assert_eq!(all.len(), 4);
    let top = feed_notes(&es, true);
    let ids: Vec<&str> = top.iter().map(|n| n.id.as_str()).collect();
    assert_eq!(ids, vec!["1", "3", "2"]);
    assert!(top[2].is_repost);
}

#[test]
fn merged_feed_newest_first_without_duplicates() {
    let k = |id: &str, t: i64| NoteKey { id: id.to_string(), time: t };
    let notes = vec![k("b", 20), k("c", 30), k("", 50), k("a", 10), k("b", 99), k("d", 20)];
    assert_eq!(merge_order(&notes), vec![1, 0, 5, 3]);
}

#[test]
fn article_fields() {
    let a = ev(
        "art",
        "writer",
        30023,
        "body",
        500,
        vec![
            tag(&["d", "slug"]),
            tag(&["title", "First"]),
            tag(&["title", "Second"]),
            tag(&["image", "http://img"]),
            tag(&["published_at", "400"]),
            tag(&["t", "nostr"]),
            tag(&["t", ""]),
            tag(&["t", "rust"]),
        ],
    );
    let x = article_of(&a);
    assert_eq!(x.title, "Second");
    assert_eq!(x.d_tag, "slug");
    assert_eq!(x.image, Some("http://img".to_string()));
    assert_eq!(x.summary, None);
    assert_eq!(x.published_at, 400);
    assert_eq!(x.hashtags, vec!["nostr", "rust"]);
    let b = ev("art2", "writer", 30023, "", 700, vec![tag(&["published_at", "soon"])]);
    assert_eq!(article_of(&b).published_at, 700);
    assert_eq!(article_of(&b).title, "");
}

#[test]
fn references_to_fetch() {
    let es = vec![
        ev("1", "a", KIND_TEXT_NOTE, "", 1, vec![tag(&["q", "Q1"]), tag(&["e", "M1", "", "mention"]), tag(&["e", "R1", "", "reply"])]),
        ev("2", "a", KIND_TEXT_NOTE, "", 1, vec![tag(&["e", "U1"]), tag(&["q", "Q1"]), tag(&["e", "2"]), tag(&["q", ""])]),
    ];
    let refs = referenced_ids(&es, &vec!["1".to_string(), "2".to_string()]);
    assert_eq!(refs, vec!["Q1", "M1", "U1"]);
    let fetch = ids_to_fetch(&refs, &vec![false, true, false]);
    assert_eq!(fetch, vec!["Q1", "U1"]);
}
