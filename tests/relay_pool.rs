use nostr_core::counts::CountStream;
use nostr_core::event::{Event, KIND_REACTION, KIND_RELAY_LIST, KIND_TEXT_NOTE};
use nostr_core::profile::{profile_has_picture, profile_matches};
use nostr_core::outbox::{candidate_flags, discover_outbox_relays};
use nostr_core::pool::{
    connected_relay_count, listed_relays, status_summary, tally_broadcast, write_targets, EventCollector,
    RelayFlags, RelayRecord, RelayStatus, SendOutcome, UserRelays,
};
use nostr_core::store::{cleanup_cutoff, store_is_corrupt, OpenAction, StoreOpenPlan};

fn relay_list(author: &str, entries: &[(&str, Option<&str>)]) -> Event {
    Event {
        id: format!("list-{}", author),
        pubkey: author.to_string(),
        created_at: 1,
        kind: KIND_RELAY_LIST,
        content: String::new(),
        tags: entries
            .iter()
            .map(|(url, mode)| {
                let mut t = vec!["r".to_string(), url.to_string()];
                if let Some(m) = mode {
                    t.push(m.to_string());
                }
                t
            })
            .collect(),
        sig: String::new(),
    }
}

fn record(url: &str, status: RelayStatus, read: bool, write: bool, discovery: bool) -> RelayRecord {
    RelayRecord {
        url: url.to_string(),
        status,
        flags: RelayFlags { read, write, discovery },
        attempts: 0,
        success: 0,
        bytes_sent: 0,
        bytes_received: 0,
        connected_at: 0,
    }
}

#[test]
fn outbox_frequent_relay_selected() {
    let lists = vec![
        relay_list("a1", &[("wss://x", Some("write")), ("wss://y", Some("write"))]),
        relay_list("a2", &[("wss://x", Some("write"))]),
        relay_list("a3", &[("wss://x", Some("write"))]),
    ];
    let chosen = discover_outbox_relays(&lists, &vec![]);
    assert_eq!(chosen.len(), 1);
    assert_eq!(chosen[0].url, "wss://x");
    assert_eq!(chosen[0].frequency, 3);
    assert!(chosen[0].is_outbox);
    assert!(!chosen[0].is_inbox);
    let flags = candidate_flags(&chosen[0]);
    assert!(flags.write && !flags.read);
}

#[test]
fn outbox_skips_known_and_orders_by_frequency() {
    let lists = vec![
        relay_list("a1", &[("wss://x", None), ("wss://k", None), ("wss://z", Some("read"))]),
        relay_list("a2", &[("wss://z", Some("read")), ("wss://k", None), ("wss://x", Some("write"))]),
        relay_list("a3", &[("wss://z", Some("read"))]),
    ];
    let chosen = discover_outbox_relays(&lists, &vec!["wss://k".to_string()]);
    let urls: Vec<&str> = chosen.iter().map(|c| c.url.as_str()).collect();
    assert_eq!(urls, vec!["wss://z", "wss://x"]);
    assert_eq!(chosen[0].frequency, 3);
    assert_eq!(chosen[1].frequency, 2);
    assert!(chosen[1].is_outbox && chosen[1].is_inbox);
    let both = candidate_flags(&chosen[1]);
    assert!(both.read && both.write);
    let inbox = candidate_flags(&chosen[0]);
    assert!(inbox.read && !inbox.write);
}

#[test]
fn outbox_single_unmarked_listing_not_chosen() {
    let lists = vec![
        relay_list("a1", &[("wss://once", None), ("wss://twice", None)]),
        relay_list("a2", &[("wss://twice", Some("read"))]),
    ];
    let chosen = discover_outbox_relays(&lists, &vec![]);
    let urls: Vec<&str> = chosen.iter().map(|c| c.url.as_str()).collect();
    assert_eq!(urls, vec!["wss://twice"]);
}

#[test]
fn outbox_same_author_counts_once() {
    let lists = vec![
        relay_list("a1", &[("wss://x", Some("write")), ("wss://x", Some("read"))]),
        relay_list("a1", &[("wss://x", None)]),
    ];
    assert!(discover_outbox_relays(&lists, &vec![]).is_empty());
}

#[test]
fn outbox_caps_the_list() {
    let mut entries: Vec<String> = Vec::new();
    for i in 0..40 {
        entries.push(format!("wss://r{}", i));
    }
    let refs: Vec<(&str, Option<&str>)> = entries.iter().map(|u| (u.as_str(), Some("write"))).collect();
    let lists = vec![relay_list("a1", &refs), relay_list("a2", &refs)];
    let chosen = discover_outbox_relays(&lists, &vec![]);
    assert_eq!(chosen.len(), 30);
}

#[test]
fn partial_send_reports_each_relay() {
    let outcomes = vec![SendOutcome::Reported {
        success: vec!["wss://a".to_string(), "wss://b".to_string()],
        failed: vec![("wss://c".to_string(), "blocked".to_string())],
    }];
    let t = tally_broadcast(&outcomes);
    assert_eq!(t.total_success, 2);
    assert_eq!(t.total_failed, 1);
}

#[test]
fn failed_send_counts_once() {
    let outcomes = vec![
        SendOutcome::Failed,
        SendOutcome::Reported { success: vec!["wss://a".to_string()], failed: vec![] },
    ];
    let t = tally_broadcast(&outcomes);
    assert_eq!(t.total_success, 1);
    assert_eq!(t.total_failed, 1);
}

#[test]
fn fetch_with_nothing_received_is_empty() {
    let c = EventCollector::new();
    let got = c.finish();
    assert!(got.is_empty());
}

#[test]
fn collector_dedups_by_id() {
    let mut c = EventCollector::new();
    let e = |id: &str| Event {
        id: id.to_string(),
        pubkey: "p".to_string(),
        created_at: 1,
        kind: KIND_TEXT_NOTE,
        content: String::new(),
        tags: vec![],
        sig: String::new(),
    };
    assert!(c.offer(e("1")));
    assert!(c.offer(e("2")));
    assert!(!c.offer(e("1")));
    let got = c.finish();
    let ids: Vec<&str> = got.iter().map(|e| e.id.as_str()).collect();
    assert_eq!(ids, vec!["1", "2"]);
}

#[test]
fn pool_status_counts() {
    let rs = vec![
        record("wss://a", RelayStatus::Connected, true, true, false),
        record("wss://b", RelayStatus::Disconnected, true, false, false),
        record("wss://d", RelayStatus::Connected, false, false, true),
        record("wss://e", RelayStatus::Connected, false, true, false),
    ];
    let s = status_summary(&rs);
    assert_eq!(s.total_relays, 3);
    assert_eq!(s.connected_relays, 2);
    assert_eq!(connected_relay_count(&rs), 2);
    assert_eq!(listed_relays(&rs), vec!["wss://a", "wss://b", "wss://e"]);
    assert_eq!(write_targets(&rs), vec!["wss://a", "wss://e"]);
    assert_eq!(RelayStatus::Sleeping.name(), "sleeping");
    assert_eq!(RelayStatus::Connected.name(), "connected");
}

#[test]
fn user_relays_add_and_remove() {
    let mut u = UserRelays::new();
    u.add(&"wss://a".to_string());
    u.add(&"wss://b".to_string());
    u.add(&"wss://a".to_string());
    assert_eq!(u.urls, vec!["wss://a", "wss://b"]);
    u.remove(&"wss://a".to_string());
    assert_eq!(u.urls, vec!["wss://b"]);
}

#[test]
fn store_open_wipes_once_after_all_sizes() {
    let mut p = StoreOpenPlan::new();
    let mut sizes = Vec::new();
    for _ in 0..4 {
        match p.next_action() {
            OpenAction::Open(s) => sizes.push(s),
            _ => panic!("expected an open"),
        }
        p.open_failed();
    }
    assert_eq!(sizes, vec![2147483648, 1073741824, 536870912, 268435456]);
    assert!(matches!(p.next_action(), OpenAction::Wipe));
    p.wiped_store();
    assert!(matches!(p.next_action(), OpenAction::Open(2147483648)));
    for _ in 0..4 {
        p.open_failed();
    }
    assert!(matches!(p.next_action(), OpenAction::GiveUp));
    assert!(store_is_corrupt(None));
    assert!(store_is_corrupt(Some(0)));
    assert!(!store_is_corrupt(Some(4096)));
}

#[test]
fn live_counts_throttled_and_deduplicated() {
    let reaction = |id: &str, note: &str| Event {
        id: id.to_string(),
        pubkey: "fan".to_string(),
        created_at: 1,
        kind: KIND_REACTION,
        content: "+".to_string(),
        tags: vec![vec!["e".to_string(), note.to_string()]],
        sig: String::new(),
    };
    let mut s = CountStream::new(vec!["n1".to_string()], Some("fan".to_string()), 2, 1000);
    assert!(s.on_event(reaction("r1", "n1"), 1100).is_none());
    let emitted = s.on_event(reaction("r2", "n1"), 1300).unwrap();
    assert_eq!(emitted[0].reactions, 2);
    assert!(emitted[0].has_reacted);
    assert!(s.on_event(reaction("r2", "n1"), 2000).is_none());
    assert!(s.on_event(reaction("r3", "other"), 1400).is_none());
    assert!(!s.on_end_of_stored());
    assert!(s.on_end_of_stored());
    assert_eq!(s.final_counts().unwrap()[0].reactions, 2);
    let quiet = CountStream::new(vec!["n1".to_string()], None, 1, 0);
    assert!(quiet.final_counts().is_none());
}

#[test]
fn cleanup_cutoff_days() {
    assert_eq!(cleanup_cutoff(1_000_000, 2), 1_000_000 - 172_800);
    assert_eq!(cleanup_cutoff(100, 1), 0);
}

#[test]
fn profile_search_and_pictures() {
    let content = r#"{"name":"Satoshi","display_name":"SN","nip05":"sn@BITCOIN.org"}"#;
    assert!(profile_matches(content, "sato"));
    assert!(profile_matches(content, "bitcoin"));
    assert!(!profile_matches(content, "alice"));
    assert!(!profile_matches("nope", "a"));
    assert!(!profile_has_picture(content));
    assert!(profile_has_picture(r#"{"picture":"http://x"}"#));
}
