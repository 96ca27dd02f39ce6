use nostr_core::thread::{
    assign_parents, children_of, ReplySync, RootStep, RootWalk, ThreadReply, WalkAction, root_step,
};

fn reply(id: &str, parent: Option<&str>, root: Option<&str>, created_at: i64) -> ThreadReply {
    ThreadReply {
        id: id.to_string(),
        parent_id: parent.map(|s| s.to_string()),
        root_id: root.map(|s| s.to_string()),
        created_at,
    }
}

fn tag(parts: &[&str]) -> Vec<String> {
    parts.iter().map(|s| s.to_string()).collect()
}

#[test]
fn unknown_parent_falls_back_to_root() {
    let root = "R".to_string();
    let replies = vec![reply("a", Some("ghost"), Some("R"), 10), reply("b", Some("a"), Some("R"), 20)];
    let parents = assign_parents(&root, &replies);
    assert_eq!(parents, vec![Some("R".to_string()), Some("a".to_string())]);
}

#[test]
fn declared_root_used_without_parent() {
    let root = "R".to_string();
    let replies = vec![
        reply("a", None, Some("R"), 10),
        reply("b", None, Some("a"), 20),
        reply("c", None, Some("elsewhere"), 30),
        reply("d", Some(""), None, 40),
        reply("", Some("a"), None, 50),
    ];
    let parents = assign_parents(&root, &replies);
    assert_eq!(
        parents,
        vec![
            Some("R".to_string()),
            Some("a".to_string()),
            Some("R".to_string()),
            Some("R".to_string()),
            None
        ]
    );
}

#[test]
fn children_sorted_by_creation_time() {
    let root = "R".to_string();
    let replies = vec![
        reply("late", Some("R"), None, 300),
        reply("early", Some("R"), None, 100),
        reply("nested", Some("early"), None, 50),
        reply("tie_first", Some("R"), None, 200),
        reply("tie_second", Some("R"), None, 200),
    ];
    let parents = assign_parents(&root, &replies);
    let kids = children_of(&root, &parents, &replies);
    assert_eq!(kids, vec![1, 3, 4, 0]);
    let nested = children_of(&"early".to_string(), &parents, &replies);
    assert_eq!(nested, vec![2]);
}

#[test]
fn root_step_prefers_root_marker() {
    let tags = vec![tag(&["e", "P", "", "reply"]), tag(&["e", "R", "", "root"])];
    match root_step(&"N".to_string(), &tags) {
        RootStep::Done(x) => assert_eq!(x, "R"),
        RootStep::Follow(_) => panic!("expected the root"),
    }
}

#[test]
fn root_step_follows_parent() {
    let tags = vec![tag(&["e", "P"])];
    match root_step(&"N".to_string(), &tags) {
        RootStep::Follow(x) => assert_eq!(x, "P"),
        RootStep::Done(_) => panic!("expected to follow"),
    }
    match root_step(&"N".to_string(), &vec![tag(&["e", "A"]), tag(&["e", "B"])]) {
        RootStep::Follow(x) => assert_eq!(x, "B"),
        RootStep::Done(_) => panic!("expected to follow the last reference"),
    }
    match root_step(&"N".to_string(), &vec![tag(&["p", "someone"])]) {
        RootStep::Done(x) => assert_eq!(x, "N"),
        RootStep::Follow(_) => panic!("expected the note itself"),
    }
}

#[test]
fn root_walk_stops_on_cycle() {
    let mut w = RootWalk::new("A".to_string());
    match w.next_action() {
        WalkAction::Lookup(x) => assert_eq!(x, "A"),
        WalkAction::Finish(_) => panic!("expected a lookup"),
    }
    assert_eq!(w.on_event(Some(&vec![tag(&["e", "B"])])), None);
    match w.next_action() {
        WalkAction::Lookup(x) => assert_eq!(x, "B"),
        WalkAction::Finish(_) => panic!("expected a lookup"),
    }
    assert_eq!(w.on_event(Some(&vec![tag(&["e", "A"])])), None);
    match w.next_action() {
        WalkAction::Finish(x) => assert_eq!(x, "A"),
        WalkAction::Lookup(_) => panic!("expected the end"),
    }
}

#[test]
fn root_walk_missing_event_ends_walk() {
    let mut w = RootWalk::new("A".to_string());
    let _ = w.next_action();
    assert_eq!(w.on_event(None), Some("A".to_string()));
}

#[test]
fn root_walk_hop_bound() {
    let mut w = RootWalk::new("n0".to_string());
    for i in 0..15 {
        match w.next_action() {
            WalkAction::Lookup(_) => {}
            WalkAction::Finish(_) => panic!("ended early"),
        }
        let next = format!("n{}", i + 1);
        assert_eq!(w.on_event(Some(&vec![tag(&["e", &next])])), None);
    }
    match w.next_action() {
        WalkAction::Finish(x) => assert_eq!(x, "n15"),
        WalkAction::Lookup(_) => panic!("bound passed"),
    }
}

#[test]
fn reply_sync_dedups_and_counts() {
    let mut s = ReplySync::new("root".to_string(), 2);
    assert!(s.wants_round());
    s.absorb(&vec!["a".to_string(), "b".to_string(), "a".to_string(), "root".to_string()]);
    assert_eq!(s.pending, vec!["a".to_string(), "b".to_string()]);
    assert_eq!(s.fetched, 2);
    assert!(s.wants_round());
    s.absorb(&vec!["b".to_string(), "c".to_string()]);
    assert_eq!(s.pending, vec!["c".to_string()]);
    assert_eq!(s.fetched, 3);
    assert!(!s.wants_round());
}

#[test]
fn reply_sync_stops_at_cap() {
    let mut s = ReplySync::new("root".to_string(), 5);
    let ids: Vec<String> = (0..600).map(|i| format!("r{}", i)).collect();
    s.absorb(&ids);
    assert_eq!(s.fetched, 500);
    assert_eq!(s.pending.len(), 500);
    assert_eq!(s.pending[499], "r499");
    assert!(!s.wants_round());
}
