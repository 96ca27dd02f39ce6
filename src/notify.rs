use vstd::prelude::*;

use crate::decode::{extract_zap_amount_sats, extract_zap_sender, first_request_member, zap_amount_spec};
use crate::event::{same_text, tag_has, tag_is, Event, TagsView, KIND_REACTION, KIND_REPOST, KIND_TEXT_NOTE, KIND_ZAP_RECEIPT};
use crate::notes::{first_tag_value, or_else};

verus! {

/// What a notification tells the user.
#[derive(PartialEq, Eq, Structural, Clone, Copy)]
pub enum NotificationType {
    Reply,
    Mention,
    Repost,
    Reaction,
    Zap,
}

impl NotificationType {
    /// The type as the presentation layer names it.
    pub fn name(&self) -> (r: &'static str)
        ensures
            r@ == notification_name(*self),
    {
        match self {
            NotificationType::Reply => "reply",
            NotificationType::Mention => "mention",
            NotificationType::Repost => "repost",
            NotificationType::Reaction => "reaction",
            NotificationType::Zap => "zap",
        }
    }
}

pub open spec fn notification_name(t: NotificationType) -> Seq<char> {
    match t {
        NotificationType::Reply => "reply"@,
        NotificationType::Mention => "mention"@,
        NotificationType::Repost => "repost"@,
        NotificationType::Reaction => "reaction"@,
        NotificationType::Zap => "zap"@,
    }
}

/// One entry of the user's notification stream, before profiles are joined.
pub struct Notification {
    pub id: String,
    pub kind: NotificationType,
    pub from_pubkey: String,
    pub target_note_id: Option<String>,
    pub content: String,
    pub created_at: u64,
    pub zap_amount: Option<u64>,
}

/// The values of a [`Notification`].
pub struct NotificationView {
    pub id: Seq<char>,
    pub kind: NotificationType,
    pub from_pubkey: Seq<char>,
    pub target_note_id: Option<Seq<char>>,
    pub content: Seq<char>,
    pub created_at: u64,
    pub zap_amount: Option<u64>,
}

impl View for Notification {
    type V = NotificationView;

    open spec fn view(&self) -> NotificationView {
        NotificationView {
            id: self.id@,
            kind: self.kind,
            from_pubkey: self.from_pubkey@,
            target_note_id: self.target_note_id.deep_view(),
            content: self.content@,
            created_at: self.created_at,
            zap_amount: self.zap_amount,
        }
    }
}

/// An `e` tag marked as part of a thread (`reply` or `root`).
pub open spec fn thread_marked(tag: Seq<Seq<char>>) -> bool {
    tag_has(tag, "e"@) && tag.len() >= 4 && (tag[3] == "reply"@ || tag[3] == "root"@)
}

/// The id of the first thread-marked `e` tag from `i` on.
pub open spec fn first_thread_ref(tags: TagsView, i: int) -> Option<Seq<char>>
    decreases tags.len() - i,
{
    if i < 0 || i >= tags.len() {
        None
    } else if thread_marked(tags[i]) {
        Some(tags[i][1])
    } else {
        first_thread_ref(tags, i + 1)
    }
}

/// The id of the last `e` tag among the first `n`.
pub open spec fn last_e_ref(tags: TagsView, n: int) -> Option<Seq<char>>
    decreases n,
{
    if n <= 0 || n > tags.len() {
        None
    } else if tag_has(tags[n - 1], "e"@) {
        Some(tags[n - 1][1])
    } else {
        last_e_ref(tags, n - 1)
    }
}

/// How an event shows in the notification stream. A text note is a reply
/// when an `e` tag marks it so (that tag names the target), a mention when it
/// refers by unmarked `e` tags only (the last names the target); reposts,
/// reactions and zaps target their first `e` tag; a zap shows its amount, when
/// not zero, and comes from the zap's sender where the receipt names one.
pub open spec fn notification_spec(e: Event) -> NotificationView {
    let tags = e.tags_view();
    let first_e = first_tag_value(tags, "e"@, 0);
    if e.kind == KIND_TEXT_NOTE {
        let marked = first_thread_ref(tags, 0);
        let last = last_e_ref(tags, tags.len() as int);
        NotificationView {
            id: e.id@,
            kind: if marked is None && last is Some {
                NotificationType::Mention
            } else {
                NotificationType::Reply
            },
            from_pubkey: e.pubkey@,
            target_note_id: if marked is Some {
                marked
            } else {
                last
            },
            content: e.content@,
            created_at: e.created_at,
            zap_amount: None,
        }
    } else if e.kind == KIND_ZAP_RECEIPT {
        let sats = zap_amount_spec(tags);
        NotificationView {
            id: e.id@,
            kind: NotificationType::Zap,
            from_pubkey: or_else(first_request_member(tags, "pubkey"@, false, 0), e.pubkey@),
            target_note_id: first_e,
            content: e.content@,
            created_at: e.created_at,
            zap_amount: if sats > 0 {
                Some(sats)
            } else {
                None
            },
        }
    } else {
        NotificationView {
            id: e.id@,
            kind: if e.kind == KIND_REPOST {
                NotificationType::Repost
            } else if e.kind == KIND_REACTION {
                NotificationType::Reaction
            } else {
                NotificationType::Mention
            },
            from_pubkey: e.pubkey@,
            target_note_id: if e.kind == KIND_REPOST || e.kind == KIND_REACTION {
                first_e
            } else {
                None
            },
            content: e.content@,
            created_at: e.created_at,
            zap_amount: None,
        }
    }
}

fn first_e_value(tags: &Vec<Vec<String>>) -> (r: Option<String>)
    ensures
        r.deep_view() == first_tag_value(tags.deep_view(), "e"@, 0),
{
    let ghost t = tags.deep_view();
    let mut i: usize = 0;
    while i < tags.len()
        invariant
            t == tags.deep_view(),
            i <= tags.len(),
            first_tag_value(t, "e"@, 0) == first_tag_value(t, "e"@, i as int),
        decreases tags.len() - i,
    {
        assert(t[i as int] == tags[i as int].deep_view());
        if tag_is(&tags[i], "e") {
            return Some(tags[i][1].clone());
        }
        i += 1;
    }
    None
}

/// Classifies one event for the notification stream.
pub fn notification_of(e: &Event) -> (r: Notification)
    ensures
        r@ == notification_spec(*e),
{
    let ghost t = e.tags_view();
    if e.kind == KIND_TEXT_NOTE {
        let mut target: Option<String> = None;
        let mut marked = false;
        let mut i: usize = 0;
        while i < e.tags.len()
            invariant_except_break
                !marked,
                first_thread_ref(t, 0) == first_thread_ref(t, i as int),
                target.deep_view() == last_e_ref(t, i as int),
            invariant
                t == e.tags_view(),
                i <= e.tags.len(),
            ensures
                marked ==> first_thread_ref(t, 0) == target.deep_view() && target is Some,
                !marked ==> first_thread_ref(t, 0) is None && target.deep_view() == last_e_ref(t, t.len() as int),
            decreases e.tags.len() - i,
        {
            let tag = &e.tags[i];
            assert(t[i as int] == tag.deep_view());
            if tag_is(tag, "e") {
                target = Some(tag[1].clone());
                if tag.len() >= 4 && (same_text(&tag[3], "reply") || same_text(&tag[3], "root")) {
                    marked = true;
                    break;
                }
            }
            i += 1;
        }
        let kind = if !marked && target.is_some() {
            NotificationType::Mention
        } else {
            NotificationType::Reply
        };
        return Notification {
            id: e.id.clone(),
            kind,
            from_pubkey: e.pubkey.clone(),
            target_note_id: target,
            content: e.content.clone(),
            created_at: e.created_at,
            zap_amount: None,
        };
    }
    if e.kind == KIND_ZAP_RECEIPT {
        let sats = extract_zap_amount_sats(e);
        let from = match extract_zap_sender(e) {
            Some(s) => s,
            None => e.pubkey.clone(),
        };
        return Notification {
            id: e.id.clone(),
            kind: NotificationType::Zap,
            from_pubkey: from,
            target_note_id: first_e_value(&e.tags),
            content: e.content.clone(),
            created_at: e.created_at,
            zap_amount: if sats > 0 {
                Some(sats)
            } else {
                None
            },
        };
    }
    let targeted = e.kind == KIND_REPOST || e.kind == KIND_REACTION;
    Notification {
        id: e.id.clone(),
        kind: if e.kind == KIND_REPOST {
            NotificationType::Repost
        } else if e.kind == KIND_REACTION {
            NotificationType::Reaction
        } else {
            NotificationType::Mention
        },
        from_pubkey: e.pubkey.clone(),
        target_note_id: if targeted {
            first_e_value(&e.tags)
        } else {
            None
        },
        content: e.content.clone(),
        created_at: e.created_at,
        zap_amount: None,
    }
}

/// The notifications of the first `n` events, those by the user left out.
pub open spec fn notifications_spec(es: Seq<Event>, user: Seq<char>, n: int) -> Seq<NotificationView>
    decreases n,
{
    if n <= 0 || n > es.len() {
        Seq::empty()
    } else if es[n - 1].pubkey@ != user {
        notifications_spec(es, user, n - 1).push(notification_spec(es[n - 1]))
    } else {
        notifications_spec(es, user, n - 1)
    }
}

/// The user's notification stream, in the order of the events; the user's
/// own events are left out.
pub fn notifications(events: &Vec<Event>, user_pubkey: &String) -> (r: Vec<Notification>)
    ensures
        r@.map_values(|n: Notification| n@) == notifications_spec(events@, user_pubkey@, events.len() as int),
{
    let mut out: Vec<Notification> = Vec::new();
    let mut i: usize = 0;
    while i < events.len()
        invariant
            i <= events.len(),
            out@.map_values(|n: Notification| n@) == notifications_spec(events@, user_pubkey@, i as int),
        decreases events.len() - i,
    {
        if events[i].pubkey != *user_pubkey {
            let n = notification_of(&events[i]);
            let ghost prev = out@;
            out.push(n);
            assert(out@.map_values(|n: Notification| n@) =~= prev.map_values(|n: Notification| n@).push(n@));
        }
        i += 1;
    }
    out
}

} // verus!
