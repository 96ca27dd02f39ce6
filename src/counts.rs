use vstd::prelude::*;

use crate::decode::{extract_zap_amount_sats, extract_zap_sender, first_request_member, zap_amount_spec};
use crate::event::{tag_has, tag_is, Event, KIND_REACTION, KIND_REPOST, KIND_TEXT_NOTE, KIND_ZAP_RECEIPT};
use crate::pool::{ids_of, EventCollector};

verus! {

/// The event refers to `id` by an `e` tag.
pub open spec fn refers_to(e: Event, id: Seq<char>) -> bool {
    exists|i: int| 0 <= i < e.tags_view().len() && tag_has(#[trigger] e.tags_view()[i], "e"@) && e.tags_view()[i][1] == id
}

/// Events among the first `n` of the given kind that refer to `id`.
pub open spec fn kind_count(es: Seq<Event>, kind: u16, id: Seq<char>, n: int) -> nat
    decreases n,
{
    if n <= 0 || n > es.len() {
        0
    } else {
        kind_count(es, kind, id, n - 1) + if es[n - 1].kind == kind && refers_to(es[n - 1], id) {
            1nat
        } else {
            0nat
        }
    }
}

/// Satoshis of the zap receipts among the first `n` that refer to `id`.
pub open spec fn zap_total(es: Seq<Event>, id: Seq<char>, n: int) -> nat
    decreases n,
{
    if n <= 0 || n > es.len() {
        0
    } else {
        zap_total(es, id, n - 1) + if es[n - 1].kind == KIND_ZAP_RECEIPT && refers_to(es[n - 1], id) {
            zap_amount_spec(es[n - 1].tags_view()) as nat
        } else {
            0nat
        }
    }
}

/// The user wrote an event of the kind that refers to `id`.
pub open spec fn user_did(es: Seq<Event>, kind: u16, id: Seq<char>, user: Option<Seq<char>>) -> bool {
    user is Some && exists|i: int|
        0 <= i < es.len() && (#[trigger] es[i]).kind == kind && refers_to(es[i], id) && es[i].pubkey@ == user->0
}

/// A zap receipt that refers to `id` names the user as the zap's sender.
pub open spec fn user_zapped(es: Seq<Event>, id: Seq<char>, user: Option<Seq<char>>) -> bool {
    user is Some && exists|i: int|
        0 <= i < es.len() && (#[trigger] es[i]).kind == KIND_ZAP_RECEIPT && refers_to(es[i], id)
            && first_request_member(es[i].tags_view(), "pubkey"@, false, 0) == Some(user->0)
}

/// Interactions with one note.
pub struct InteractionCounts {
    pub reactions: u64,
    pub reposts: u64,
    pub zaps: u64,
    pub replies: u64,
    pub has_reacted: bool,
    pub has_reposted: bool,
    pub has_zapped: bool,
}

pub open spec fn cap(x: nat) -> u64 {
    if x > u64::MAX {
        u64::MAX
    } else {
        x as u64
    }
}

/// The counts of a note: reactions, reposts and replies that refer to it,
/// satoshis zapped to it (capped at the largest `u64`), and what the user
/// did to it.
pub open spec fn counts_spec(es: Seq<Event>, id: Seq<char>, user: Option<Seq<char>>, c: InteractionCounts) -> bool {
    let n = es.len() as int;
    &&& c.reactions == kind_count(es, KIND_REACTION, id, n)
    &&& c.reposts == kind_count(es, KIND_REPOST, id, n)
    &&& c.replies == kind_count(es, KIND_TEXT_NOTE, id, n)
    &&& c.zaps == cap(zap_total(es, id, n))
    &&& c.has_reacted == user_did(es, KIND_REACTION, id, user)
    &&& c.has_reposted == user_did(es, KIND_REPOST, id, user)
    &&& c.has_zapped == user_zapped(es, id, user)
}

/// Whether the event refers to `id`.
pub fn refers(e: &Event, id: &String) -> (r: bool)
    ensures
        r == refers_to(*e, id@),
{
    let ghost t = e.tags_view();
    let mut i: usize = 0;
    while i < e.tags.len()
        invariant
            t == e.tags_view(),
            i <= e.tags.len(),
            forall|k: int| 0 <= k < i ==> !(tag_has(#[trigger] t[k], "e"@) && t[k][1] == id@),
        decreases e.tags.len() - i,
    {
        assert(t[i as int] == e.tags[i as int].deep_view());
        if tag_is(&e.tags[i], "e") && e.tags[i][1] == *id {
            return true;
        }
        i += 1;
    }
    false
}

fn same_user(user: &Option<String>, pk: &String) -> (r: bool)
    ensures
        r == (user is Some && pk@ == user->0@),
{
    match user {
        Some(u) => *pk == *u,
        None => false,
    }
}

/// Counts the interactions with one note among the given events.
pub fn note_interactions(events: &Vec<Event>, id: &String, user: &Option<String>) -> (r: InteractionCounts)
    ensures
        counts_spec(events@, id@, user.deep_view(), r),
{
    let ghost es = events@;
    let ghost uv = user.deep_view();
    let mut c = InteractionCounts {
        reactions: 0,
        reposts: 0,
        zaps: 0,
        replies: 0,
        has_reacted: false,
        has_reposted: false,
        has_zapped: false,
    };
    let mut i: usize = 0;
    while i < events.len()
        invariant
            es == events@,
            uv == user.deep_view(),
            i <= events.len(),
            c.reactions == kind_count(es, KIND_REACTION, id@, i as int),
            c.reposts == kind_count(es, KIND_REPOST, id@, i as int),
            c.replies == kind_count(es, KIND_TEXT_NOTE, id@, i as int),
            c.reactions <= i && c.reposts <= i && c.replies <= i,
            c.zaps == cap(zap_total(es, id@, i as int)),
            c.has_reacted == user_did(es.take(i as int), KIND_REACTION, id@, uv),
            c.has_reposted == user_did(es.take(i as int), KIND_REPOST, id@, uv),
            c.has_zapped == user_zapped(es.take(i as int), id@, uv),
        decreases events.len() - i,
    {
        let e = &events[i];
        let ghost pre = es.take(i as int);
        let ghost post = es.take(i + 1);
        assert(post =~= pre.push(es[i as int]));
        if refers(e, id) {
            let mine = same_user(user, &e.pubkey);
            if e.kind == KIND_REACTION {
                c.reactions = c.reactions + 1;
                if mine {
                    c.has_reacted = true;
                    assert(post[i as int] == es[i as int]);
                }
            } else if e.kind == KIND_REPOST {
                c.reposts = c.reposts + 1;
                if mine {
                    c.has_reposted = true;
                    assert(post[i as int] == es[i as int]);
                }
            } else if e.kind == KIND_TEXT_NOTE {
                c.replies = c.replies + 1;
            } else if e.kind == KIND_ZAP_RECEIPT {
                let sats = extract_zap_amount_sats(e);
                c.zaps = c.zaps.saturating_add(sats);
                let sender = extract_zap_sender(e);
                let zapped = match (&sender, user) {
                    (Some(s), Some(u)) => *s == *u,
                    _ => false,
                };
                if zapped {
                    c.has_zapped = true;
                    assert(post[i as int] == es[i as int]);
                }
            }
        }
        proof {
            assert forall|k: int| 0 <= k < pre.len() implies #[trigger] post[k] == pre[k] by {}
        }
        i += 1;
    }
    assert(es.take(i as int) =~= es);
    c
}

/// Interactions with each note, in the order of `note_ids`.
pub fn batch_interactions(events: &Vec<Event>, note_ids: &Vec<String>, user: &Option<String>) -> (r: Vec<InteractionCounts>)
    ensures
        r.len() == note_ids.len(),
        forall|k: int| 0 <= k < r.len() ==> counts_spec(events@, (#[trigger] note_ids@[k])@, user.deep_view(), r@[k]),
{
    let mut out: Vec<InteractionCounts> = Vec::new();
    let mut k: usize = 0;
    while k < note_ids.len()
        invariant
            k <= note_ids.len(),
            out.len() == k,
            forall|j: int| 0 <= j < k ==> counts_spec(events@, (#[trigger] note_ids@[j])@, user.deep_view(), out@[j]),
        decreases note_ids.len() - k,
    {
        out.push(note_interactions(events, &note_ids[k], user));
        k += 1;
    }
    out
}

} // verus!

verus! {

// ---------------------------------------------------------------- live counts

/// The least time, in milliseconds, between two emissions of live counts.
pub const EMIT_INTERVAL_MS: u64 = 250;

/// The event refers to one of the notes.
pub open spec fn refers_to_any(e: Event, ids: Seq<String>) -> bool {
    exists|k: int| 0 <= k < ids.len() && refers_to(e, (#[trigger] ids[k])@)
}

/// Live interaction counts for some notes, fed by a subscription: events
/// are taken once each; counts are emitted at most every
/// [`EMIT_INTERVAL_MS`], and only once some event concerned the notes; the
/// stream ends when every relay has sent its stored events.
pub struct CountStream {
    pub note_ids: Vec<String>,
    pub user: Option<String>,
    pub seen: EventCollector,
    pub has_data: bool,
    pub last_emit_ms: u64,
    pub stored_done: usize,
    pub relay_count: usize,
}

impl CountStream {
    pub open spec fn wf(&self) -> bool {
        self.seen.wf()
    }

    /// A stream over `relay_count` relays, started at `now_ms`.
    pub fn new(note_ids: Vec<String>, user: Option<String>, relay_count: usize, now_ms: u64) -> (r: CountStream)
        ensures
            r.wf(),
            r.note_ids == note_ids,
            r.user == user,
            r.seen.events@.len() == 0,
            !r.has_data,
            r.last_emit_ms == now_ms,
            r.stored_done == 0,
            r.relay_count == relay_count,
    {
        CountStream {
            note_ids,
            user,
            seen: EventCollector::new(),
            has_data: false,
            last_emit_ms: now_ms,
            stored_done: 0,
            relay_count,
        }
    }

    fn counts_now(&self) -> (r: Vec<InteractionCounts>)
        ensures
            r.len() == self.note_ids.len(),
            forall|k: int|
                0 <= k < r.len() ==> counts_spec(self.seen.events@, (#[trigger] self.note_ids@[k])@, self.user.deep_view(), r@[k]),
    {
        batch_interactions(&self.seen.events, &self.note_ids, &self.user)
    }

    /// Takes an event of the subscription at `now_ms`; returns the counts of
    /// every note when an emission is due.
    pub fn on_event(&mut self, e: Event, now_ms: u64) -> (r: Option<Vec<InteractionCounts>>)
        requires
            old(self).wf(),
        ensures
            final(self).wf(),
            final(self).note_ids == old(self).note_ids,
            final(self).user == old(self).user,
            final(self).stored_done == old(self).stored_done,
            final(self).relay_count == old(self).relay_count,
            ids_of(old(self).seen.events@).contains(e.id@) ==> final(self).seen.events@ == old(self).seen.events@
                && final(self).has_data == old(self).has_data,
            !ids_of(old(self).seen.events@).contains(e.id@) ==> final(self).seen.events@ == old(self).seen.events@.push(e)
                && final(self).has_data == (old(self).has_data || refers_to_any(e, old(self).note_ids@)),
            r is Some <==> (!ids_of(old(self).seen.events@).contains(e.id@) && final(self).has_data && now_ms
                >= old(self).last_emit_ms && now_ms - old(self).last_emit_ms >= EMIT_INTERVAL_MS),
            r is Some ==> final(self).last_emit_ms == now_ms && r->0.len() == final(self).note_ids.len() && forall|k: int|
                0 <= k < r->0.len() ==> counts_spec(
                    final(self).seen.events@,
                    (#[trigger] final(self).note_ids@[k])@,
                    final(self).user.deep_view(),
                    r->0@[k],
                ),
            r is None ==> final(self).last_emit_ms == old(self).last_emit_ms,
    {
        let mut concerns = false;
        let mut k: usize = 0;
        while k < self.note_ids.len()
            invariant
                *self == *old(self),
                k <= self.note_ids.len(),
                concerns == exists|j: int| 0 <= j < k && refers_to(e, (#[trigger] self.note_ids@[j])@),
            decreases self.note_ids.len() - k,
        {
            if refers(&e, &self.note_ids[k]) {
                concerns = true;
            }
            k += 1;
        }
        if !self.seen.offer(e) {
            return None;
        }
        if concerns {
            self.has_data = true;
        }
        if self.has_data && now_ms >= self.last_emit_ms && now_ms - self.last_emit_ms >= EMIT_INTERVAL_MS {
            self.last_emit_ms = now_ms;
            Some(self.counts_now())
        } else {
            None
        }
    }

    /// A relay finished sending its stored events; returns whether all have.
    pub fn on_end_of_stored(&mut self) -> (done: bool)
        ensures
            final(self).seen == old(self).seen,
            final(self).has_data == old(self).has_data,
            final(self).note_ids == old(self).note_ids,
            final(self).user == old(self).user,
            final(self).last_emit_ms == old(self).last_emit_ms,
            final(self).relay_count == old(self).relay_count,
            final(self).stored_done == if old(self).stored_done < usize::MAX {
                old(self).stored_done + 1
            } else {
                old(self).stored_done as int
            },
            done == (final(self).stored_done >= final(self).relay_count),
    {
        if self.stored_done < usize::MAX {
            self.stored_done = self.stored_done + 1;
        }
        self.stored_done >= self.relay_count
    }

    /// The last emission when the stream ends: the counts, where any event
    /// concerned the notes.
    pub fn final_counts(&self) -> (r: Option<Vec<InteractionCounts>>)
        ensures
            r is Some <==> self.has_data,
            r is Some ==> r->0.len() == self.note_ids.len() && forall|k: int|
                0 <= k < r->0.len() ==> counts_spec(self.seen.events@, (#[trigger] self.note_ids@[k])@, self.user.deep_view(), r->0@[k]),
    {
        if self.has_data {
            Some(self.counts_now())
        } else {
            None
        }
    }
}

} // verus!
