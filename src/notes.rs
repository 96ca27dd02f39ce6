use vstd::prelude::*;

use crate::decode::{is_reply_spec, linkage_spec, thread_linkage};
use crate::event::{same_text, tag_has, tag_is, Event, TagsView, KIND_REPOST};
use crate::json::{json_rows_at, json_rows_member, json_str_at, json_string_member, json_u64_at, json_u64_member};

verus! {

/// Rows of a JSON tag list: each row an array of optional strings.
pub type RowsView = Seq<Option<Seq<Option<Seq<char>>>>>;

/// A row `["e", id, ...]` whose id is a string.
pub open spec fn row_is_e(row: Option<Seq<Option<Seq<char>>>>) -> bool {
    row is Some && row->0.len() >= 2 && row->0[0] == Some("e"@) && row->0[1] is Some
}

/// An `e` row marked `m` at its fourth element.
pub open spec fn row_marked(row: Option<Seq<Option<Seq<char>>>>, m: Seq<char>) -> bool {
    row_is_e(row) && row->0.len() >= 4 && row->0[3] == Some(m)
}

/// The id of the last `e` row marked `m` among the first `n` rows.
pub open spec fn rows_last_marked(rows: RowsView, m: Seq<char>, n: int) -> Option<Seq<char>>
    decreases n,
{
    if n <= 0 || n > rows.len() {
        None
    } else if row_marked(rows[n - 1], m) {
        rows[n - 1]->0[1]
    } else {
        rows_last_marked(rows, m, n - 1)
    }
}

/// The ids of all `e` rows among the first `n`, in order.
pub open spec fn rows_e_ids(rows: RowsView, n: int) -> Seq<Seq<char>>
    decreases n,
{
    if n <= 0 || n > rows.len() {
        Seq::empty()
    } else if row_is_e(rows[n - 1]) {
        rows_e_ids(rows, n - 1).push(rows[n - 1]->0[1]->0)
    } else {
        rows_e_ids(rows, n - 1)
    }
}

/// Root and parent of a reposted note, read from its JSON tag rows.
pub open spec fn rows_linkage(rows: RowsView) -> (Option<Seq<char>>, Option<Seq<char>>) {
    let n = rows.len() as int;
    let root = rows_last_marked(rows, "root"@, n);
    let parent = rows_last_marked(rows, "reply"@, n);
    let ids = rows_e_ids(rows, n);
    if root is None && parent is None && ids.len() > 0 {
        (Some(ids[0]), Some(ids.last()))
    } else if root is Some && parent is None {
        (root, root)
    } else {
        (root, parent)
    }
}

/// The value of the first tag named `name`, if any.
pub open spec fn first_tag_value(tags: TagsView, name: Seq<char>, i: int) -> Option<Seq<char>>
    decreases tags.len() - i,
{
    if i < 0 || i >= tags.len() {
        None
    } else if tag_has(tags[i], name) {
        Some(tags[i][1])
    } else {
        first_tag_value(tags, name, i + 1)
    }
}

/// A note as a feed shows it, before profiles and counts are joined.
pub struct FeedNote {
    pub id: String,
    pub pubkey: String,
    pub content: String,
    pub created_at: u64,
    pub is_repost: bool,
    pub reposted_by: Option<String>,
    pub repost_created_at: Option<u64>,
    pub is_reply: bool,
    pub root_id: Option<String>,
    pub parent_id: Option<String>,
}

/// The values of a [`FeedNote`].
pub struct FeedNoteView {
    pub id: Seq<char>,
    pub pubkey: Seq<char>,
    pub content: Seq<char>,
    pub created_at: u64,
    pub is_repost: bool,
    pub reposted_by: Option<Seq<char>>,
    pub repost_created_at: Option<u64>,
    pub is_reply: bool,
    pub root_id: Option<Seq<char>>,
    pub parent_id: Option<Seq<char>>,
}

impl View for FeedNote {
    type V = FeedNoteView;

    open spec fn view(&self) -> FeedNoteView {
        FeedNoteView {
            id: self.id@,
            pubkey: self.pubkey@,
            content: self.content@,
            created_at: self.created_at,
            is_repost: self.is_repost,
            reposted_by: self.reposted_by.deep_view(),
            repost_created_at: self.repost_created_at,
            is_reply: self.is_reply,
            root_id: self.root_id.deep_view(),
            parent_id: self.parent_id.deep_view(),
        }
    }
}

pub open spec fn or_else(a: Option<Seq<char>>, b: Seq<char>) -> Seq<char> {
    match a {
        Some(x) => x,
        None => b,
    }
}

/// The note that an event shows in a feed. A repost is unwrapped: its own
/// tags name the note and its author; the reposted JSON in its content, where
/// present, overrides content, author, time and thread linkage.
pub open spec fn feed_note_spec(e: Event) -> FeedNoteView {
    let tags = e.tags_view();
    let link = linkage_spec(tags);
    if e.kind != KIND_REPOST {
        FeedNoteView {
            id: e.id@,
            pubkey: e.pubkey@,
            content: e.content@,
            created_at: e.created_at,
            is_repost: false,
            reposted_by: None,
            repost_created_at: None,
            is_reply: is_reply_spec(tags),
            root_id: link.0,
            parent_id: link.1,
        }
    } else {
        let c = e.content@;
        let parsed = c.len() > 0;
        let pk0 = or_else(first_tag_value(tags, "p"@, 0), e.pubkey@);
        let rows = json_rows_at(c, "tags"@);
        let from_rows = parsed && rows is Some;
        let rl = rows_linkage(rows->0);
        FeedNoteView {
            id: or_else(first_tag_value(tags, "e"@, 0), e.id@),
            pubkey: if parsed {
                or_else(json_str_at(c, "pubkey"@), pk0)
            } else {
                pk0
            },
            content: if parsed {
                or_else(json_str_at(c, "content"@), c)
            } else {
                c
            },
            created_at: if parsed && json_u64_at(c, "created_at"@) is Some {
                json_u64_at(c, "created_at"@)->0
            } else {
                e.created_at
            },
            is_repost: true,
            reposted_by: Some(e.pubkey@),
            repost_created_at: Some(e.created_at),
            is_reply: if from_rows {
                rl.0 is Some || rl.1 is Some
            } else {
                is_reply_spec(tags)
            },
            root_id: if from_rows {
                rl.0
            } else {
                link.0
            },
            parent_id: if from_rows {
                rl.1
            } else {
                link.1
            },
        }
    }
}

fn first_value(tags: &Vec<Vec<String>>, name: &str) -> (r: Option<String>)
    ensures
        r.deep_view() == first_tag_value(tags.deep_view(), name@, 0),
{
    let ghost t = tags.deep_view();
    let mut i: usize = 0;
    while i < tags.len()
        invariant
            t == tags.deep_view(),
            i <= tags.len(),
            first_tag_value(t, name@, 0) == first_tag_value(t, name@, i as int),
        decreases tags.len() - i,
    {
        assert(t[i as int] == tags[i as int].deep_view());
        if tag_is(&tags[i], name) {
            return Some(tags[i][1].clone());
        }
        i += 1;
    }
    None
}

fn row_e(row: &Option<Vec<Option<String>>>) -> (r: Option<String>)
    ensures
        row_is_e(row.deep_view()) <==> r is Some,
        row_is_e(row.deep_view()) ==> r.deep_view() == row.deep_view()->0[1],
{
    if let Some(items) = row {
        if items.len() >= 2 {
            if let Some(name) = &items[0] {
                if same_text(name, "e") {
                    assert(items.deep_view()[0] == Some("e"@));
                    return items[1].clone();
                }
            }
        }
    }
    None
}

fn row_marker_is(row: &Option<Vec<Option<String>>>, m: &str) -> (r: bool)
    requires
        row_is_e(row.deep_view()),
    ensures
        r == row_marked(row.deep_view(), m@),
{
    if let Some(items) = row {
        if items.len() >= 4 {
            if let Some(x) = &items[3] {
                return same_text(x, m);
            }
        }
    }
    false
}

/// Root and parent from JSON tag rows, and whether either is present.
pub fn linkage_from_rows(rows: &Vec<Option<Vec<Option<String>>>>) -> (r: (Option<String>, Option<String>))
    ensures
        r.0.deep_view() == rows_linkage(rows.deep_view()).0,
        r.1.deep_view() == rows_linkage(rows.deep_view()).1,
{
    let ghost v = rows.deep_view();
    let mut root: Option<String> = None;
    let mut parent: Option<String> = None;
    let mut ids: Vec<String> = Vec::new();
    let mut i: usize = 0;
    while i < rows.len()
        invariant
            v == rows.deep_view(),
            i <= rows.len(),
            root.deep_view() == rows_last_marked(v, "root"@, i as int),
            parent.deep_view() == rows_last_marked(v, "reply"@, i as int),
            ids.deep_view() == rows_e_ids(v, i as int),
        decreases rows.len() - i,
    {
        proof {
            reveal_strlit("root");
            reveal_strlit("reply");
        }
        assert(v[i as int] == rows[i as int].deep_view());
        if let Some(id) = row_e(&rows[i]) {
            let ghost prev = ids.deep_view();
            ids.push(id.clone());
            assert(ids.deep_view() =~= prev.push(v[i as int]->0[1]->0));
            if row_marker_is(&rows[i], "root") {
                assert(v[i as int]->0[3] == Some("root"@));
                assert("root"@.len() != "reply"@.len());
                assert(!row_marked(v[i as int], "reply"@));
                root = Some(id);
            } else if row_marker_is(&rows[i], "reply") {
                parent = Some(id);
            }
        }
        i += 1;
    }
    if root.is_none() && parent.is_none() && ids.len() > 0 {
        let first = ids[0].clone();
        let last = ids[ids.len() - 1].clone();
        (Some(first), Some(last))
    } else if root.is_some() && parent.is_none() {
        let p = root.clone();
        (root, p)
    } else {
        (root, parent)
    }
}

/// Turns an event into the note a feed shows, unwrapping reposts.
pub fn feed_note(event: &Event) -> (r: FeedNote)
    ensures
        r@ == feed_note_spec(*event),
{
    let link = thread_linkage(&event.tags);
    if event.kind != KIND_REPOST {
        return FeedNote {
            id: event.id.clone(),
            pubkey: event.pubkey.clone(),
            content: event.content.clone(),
            created_at: event.created_at,
            is_repost: false,
            reposted_by: None,
            repost_created_at: None,
            is_reply: link.is_reply,
            root_id: link.root_id,
            parent_id: link.parent_id,
        };
    }
    let mut id = match first_value(&event.tags, "e") {
        Some(x) => x,
        None => event.id.clone(),
    };
    let mut pubkey = match first_value(&event.tags, "p") {
        Some(x) => x,
        None => event.pubkey.clone(),
    };
    let mut content = event.content.clone();
    let mut created_at = event.created_at;
    let mut root_id = link.root_id;
    let mut parent_id = link.parent_id;
    let mut is_reply = link.is_reply;
    if event.content.as_str().unicode_len() > 0 {
        let c = event.content.as_str();
        proof {
            reveal_strlit("content");
            reveal_strlit("pubkey");
            reveal_strlit("created_at");
            reveal_strlit("tags");
        }
        if let Some(x) = json_string_member(c, "content") {
            content = x;
        }
        if let Some(x) = json_string_member(c, "pubkey") {
            pubkey = x;
        }
        if let Some(x) = json_u64_member(c, "created_at") {
            created_at = x;
        }
        if let Some(rows) = json_rows_member(c, "tags") {
            let (r, p) = linkage_from_rows(&rows);
            is_reply = r.is_some() || p.is_some();
            root_id = r;
            parent_id = p;
        }
    }
    FeedNote {
        id,
        pubkey,
        content,
        created_at,
        is_repost: true,
        reposted_by: Some(event.pubkey.clone()),
        repost_created_at: Some(event.created_at),
        is_reply,
        root_id,
        parent_id,
    }
}

/// A feed that hides replies still shows every repost.
pub open spec fn shown_in_feed(n: FeedNoteView, filter_replies: bool) -> bool {
    !(filter_replies && n.is_reply && !n.is_repost)
}

/// Whether a feed shows the note.
pub fn keep_in_feed(n: &FeedNote, filter_replies: bool) -> (r: bool)
    ensures
        r == shown_in_feed(n@, filter_replies),
{
    !(filter_replies && n.is_reply && !n.is_repost)
}

/// The feed notes of the first `n` events, in order, those not shown left out.
pub open spec fn feed_spec(events: Seq<Event>, filter_replies: bool, n: int) -> Seq<FeedNoteView>
    decreases n,
{
    if n <= 0 || n > events.len() {
        Seq::empty()
    } else if shown_in_feed(feed_note_spec(events[n - 1]), filter_replies) {
        feed_spec(events, filter_replies, n - 1).push(feed_note_spec(events[n - 1]))
    } else {
        feed_spec(events, filter_replies, n - 1)
    }
}

/// The notes of a feed, in the order of the events, replies left out where
/// asked (reposts are always kept).
pub fn feed_notes(events: &Vec<Event>, filter_replies: bool) -> (r: Vec<FeedNote>)
    ensures
        r@.map_values(|n: FeedNote| n@) == feed_spec(events@, filter_replies, events.len() as int),
{
    let mut out: Vec<FeedNote> = Vec::new();
    let mut i: usize = 0;
    while i < events.len()
        invariant
            i <= events.len(),
            out@.map_values(|n: FeedNote| n@) == feed_spec(events@, filter_replies, i as int),
        decreases events.len() - i,
    {
        let n = feed_note(&events[i]);
        if keep_in_feed(&n, filter_replies) {
            let ghost prev = out@;
            out.push(n);
            assert(out@.map_values(|n: FeedNote| n@) =~= prev.map_values(|n: FeedNote| n@).push(n@));
        }
        i += 1;
    }
    out
}

// ---------------------------------------------------------------- merging feeds

/// What orders a note in a merged feed: its id and its time (the repost's
/// time for a repost).
pub struct NoteKey {
    pub id: String,
    pub time: i64,
}

/// The note at `i` has an id that no earlier note has.
pub open spec fn first_of_id(notes: Seq<NoteKey>, i: int) -> bool {
    notes[i].id@.len() > 0 && forall|j: int| 0 <= j < i ==> (#[trigger] notes[j]).id@ != notes[i].id@
}

/// `a` is listed before `b`: later, or as late and earlier in the input.
pub open spec fn newer_first(notes: Seq<NoteKey>, a: int, b: int) -> bool {
    notes[a].time > notes[b].time || (notes[a].time == notes[b].time && a < b)
}

/// The merged feed: every note with a non-empty id whose id was not seen
/// before, once each, newest first, ties kept in input order.
pub open spec fn merge_ok(notes: Seq<NoteKey>, r: Seq<usize>) -> bool {
    &&& forall|k: int| 0 <= k < r.len() ==> (#[trigger] r[k]) < notes.len()
    &&& forall|k: int| 0 <= k < r.len() ==> first_of_id(notes, #[trigger] r[k] as int)
    &&& forall|i: int| 0 <= i < notes.len() && first_of_id(notes, i) ==> r.contains(i as usize)
    &&& forall|a: int, b: int| 0 <= a < b < r.len() ==> newer_first(notes, #[trigger] r[a] as int, #[trigger] r[b] as int)
}

fn is_first_of_id(notes: &Vec<NoteKey>, i: usize) -> (r: bool)
    requires
        i < notes.len(),
    ensures
        r == first_of_id(notes@, i as int),
{
    if notes[i].id.as_str().unicode_len() == 0 {
        return false;
    }
    let mut j: usize = 0;
    while j < i
        invariant
            i < notes.len(),
            j <= i,
            forall|k: int| 0 <= k < j ==> (#[trigger] notes@[k]).id@ != notes@[i as int].id@,
        decreases i - j,
    {
        if notes[j].id == notes[i].id {
            return false;
        }
        j += 1;
    }
    true
}

/// The order of a merged feed, as positions in `notes` (the incoming notes
/// followed by those already shown).
pub fn merge_order(notes: &Vec<NoteKey>) -> (r: Vec<usize>)
    ensures
        merge_ok(notes@, r@),
{
    let mut out: Vec<usize> = Vec::new();
    let mut i: usize = 0;
    while i < notes.len()
        invariant
            i <= notes.len(),
            forall|k: int| 0 <= k < out.len() ==> (#[trigger] out[k]) < i,
            forall|k: int| 0 <= k < out.len() ==> first_of_id(notes@, #[trigger] out[k] as int),
            forall|j: int| 0 <= j < i && first_of_id(notes@, j) ==> out@.contains(j as usize),
            forall|a: int, b: int|
                0 <= a < b < out.len() ==> newer_first(notes@, #[trigger] out[a] as int, #[trigger] out[b] as int),
        decreases notes.len() - i,
    {
        if is_first_of_id(notes, i) {
            let t = notes[i].time;
            let mut p: usize = 0;
            while p < out.len() && notes[out[p]].time >= t
                invariant
                    p <= out.len(),
                    forall|k: int| 0 <= k < out.len() ==> (#[trigger] out[k]) < i,
                    i < notes.len(),
                    forall|k: int| 0 <= k < p ==> notes@[#[trigger] out[k] as int].time >= t,
                decreases out.len() - p,
            {
                p += 1;
            }
            let ghost old_out = out@;
            out.insert(p, i);
            assert(forall|k: int| 0 <= k < p ==> out@[k] == old_out[k]);
            assert(out@[p as int] == i);
            assert(forall|k: int| p < k < out.len() ==> out@[k] == old_out[k - 1]);
            assert forall|a: int, b: int| 0 <= a < b < out.len() implies newer_first(
                notes@,
                #[trigger] out[a] as int,
                #[trigger] out[b] as int,
            ) by {
                if b < p {
                } else if b == p {
                } else if a < p {
                    if p < old_out.len() {
                        assert(newer_first(notes@, old_out[a] as int, old_out[b - 1] as int) || a == b - 1);
                    }
                } else if a == p {
                    assert(notes@[old_out[p as int] as int].time < t || p >= old_out.len());
                    if b - 1 > p {
                        assert(newer_first(notes@, old_out[p as int] as int, old_out[b - 1] as int));
                    }
                } else {
                    assert(newer_first(notes@, old_out[a - 1] as int, old_out[b - 1] as int));
                }
            }
            assert forall|j: int| 0 <= j <= i && first_of_id(notes@, j) implies out@.contains(j as usize) by {
                if j < i {
                    let w = choose|w: int| 0 <= w < old_out.len() && old_out[w] == j as usize;
                    if w < p {
                        assert(out@[w] == j as usize);
                    } else {
                        assert(out@[w + 1] == j as usize);
                    }
                } else {
                    assert(out@[p as int] == i);
                }
            }
        }
        i += 1;
    }
    out
}

} // verus!

verus! {

// ---------------------------------------------------------------- referenced notes

/// A tag that refers to a note shown inline: a quote, or an `e` tag without a
/// marker or marked `mention`; its id is not empty.
pub open spec fn inline_ref(tag: Seq<Seq<char>>) -> bool {
    &&& tag.len() >= 2
    &&& tag[1].len() > 0
    &&& (tag[0] == "q"@ || (tag[0] == "e"@ && (tag.len() < 4 || tag[3] == "mention"@)))
}

/// Some event refers inline to `x`.
pub open spec fn referenced(es: Seq<Event>, x: Seq<char>) -> bool {
    exists|i: int, j: int|
        0 <= i < es.len() && 0 <= j < es[i].tags_view().len() && inline_ref(#[trigger] es[i].tags_view()[j])
            && es[i].tags_view()[j][1] == x
}

fn is_inline_ref(tag: &Vec<String>) -> (r: bool)
    ensures
        r == inline_ref(tag.deep_view()),
{
    if tag.len() < 2 || tag[1].as_str().unicode_len() == 0 {
        return false;
    }
    if same_text(&tag[0], "q") {
        return true;
    }
    same_text(&tag[0], "e") && (tag.len() < 4 || same_text(&tag[3], "mention"))
}

fn holds(list: &Vec<String>, x: &String) -> (r: bool)
    ensures
        r == list.deep_view().contains(x@),
{
    let mut i: usize = 0;
    while i < list.len()
        invariant
            i <= list.len(),
            forall|k: int| 0 <= k < i ==> list.deep_view()[k] != x@,
        decreases list.len() - i,
    {
        if list[i] == *x {
            assert(list.deep_view()[i as int] == x@);
            return true;
        }
        i += 1;
    }
    false
}

/// The notes that the given events show inline (quotes and mentions) and
/// that are not among `own_ids`, each once, in the order first met.
pub fn referenced_ids(events: &Vec<Event>, own_ids: &Vec<String>) -> (r: Vec<String>)
    ensures
        forall|k: int| 0 <= k < r.len() ==> referenced(events@, #[trigger] r.deep_view()[k]) && !own_ids.deep_view().contains(r.deep_view()[k]),
        forall|x: Seq<char>| referenced(events@, x) && !own_ids.deep_view().contains(x) ==> r.deep_view().contains(x),
        forall|a: int, b: int| 0 <= a < b < r.len() ==> r.deep_view()[a] != r.deep_view()[b],
{
    let ghost es = events@;
    let mut out: Vec<String> = Vec::new();
    let mut i: usize = 0;
    while i < events.len()
        invariant
            es == events@,
            i <= events.len(),
            forall|k: int| 0 <= k < out.len() ==> referenced(es, #[trigger] out.deep_view()[k]) && !own_ids.deep_view().contains(out.deep_view()[k]),
            forall|ii: int, j: int|
                0 <= ii < i && 0 <= j < es[ii].tags_view().len() && inline_ref(#[trigger] es[ii].tags_view()[j])
                    && !own_ids.deep_view().contains(es[ii].tags_view()[j][1]) ==> out.deep_view().contains(es[ii].tags_view()[j][1]),
            forall|a: int, b: int| 0 <= a < b < out.len() ==> out.deep_view()[a] != out.deep_view()[b],
        decreases events.len() - i,
    {
        let tags = &events[i].tags;
        let ghost tv = es[i as int].tags_view();
        let mut j: usize = 0;
        while j < tags.len()
            invariant
                es == events@,
                i < events.len(),
                tv == es[i as int].tags_view(),
                tv == tags.deep_view(),
                j <= tags.len(),
                forall|k: int| 0 <= k < out.len() ==> referenced(es, #[trigger] out.deep_view()[k]) && !own_ids.deep_view().contains(out.deep_view()[k]),
                forall|ii: int, jj: int|
                    0 <= ii < i && 0 <= jj < es[ii].tags_view().len() && inline_ref(#[trigger] es[ii].tags_view()[jj])
                        && !own_ids.deep_view().contains(es[ii].tags_view()[jj][1]) ==> out.deep_view().contains(es[ii].tags_view()[jj][1]),
                forall|jj: int|
                    0 <= jj < j && inline_ref(#[trigger] tv[jj]) && !own_ids.deep_view().contains(tv[jj][1]) ==> out.deep_view().contains(tv[jj][1]),
                forall|a: int, b: int| 0 <= a < b < out.len() ==> out.deep_view()[a] != out.deep_view()[b],
            decreases tags.len() - j,
        {
            assert(tv[j as int] == tags[j as int].deep_view());
            if is_inline_ref(&tags[j]) && !holds(own_ids, &tags[j][1]) && !holds(&out, &tags[j][1]) {
                let ghost prev = out.deep_view();
                out.push(tags[j][1].clone());
                assert(out.deep_view() =~= prev.push(tv[j as int][1]));
                assert(referenced(es, tv[j as int][1]));
                assert forall|ii: int, jj: int|
                    0 <= ii < i && 0 <= jj < es[ii].tags_view().len() && inline_ref(#[trigger] es[ii].tags_view()[jj])
                        && !own_ids.deep_view().contains(es[ii].tags_view()[jj][1]) implies out.deep_view().contains(es[ii].tags_view()[jj][1]) by {
                    let w = choose|w: int| 0 <= w < prev.len() && prev[w] == es[ii].tags_view()[jj][1];
                    assert(out.deep_view()[w] == prev[w]);
                }
                assert forall|jj: int|
                    0 <= jj <= j && inline_ref(#[trigger] tv[jj]) && !own_ids.deep_view().contains(tv[jj][1]) implies out.deep_view().contains(tv[jj][1]) by {
                    if jj < j {
                        let w = choose|w: int| 0 <= w < prev.len() && prev[w] == tv[jj][1];
                        assert(out.deep_view()[w] == prev[w]);
                    } else {
                        assert(out.deep_view()[prev.len() as int] == tv[jj][1]);
                    }
                }
            }
            j += 1;
        }
        i += 1;
    }
    out
}

/// The first [`MAX_MISSING_FETCH`] of the candidates that the store does
/// not hold (`saved[k]` tells whether it holds candidate `k`).
pub open spec fn to_fetch_spec(candidates: Seq<Seq<char>>, saved: Seq<bool>, n: int) -> Seq<Seq<char>>
    decreases n,
{
    if n <= 0 || n > candidates.len() {
        Seq::empty()
    } else {
        let prev = to_fetch_spec(candidates, saved, n - 1);
        if !saved[n - 1] && prev.len() < MAX_MISSING_FETCH {
            prev.push(candidates[n - 1])
        } else {
            prev
        }
    }
}

/// At most this many referenced notes are fetched at once.
pub const MAX_MISSING_FETCH: usize = 30;

/// The referenced notes to fetch: those the store lacks, at most
/// [`MAX_MISSING_FETCH`] of them.
pub fn ids_to_fetch(candidates: &Vec<String>, saved: &Vec<bool>) -> (r: Vec<String>)
    requires
        saved.len() == candidates.len(),
    ensures
        r.deep_view() == to_fetch_spec(candidates.deep_view(), saved@, candidates.len() as int),
        r.len() <= MAX_MISSING_FETCH,
{
    let ghost cv = candidates.deep_view();
    let mut out: Vec<String> = Vec::new();
    let mut i: usize = 0;
    while i < candidates.len()
        invariant
            cv == candidates.deep_view(),
            saved.len() == candidates.len(),
            i <= candidates.len(),
            out.deep_view() == to_fetch_spec(cv, saved@, i as int),
            out.len() <= MAX_MISSING_FETCH,
        decreases candidates.len() - i,
    {
        if !saved[i] && out.len() < MAX_MISSING_FETCH {
            let ghost prev = out.deep_view();
            out.push(candidates[i].clone());
            assert(out.deep_view() =~= prev.push(cv[i as int]));
        }
        i += 1;
    }
    out
}

} // verus!
