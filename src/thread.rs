use vstd::prelude::*;

use crate::decode::{last_marked, linkage_spec, marked_root, thread_linkage};
use crate::event::TagsView;

verus! {

/// A reply of a thread as the tree builder reads it.
pub struct ThreadReply {
    pub id: String,
    pub parent_id: Option<String>,
    pub root_id: Option<String>,
    pub created_at: i64,
}

pub open spec fn id_of(r: ThreadReply) -> Seq<char> {
    r.id@
}

/// An id that is given and not empty.
pub open spec fn given(o: Option<String>) -> bool {
    o is Some && o->0@.len() > 0
}

/// An id that the thread holds: the root's, or a reply's.
pub open spec fn known_in(root_id: Seq<char>, replies: Seq<ThreadReply>, x: Seq<char>) -> bool {
    x == root_id || exists|j: int| 0 <= j < replies.len() && (#[trigger] replies[j]).id@ == x
}

/// The parent under which a reply goes: its declared parent where the thread
/// holds it, the thread root where it does not; without a declared parent,
/// its declared root where the thread holds it, else the thread root.
pub open spec fn parent_spec(root_id: Seq<char>, replies: Seq<ThreadReply>, r: ThreadReply) -> Seq<char> {
    if given(r.parent_id) {
        if known_in(root_id, replies, r.parent_id->0@) {
            r.parent_id->0@
        } else {
            root_id
        }
    } else if given(r.root_id) && known_in(root_id, replies, r.root_id->0@) {
        r.root_id->0@
    } else {
        root_id
    }
}

fn is_known(root_id: &String, replies: &Vec<ThreadReply>, x: &String) -> (r: bool)
    ensures
        r == known_in(root_id@, replies@, x@),
{
    if *x == *root_id {
        return true;
    }
    let mut j: usize = 0;
    while j < replies.len()
        invariant
            j <= replies.len(),
            x@ != root_id@,
            forall|k: int| 0 <= k < j ==> (#[trigger] replies@[k]).id@ != x@,
        decreases replies.len() - j,
    {
        if replies[j].id == *x {
            return true;
        }
        j += 1;
    }
    false
}

fn nonempty(o: &Option<String>) -> (r: bool)
    ensures
        r == given(*o),
{
    match o {
        Some(s) => s.as_str().unicode_len() > 0,
        None => false,
    }
}

/// The parent of each reply in the tree; `None` for a reply without an id.
pub fn assign_parents(root_id: &String, replies: &Vec<ThreadReply>) -> (r: Vec<Option<String>>)
    ensures
        r.len() == replies.len(),
        forall|i: int|
            0 <= i < replies.len() ==> (#[trigger] r[i]).deep_view() == (if replies[i].id@.len() == 0 {
                None
            } else {
                Some(parent_spec(root_id@, replies@, replies[i]))
            }),
{
    let mut out: Vec<Option<String>> = Vec::new();
    let mut i: usize = 0;
    while i < replies.len()
        invariant
            i <= replies.len(),
            out.len() == i,
            forall|k: int|
                0 <= k < i ==> (#[trigger] out[k]).deep_view() == (if replies[k].id@.len() == 0 {
                    None
                } else {
                    Some(parent_spec(root_id@, replies@, replies[k]))
                }),
        decreases replies.len() - i,
    {
        let r = &replies[i];
        let p: Option<String> = if r.id.as_str().unicode_len() == 0 {
            None
        } else if nonempty(&r.parent_id) {
            let declared = r.parent_id.clone().unwrap();
            if is_known(root_id, replies, &declared) {
                Some(declared)
            } else {
                Some(root_id.clone())
            }
        } else if nonempty(&r.root_id) && is_known(root_id, replies, r.root_id.as_ref().unwrap()) {
            Some(r.root_id.clone().unwrap())
        } else {
            Some(root_id.clone())
        };
        out.push(p);
        i += 1;
    }
    out
}

/// `a` comes before `b` among siblings: earlier, or as early and first in the list.
pub open spec fn sibling_before(replies: Seq<ThreadReply>, a: int, b: int) -> bool {
    replies[a].created_at < replies[b].created_at || (replies[a].created_at
        == replies[b].created_at && a < b)
}

/// The children of `parent`: every reply assigned to it, once each, ordered by
/// creation time, ties kept in list order.
pub open spec fn children_spec(
    parent: Seq<char>,
    assigned: Seq<Option<Seq<char>>>,
    replies: Seq<ThreadReply>,
    c: Seq<usize>,
) -> bool {
    &&& forall|k: int| 0 <= k < c.len() ==> (#[trigger] c[k]) < replies.len()
    &&& forall|k: int| 0 <= k < c.len() ==> assigned[#[trigger] c[k] as int] == Some(parent)
    &&& forall|i: int| 0 <= i < replies.len() && assigned[i] == Some(parent) ==> c.contains(i as usize)
    &&& forall|a: int, b: int| 0 <= a < b < c.len() ==> sibling_before(replies, #[trigger] c[a] as int, #[trigger] c[b] as int)
}

/// The positions of the children of `parent`, in the order the tree shows them.
pub fn children_of(parent: &String, assigned: &Vec<Option<String>>, replies: &Vec<ThreadReply>) -> (r: Vec<usize>)
    requires
        assigned.len() == replies.len(),
    ensures
        children_spec(parent@, assigned.deep_view(), replies@, r@),
{
    let ghost av = assigned.deep_view();
    let mut out: Vec<usize> = Vec::new();
    let mut i: usize = 0;
    while i < replies.len()
        invariant
            av == assigned.deep_view(),
            assigned.len() == replies.len(),
            i <= replies.len(),
            forall|k: int| 0 <= k < out.len() ==> (#[trigger] out[k]) < i,
            forall|k: int| 0 <= k < out.len() ==> av[#[trigger] out[k] as int] == Some(parent@),
            forall|j: int| 0 <= j < i && av[j] == Some(parent@) ==> out@.contains(j as usize),
            forall|a: int, b: int|
                0 <= a < b < out.len() ==> sibling_before(replies@, #[trigger] out[a] as int, #[trigger] out[b] as int),
        decreases replies.len() - i,
    {
        assert(av[i as int] == assigned[i as int].deep_view());
        let is_child = match &assigned[i] {
            Some(p) => *p == *parent,
            None => false,
        };
        if is_child {
            let t = replies[i].created_at;
            let mut p: usize = 0;
            while p < out.len() && replies[out[p]].created_at <= t
                invariant
                    p <= out.len(),
                    forall|k: int| 0 <= k < out.len() ==> (#[trigger] out[k]) < i,
                    i < replies.len(),
                    forall|k: int| 0 <= k < p ==> replies@[#[trigger] out[k] as int].created_at <= t,
                decreases out.len() - p,
            {
                p += 1;
            }
            let ghost old_out = out@;
            out.insert(p, i);
            assert(forall|k: int| 0 <= k < p ==> out@[k] == old_out[k]);
            assert(out@[p as int] == i);
            assert(forall|k: int| p < k < out.len() ==> out@[k] == old_out[k - 1]);
            assert forall|a: int, b: int| 0 <= a < b < out.len() implies sibling_before(
                replies@,
                #[trigger] out[a] as int,
                #[trigger] out[b] as int,
            ) by {
                if b < p {
                } else if b == p {
                } else if a < p {
                    if p < old_out.len() {
                        assert(sibling_before(replies@, old_out[a] as int, old_out[b - 1] as int)
                            || a == b - 1);
                    }
                } else if a == p {
                    assert(replies@[old_out[p as int] as int].created_at > t || p >= old_out.len());
                    if b - 1 > p {
                        assert(sibling_before(replies@, old_out[p as int] as int, old_out[b - 1] as int));
                    }
                } else {
                    assert(sibling_before(replies@, old_out[a - 1] as int, old_out[b - 1] as int));
                }
            }
            assert forall|j: int| 0 <= j <= i && av[j] == Some(parent@) implies out@.contains(j as usize) by {
                if j < i {
                    let w = choose|w: int| 0 <= w < old_out.len() && old_out[w] == j as usize;
                    if w < p {
                        assert(out@[w] == j as usize);
                    } else {
                        assert(out@[w + 1] == j as usize);
                    }
                } else {
                    assert(out@[p as int] == i);
                }
            }
        }
        i += 1;
    }
    out
}

/// A reply that declares a parent the thread does not hold goes under the root.
pub proof fn lemma_unknown_parent_falls_back_to_root(
    root_id: Seq<char>,
    replies: Seq<ThreadReply>,
    r: ThreadReply,
)
    requires
        given(r.parent_id),
        !known_in(root_id, replies, r.parent_id->0@),
    ensures
        parent_spec(root_id, replies, r) == root_id,
{
}

/// Siblings are listed in ascending order of creation time.
pub proof fn lemma_children_ascending(
    parent: Seq<char>,
    assigned: Seq<Option<Seq<char>>>,
    replies: Seq<ThreadReply>,
    c: Seq<usize>,
)
    requires
        children_spec(parent, assigned, replies, c),
    ensures
        forall|a: int, b: int|
            0 <= a < b < c.len() ==> replies[#[trigger] c[a] as int].created_at <= replies[#[trigger] c[b] as int].created_at,
{
    assert forall|a: int, b: int| 0 <= a < b < c.len() implies replies[#[trigger] c[a] as int].created_at
        <= replies[#[trigger] c[b] as int].created_at by {
        assert(sibling_before(replies, c[a] as int, c[b] as int));
    }
}

// ---------------------------------------------------------------- walking to the root

/// The most events followed on the way to a thread root.
pub const MAX_ROOT_HOPS: u32 = 15;

/// What one event on the way up tells.
pub enum RootStep {
    /// The root is known: this id.
    Done(String),
    /// Go on with this parent.
    Follow(String),
}

/// The step taken from the event `current` with the given tags: an explicit
/// non-empty `root` mark ends the walk there; else the event's parent (by the
/// thread linkage of its tags), when non-empty and other than `current`, is
/// followed; else the walk ends at `current`.
pub open spec fn root_step_spec(current: Seq<char>, tags: TagsView) -> (bool, Seq<char>) {
    let root = last_marked(tags, "root"@, tags.len() as int);
    let parent = linkage_spec(tags).1;
    if root is Some && root->0.len() > 0 {
        (true, root->0)
    } else if parent is Some && parent->0.len() > 0 && parent->0 != current {
        (false, parent->0)
    } else {
        (true, current)
    }
}

pub open spec fn step_view(s: RootStep) -> (bool, Seq<char>) {
    match s {
        RootStep::Done(x) => (true, x@),
        RootStep::Follow(x) => (false, x@),
    }
}

/// Decides the next step of the walk to a thread root from one event.
pub fn root_step(current: &String, tags: &Vec<Vec<String>>) -> (r: RootStep)
    ensures
        step_view(r) == root_step_spec(current@, tags.deep_view()),
{
    if let Some(x) = marked_root(tags) {
        if x.as_str().unicode_len() > 0 {
            return RootStep::Done(x);
        }
    }
    let link = thread_linkage(tags);
    if let Some(p) = link.parent_id {
        if p.as_str().unicode_len() > 0 && p != *current {
            return RootStep::Follow(p);
        }
    }
    RootStep::Done(current.clone())
}

fn seen(list: &Vec<String>, x: &String) -> (r: bool)
    ensures
        r == list.deep_view().contains(x@),
{
    let mut i: usize = 0;
    while i < list.len()
        invariant
            i <= list.len(),
            forall|k: int| 0 <= k < i ==> list.deep_view()[k] != x@,
        decreases list.len() - i,
    {
        if list[i] == *x {
            assert(list.deep_view()[i as int] == x@);
            return true;
        }
        i += 1;
    }
    false
}

/// What the walk to a thread root asks of its driver.
pub enum WalkAction {
    /// Find the event with this id, in the store or else from relays.
    Lookup(String),
    /// The walk is over: this is the root.
    Finish(String),
}

/// The state of a walk from a note up to its thread root.
pub struct RootWalk {
    pub current: String,
    pub visited: Vec<String>,
    pub hops: u32,
}

impl RootWalk {
    /// A walk that starts at `note_id`.
    pub fn new(note_id: String) -> (r: RootWalk)
        ensures
            r.current == note_id,
            r.visited@.len() == 0,
            r.hops == 0,
    {
        RootWalk { current: note_id, visited: Vec::new(), hops: 0 }
    }

    /// The next action: the walk ends at the current id once the hop bound is
    /// reached or the id was already visited; else the id is recorded and looked up.
    pub fn next_action(&mut self) -> (a: WalkAction)
        ensures
            if old(self).hops >= MAX_ROOT_HOPS || old(self).visited.deep_view().contains(old(self).current@) {
                &&& a matches WalkAction::Finish(x) && x@ == old(self).current@
                &&& *final(self) == *old(self)
            } else {
                &&& a matches WalkAction::Lookup(x) && x@ == old(self).current@
                &&& final(self).current == old(self).current
                &&& final(self).visited.deep_view() == old(self).visited.deep_view().push(old(self).current@)
                &&& final(self).hops == old(self).hops + 1
            },
    {
        if self.hops >= MAX_ROOT_HOPS || seen(&self.visited, &self.current) {
            return WalkAction::Finish(self.current.clone());
        }
        let ghost prev = self.visited.deep_view();
        self.visited.push(self.current.clone());
        assert(self.visited.deep_view() =~= prev.push(self.current@));
        self.hops = self.hops + 1;
        WalkAction::Lookup(self.current.clone())
    }

    /// Takes the tags of the event that was looked up (`None` where neither
    /// the store nor the relays had it) and returns the root once the walk ends.
    pub fn on_event(&mut self, tags: Option<&Vec<Vec<String>>>) -> (r: Option<String>)
        ensures
            final(self).visited == old(self).visited,
            final(self).hops == old(self).hops,
            match tags {
                None => r.deep_view() == Some(old(self).current@) && final(self).current == old(self).current,
                Some(t) => {
                    let (done, x) = root_step_spec(old(self).current@, t.deep_view());
                    if done {
                        r.deep_view() == Some(x) && final(self).current == old(self).current
                    } else {
                        r is None && final(self).current@ == x
                    }
                },
            },
    {
        match tags {
            None => Some(self.current.clone()),
            Some(t) => match root_step(&self.current, t) {
                RootStep::Done(x) => Some(x),
                RootStep::Follow(p) => {
                    self.current = p;
                    None
                },
            },
        }
    }
}

// ---------------------------------------------------------------- fetching replies

/// The most replies fetched for one thread.
pub const MAX_SYNCED_REPLIES: u32 = 500;

/// The ids among the first `n` of `ids` that `processed` lacks, each once, in
/// order, at most `cap` of them.
pub open spec fn fresh_ids(processed: Seq<Seq<char>>, ids: Seq<Seq<char>>, cap: nat, n: int) -> Seq<Seq<char>>
    decreases n,
{
    if n <= 0 || n > ids.len() {
        Seq::empty()
    } else {
        let prev = fresh_ids(processed, ids, cap, n - 1);
        if processed.contains(ids[n - 1]) || prev.contains(ids[n - 1]) || prev.len() >= cap {
            prev
        } else {
            prev.push(ids[n - 1])
        }
    }
}

/// Breadth-first fetching of the replies under a note, one round per level,
/// never counting more than [`MAX_SYNCED_REPLIES`] replies.
pub struct ReplySync {
    pub processed: Vec<String>,
    pub pending: Vec<String>,
    pub fetched: u32,
    pub depth: u32,
    pub max_depth: u32,
}

impl ReplySync {
    /// The count of fetched replies stays within the cap.
    pub open spec fn wf(&self) -> bool {
        self.fetched <= MAX_SYNCED_REPLIES
    }

    /// A sync from `note_id`, at most `max_depth` levels deep.
    pub fn new(note_id: String, max_depth: u32) -> (r: ReplySync)
        ensures
            r.wf(),
            r.processed.deep_view() == seq![note_id@],
            r.pending.deep_view() == seq![note_id@],
            r.fetched == 0,
            r.depth == 0,
            r.max_depth == max_depth,
    {
        let mut processed: Vec<String> = Vec::new();
        processed.push(note_id.clone());
        let mut pending: Vec<String> = Vec::new();
        pending.push(note_id);
        assert(processed.deep_view() =~= seq![processed[0]@]);
        assert(pending.deep_view() =~= seq![pending[0]@]);
        ReplySync { processed, pending, fetched: 0, depth: 0, max_depth }
    }

    /// Another round is due: levels remain, the frontier is not empty and
    /// fewer than [`MAX_SYNCED_REPLIES`] replies were fetched.
    pub fn wants_round(&self) -> (r: bool)
        ensures
            r == (self.depth < self.max_depth && self.pending@.len() > 0 && self.fetched < MAX_SYNCED_REPLIES),
    {
        self.depth < self.max_depth && self.pending.len() > 0 && self.fetched < MAX_SYNCED_REPLIES
    }

    /// Takes the ids of the replies that one round brought: those not seen
    /// before, up to the room left under the cap, become the next frontier
    /// and are counted.
    pub fn absorb(&mut self, ids: &Vec<String>)
        requires
            old(self).wf(),
            old(self).depth < old(self).max_depth,
        ensures
            final(self).wf(),
            final(self).pending.deep_view() == fresh_ids(
                old(self).processed.deep_view(),
                ids.deep_view(),
                (MAX_SYNCED_REPLIES - old(self).fetched) as nat,
                ids.len() as int,
            ),
            final(self).processed.deep_view() == old(self).processed.deep_view() + final(self).pending.deep_view(),
            final(self).fetched == old(self).fetched + final(self).pending.deep_view().len(),
            final(self).fetched <= MAX_SYNCED_REPLIES,
            final(self).depth == old(self).depth + 1,
            final(self).max_depth == old(self).max_depth,
    {
        let ghost before = self.processed.deep_view();
        let ghost iv = ids.deep_view();
        let ghost f0 = self.fetched;
        let room: u32 = MAX_SYNCED_REPLIES - self.fetched;
        let mut fresh: Vec<String> = Vec::new();
        let mut i: usize = 0;
        while i < ids.len()
            invariant
                iv == ids.deep_view(),
                i <= ids.len(),
                room == MAX_SYNCED_REPLIES - f0,
                f0 <= MAX_SYNCED_REPLIES,
                fresh.deep_view() == fresh_ids(before, iv, room as nat, i as int),
                fresh.len() <= room,
                self.processed.deep_view() == before + fresh.deep_view(),
                self.fetched == f0 + fresh.deep_view().len(),
                self.depth == old(self).depth,
                self.max_depth == old(self).max_depth,
                self.depth < self.max_depth,
            decreases ids.len() - i,
        {
            let id = &ids[i];
            assert(iv[i as int] == id@);
            let known = seen(&self.processed, id);
            if !known && fresh.len() < room as usize {
                assert(!before.contains(id@) && !fresh.deep_view().contains(id@)) by {
                    if before.contains(id@) {
                        let w = choose|w: int| 0 <= w < before.len() && before[w] == id@;
                        assert(self.processed.deep_view()[w] == id@);
                    }
                    if fresh.deep_view().contains(id@) {
                        let w = choose|w: int| 0 <= w < fresh.deep_view().len() && fresh.deep_view()[w] == id@;
                        assert(self.processed.deep_view()[before.len() + w] == id@);
                    }
                }
                let ghost pf = fresh.deep_view();
                let ghost pp = self.processed.deep_view();
                fresh.push(id.clone());
                self.processed.push(id.clone());
                assert(fresh.deep_view() =~= pf.push(id@));
                assert(self.processed.deep_view() =~= pp.push(id@));
                assert(self.processed.deep_view() =~= before + fresh.deep_view());
                self.fetched = self.fetched + 1;
            } else if known {
                assert(before.contains(id@) || fresh.deep_view().contains(id@)) by {
                    let w = choose|w: int| 0 <= w < self.processed.deep_view().len() && self.processed.deep_view()[w] == id@;
                    if w < before.len() {
                        assert(before[w] == id@);
                    } else {
                        assert(fresh.deep_view()[w - before.len()] == id@);
                    }
                }
            }
            i += 1;
        }
        self.pending = fresh;
        self.depth = self.depth + 1;
    }
}

} // verus!
