use vstd::prelude::*;

use crate::event::{same_text, tag_has, tag_is, Event, TagsView};
use crate::pool::RelayFlags;

verus! {

/// Relays listed by at least this many authors are candidates.
pub const MIN_RELAY_FREQUENCY: u64 = 2;

/// At most this many relays are added by one discovery.
pub const MAX_OUTBOX_RELAYS: usize = 30;

/// Authors whose relay lists are asked for in one request.
pub const AUTHORS_PER_REQUEST: usize = 50;

/// One `r` entry of a relay list: its author, the URL and the mode (empty
/// when absent).
pub type Mention = (Seq<char>, Seq<char>, Seq<char>);

pub open spec fn mode_of(tag: Seq<Seq<char>>) -> Seq<char> {
    if tag.len() >= 3 {
        tag[2]
    } else {
        Seq::empty()
    }
}

/// The `r` entries among the first `n` tags of a list by `author`.
pub open spec fn tag_mentions(tags: TagsView, author: Seq<char>, n: int) -> Seq<Mention>
    decreases n,
{
    if n <= 0 || n > tags.len() {
        Seq::empty()
    } else if tag_has(tags[n - 1], "r"@) {
        tag_mentions(tags, author, n - 1).push((author, tags[n - 1][1], mode_of(tags[n - 1])))
    } else {
        tag_mentions(tags, author, n - 1)
    }
}

/// The `r` entries of the first `n` relay lists, in order.
pub open spec fn mentions(events: Seq<Event>, n: int) -> Seq<Mention>
    decreases n,
{
    if n <= 0 || n > events.len() {
        Seq::empty()
    } else {
        mentions(events, n - 1) + tag_mentions(
            events[n - 1].tags_view(),
            events[n - 1].pubkey@,
            events[n - 1].tags_view().len() as int,
        )
    }
}

/// An entry marks its relay for writing unless it says `read`, and for
/// reading unless it says `write`; an entry without a mode marks both.
pub open spec fn counts_for(m: Mention, url: Seq<char>, outbox: bool) -> bool {
    m.1 == url && if outbox {
        m.2 != "read"@
    } else {
        m.2 != "write"@
    }
}

/// How many entries mark `url` as an outbox (or, if not `outbox`, an inbox).
pub open spec fn mention_count(ms: Seq<Mention>, url: Seq<char>, outbox: bool) -> nat
    decreases ms.len(),
{
    if ms.len() == 0 {
        0
    } else {
        mention_count(ms.drop_last(), url, outbox) + if counts_for(ms.last(), url, outbox) {
            1nat
        } else {
            0nat
        }
    }
}

/// The authors that list `url`, each once, in the order first met.
pub open spec fn authors_of(ms: Seq<Mention>, url: Seq<char>) -> Seq<Seq<char>>
    decreases ms.len(),
{
    if ms.len() == 0 {
        Seq::empty()
    } else {
        let prev = authors_of(ms.drop_last(), url);
        if ms.last().1 == url && !prev.contains(ms.last().0) {
            prev.push(ms.last().0)
        } else {
            prev
        }
    }
}

/// How many distinct authors list `url`.
pub open spec fn frequency(ms: Seq<Mention>, url: Seq<char>) -> nat {
    authors_of(ms, url).len()
}

/// A relay worth adding: not known yet and listed by enough authors.
pub open spec fn eligible(ms: Seq<Mention>, existing: Seq<Seq<char>>, url: Seq<char>) -> bool {
    frequency(ms, url) >= MIN_RELAY_FREQUENCY && !existing.contains(url)
}

/// The authors counted for `url` are exactly those with an entry for it,
/// each once.
pub proof fn lemma_authors_are_distinct_listers(ms: Seq<Mention>, url: Seq<char>)
    ensures
        forall|a: Seq<char>|
            authors_of(ms, url).contains(a) <==> exists|i: int| 0 <= i < ms.len() && (#[trigger] ms[i]).1 == url && ms[i].0 == a,
        forall|x: int, y: int|
            0 <= x < y < authors_of(ms, url).len() ==> authors_of(ms, url)[x] != authors_of(ms, url)[y],
    decreases ms.len(),
{
    if ms.len() > 0 {
        let d = ms.drop_last();
        lemma_authors_are_distinct_listers(d, url);
        let prev = authors_of(d, url);
        assert forall|a: Seq<char>|
            authors_of(ms, url).contains(a) <==> exists|i: int| 0 <= i < ms.len() && (#[trigger] ms[i]).1 == url && ms[i].0 == a by {
            if authors_of(ms, url).contains(a) {
                if prev.contains(a) {
                    let i = choose|i: int| 0 <= i < d.len() && (#[trigger] d[i]).1 == url && d[i].0 == a;
                    assert(ms[i] == d[i]);
                } else {
                    let w = choose|w: int| 0 <= w < authors_of(ms, url).len() && authors_of(ms, url)[w] == a;
                    assert(w == prev.len());
                    assert(ms[ms.len() - 1].1 == url && ms[ms.len() - 1].0 == a);
                }
            }
            if exists|i: int| 0 <= i < ms.len() && (#[trigger] ms[i]).1 == url && ms[i].0 == a {
                let i = choose|i: int| 0 <= i < ms.len() && (#[trigger] ms[i]).1 == url && ms[i].0 == a;
                if i < ms.len() - 1 {
                    assert(d[i] == ms[i]);
                    assert(prev.contains(a));
                    let w = choose|w: int| 0 <= w < prev.len() && prev[w] == a;
                    assert(authors_of(ms, url)[w] == a);
                } else if prev.contains(a) {
                    let w = choose|w: int| 0 <= w < prev.len() && prev[w] == a;
                    assert(authors_of(ms, url)[w] == a);
                } else {
                    assert(authors_of(ms, url)[prev.len() as int] == a);
                }
            }
        }
    }
}

/// The running tally of one relay URL: the authors that list it and its
/// outbox and inbox marks.
pub struct RelayTally {
    pub url: String,
    pub authors: Vec<String>,
    pub outbox: u64,
    pub inbox: u64,
}

pub open spec fn tally_ok(ts: Seq<RelayTally>, ms: Seq<Mention>) -> bool {
    &&& forall|k: int|
        0 <= k < ts.len() ==> (#[trigger] ts[k]).outbox == mention_count(ms, ts[k].url@, true)
            && ts[k].inbox == mention_count(ms, ts[k].url@, false)
            && ts[k].authors.deep_view() == authors_of(ms, ts[k].url@)
    &&& forall|a: int, b: int| 0 <= a < b < ts.len() ==> (#[trigger] ts[a]).url@ != (#[trigger] ts[b]).url@
    &&& forall|u: Seq<char>|
        frequency(ms, u) > 0 ==> exists|k: int| 0 <= k < ts.len() && (#[trigger] ts[k]).url@ == u
}

proof fn lemma_count_bound(ms: Seq<Mention>, url: Seq<char>, outbox: bool)
    ensures
        mention_count(ms, url, outbox) <= ms.len(),
    decreases ms.len(),
{
    if ms.len() > 0 {
        lemma_count_bound(ms.drop_last(), url, outbox);
    }
}

/// A URL that no author lists has no marks either.
proof fn lemma_unlisted_unmarked(ms: Seq<Mention>, url: Seq<char>)
    requires
        frequency(ms, url) == 0,
    ensures
        mention_count(ms, url, true) == 0,
        mention_count(ms, url, false) == 0,
    decreases ms.len(),
{
    if ms.len() > 0 {
        let prev = authors_of(ms.drop_last(), url);
        assert(prev.len() <= authors_of(ms, url).len());
        lemma_unlisted_unmarked(ms.drop_last(), url);
        assert(ms.last().1 != url) by {
            if ms.last().1 == url {
                assert(!prev.contains(ms.last().0));
            }
        }
    }
}

fn tally_add(
    tallies: &mut Vec<RelayTally>,
    author: &String,
    url: &String,
    mode: &String,
    Ghost(ms): Ghost<Seq<Mention>>,
)
    requires
        tally_ok(old(tallies)@, ms),
        ms.len() < u64::MAX,
    ensures
        tally_ok(final(tallies)@, ms.push((author@, url@, mode@))),
{
    let ghost ms2 = ms.push((author@, url@, mode@));
    assert(ms2.drop_last() =~= ms);
    assert(ms2.last() == (author@, url@, mode@));
    proof {
        reveal_strlit("read");
        reveal_strlit("write");
    }
    let is_out = !same_text(mode, "read");
    let is_in = !same_text(mode, "write");
    assert("read"@.len() != "write"@.len());
    assert(is_out || is_in);
    let mut i: usize = 0;
    while i < tallies.len()
        invariant
            *tallies == *old(tallies),
            tally_ok(tallies@, ms),
            ms.len() < u64::MAX,
            ms2 == ms.push((author@, url@, mode@)),
            ms2.drop_last() == ms,
            ms2.last() == (author@, url@, mode@),
            is_out == (mode@ != "read"@),
            is_in == (mode@ != "write"@),
            i <= tallies.len(),
            forall|k: int| 0 <= k < i ==> (#[trigger] tallies@[k]).url@ != url@,
        decreases tallies.len() - i,
    {
        if tallies[i].url == *url {
            proof {
                lemma_count_bound(ms, url@, true);
                lemma_count_bound(ms, url@, false);
            }
            assert(tallies@[i as int].outbox == mention_count(ms, url@, true));
            assert(tallies@[i as int].inbox == mention_count(ms, url@, false));
            assert(tallies@[i as int].authors.deep_view() == authors_of(ms, url@));
            let mut authors = crate::compose::copy_tag(&tallies[i].authors);
            if !listed(&authors, author) {
                let ghost prev = authors.deep_view();
                authors.push(author.clone());
                assert(authors.deep_view() =~= prev.push(author@));
            }
            let t = RelayTally {
                url: url.clone(),
                authors,
                outbox: tallies[i].outbox + if is_out {
                    1u64
                } else {
                    0
                },
                inbox: tallies[i].inbox + if is_in {
                    1u64
                } else {
                    0
                },
            };
            let ghost before = tallies@;
            tallies.set(i, t);
            assert forall|k: int|
                0 <= k < tallies@.len() implies (#[trigger] tallies@[k]).outbox == mention_count(ms2, tallies@[k].url@, true)
                    && tallies@[k].inbox == mention_count(ms2, tallies@[k].url@, false)
                    && tallies@[k].authors.deep_view() == authors_of(ms2, tallies@[k].url@) by {
                if k != i {
                    assert(tallies@[k] == before[k]);
                    assert(before[k].url@ != url@);
                }
            }
            assert forall|u: Seq<char>| frequency(ms2, u) > 0 implies exists|k: int|
                0 <= k < tallies@.len() && (#[trigger] tallies@[k]).url@ == u by {
                if u == url@ {
                    assert(tallies@[i as int].url@ == u);
                } else {
                    assert(frequency(ms, u) > 0);
                    let k = choose|k: int| 0 <= k < before.len() && (#[trigger] before[k]).url@ == u;
                    assert(tallies@[k].url@ == u);
                }
            }
            return ;
        }
        i += 1;
    }
    let mut authors: Vec<String> = Vec::new();
    authors.push(author.clone());
    let t = RelayTally {
        url: url.clone(),
        authors,
        outbox: if is_out {
            1
        } else {
            0
        },
        inbox: if is_in {
            1
        } else {
            0
        },
    };
    let ghost before = tallies@;
    proof {
        if frequency(ms, url@) > 0 {
            let k = choose|k: int| 0 <= k < before.len() && (#[trigger] before[k]).url@ == url@;
            assert(false);
        }
        lemma_unlisted_unmarked(ms, url@);
        assert(authors_of(ms, url@) =~= Seq::<Seq<char>>::empty());
        assert(authors_of(ms2, url@) =~= seq![author@]);
    }
    tallies.push(t);
    assert(tallies@[before.len() as int].authors.deep_view() =~= seq![author@]);
    assert forall|k: int|
        0 <= k < tallies@.len() implies (#[trigger] tallies@[k]).outbox == mention_count(ms2, tallies@[k].url@, true)
            && tallies@[k].inbox == mention_count(ms2, tallies@[k].url@, false)
            && tallies@[k].authors.deep_view() == authors_of(ms2, tallies@[k].url@) by {
        if k < before.len() {
            assert(tallies@[k] == before[k]);
            assert(before[k].url@ != url@);
        }
    }
    assert forall|u: Seq<char>| frequency(ms2, u) > 0 implies exists|k: int|
        0 <= k < tallies@.len() && (#[trigger] tallies@[k]).url@ == u by {
        if u == url@ {
            assert(tallies@[before.len() as int].url@ == u);
        } else {
            assert(frequency(ms, u) > 0);
            let k = choose|k: int| 0 <= k < before.len() && (#[trigger] before[k]).url@ == u;
            assert(tallies@[k].url@ == u);
        }
    }
}

/// Tallies, per relay URL, the authors that list it and its outbox and inbox marks.
pub fn tally_relay_lists(events: &Vec<Event>) -> (r: Vec<RelayTally>)
    requires
        mentions(events@, events.len() as int).len() < u64::MAX,
    ensures
        tally_ok(r@, mentions(events@, events.len() as int)),
{
    let mut tallies: Vec<RelayTally> = Vec::new();
    let mut i: usize = 0;
    while i < events.len()
        invariant
            i <= events.len(),
            mentions(events@, events.len() as int).len() < u64::MAX,
            tally_ok(tallies@, mentions(events@, i as int)),
        decreases events.len() - i,
    {
        let tags = &events[i].tags;
        let author = &events[i].pubkey;
        let ghost tv = events@[i as int].tags_view();
        let ghost base = mentions(events@, i as int);
        proof {
            lemma_mentions_grow(events@, i as int + 1, events.len() as int);
        }
        let mut j: usize = 0;
        while j < tags.len()
            invariant
                tv == tags.deep_view(),
                author@ == events@[i as int].pubkey@,
                j <= tags.len(),
                base.len() + tag_mentions(tv, author@, tv.len() as int).len() < u64::MAX,
                tally_ok(tallies@, base + tag_mentions(tv, author@, j as int)),
            decreases tags.len() - j,
        {
            assert(tv[j as int] == tags[j as int].deep_view());
            proof {
                lemma_tag_mentions_grow(tv, author@, j as int + 1, tv.len() as int);
            }
            if tag_is(&tags[j], "r") {
                let mode: String = if tags[j].len() >= 3 {
                    tags[j][2].clone()
                } else {
                    String::new()
                };
                let ghost seen = base + tag_mentions(tv, author@, j as int);
                tally_add(&mut tallies, author, &tags[j][1], &mode, Ghost(seen));
                assert(base + tag_mentions(tv, author@, j + 1) =~= seen.push(
                    (author@, tv[j as int][1], mode_of(tv[j as int])),
                ));
            } else {
                assert(tag_mentions(tv, author@, j + 1) == tag_mentions(tv, author@, j as int));
            }
            j += 1;
        }
        assert(mentions(events@, i + 1) == base + tag_mentions(tv, author@, tv.len() as int));
        i += 1;
    }
    tallies
}

proof fn lemma_tag_mentions_grow(tags: TagsView, author: Seq<char>, a: int, b: int)
    requires
        0 <= a <= b <= tags.len(),
    ensures
        tag_mentions(tags, author, a).len() <= tag_mentions(tags, author, b).len(),
    decreases b - a,
{
    if a < b {
        lemma_tag_mentions_grow(tags, author, a, b - 1);
    }
}

proof fn lemma_mentions_grow(events: Seq<Event>, a: int, b: int)
    requires
        0 <= a <= b <= events.len(),
    ensures
        mentions(events, a).len() <= mentions(events, b).len(),
    decreases b - a,
{
    if a < b {
        lemma_mentions_grow(events, a, b - 1);
    }
}

/// A relay that discovery proposes to add, with the services it is named for.
pub struct OutboxCandidate {
    pub url: String,
    pub frequency: u64,
    pub is_outbox: bool,
    pub is_inbox: bool,
}

/// A candidate that reports its relay's tally truly.
pub open spec fn candidate_ok(c: OutboxCandidate, ms: Seq<Mention>, existing: Seq<Seq<char>>) -> bool {
    &&& eligible(ms, existing, c.url@)
    &&& c.frequency == frequency(ms, c.url@)
    &&& c.is_outbox == (mention_count(ms, c.url@, true) > 0)
    &&& c.is_inbox == (mention_count(ms, c.url@, false) > 0)
}

pub open spec fn names(r: Seq<OutboxCandidate>, u: Seq<char>) -> bool {
    exists|k: int| 0 <= k < r.len() && (#[trigger] r[k]).url@ == u
}

/// The relays chosen: eligible ones, each once, most listed first, at most
/// [`MAX_OUTBOX_RELAYS`]; an eligible relay is left out only when the list is
/// full of relays listed by at least as many authors.
pub open spec fn selection_ok(r: Seq<OutboxCandidate>, ms: Seq<Mention>, existing: Seq<Seq<char>>) -> bool {
    &&& r.len() <= MAX_OUTBOX_RELAYS
    &&& forall|k: int| 0 <= k < r.len() ==> candidate_ok(#[trigger] r[k], ms, existing)
    &&& forall|a: int, b: int| 0 <= a < b < r.len() ==> (#[trigger] r[a]).url@ != (#[trigger] r[b]).url@
    &&& forall|a: int, b: int|
        0 <= a < b < r.len() ==> (#[trigger] r[a]).frequency >= (#[trigger] r[b]).frequency
    &&& forall|u: Seq<char>|
        eligible(ms, existing, u) && !names(r, u) ==> r.len() == MAX_OUTBOX_RELAYS && frequency(ms, u)
            <= r[r.len() - 1].frequency
}

fn listed(list: &Vec<String>, x: &String) -> (r: bool)
    ensures
        r == list.deep_view().contains(x@),
{
    let mut i: usize = 0;
    while i < list.len()
        invariant
            i <= list.len(),
            forall|k: int| 0 <= k < i ==> list.deep_view()[k] != x@,
        decreases list.len() - i,
    {
        if list[i] == *x {
            assert(list.deep_view()[i as int] == x@);
            return true;
        }
        i += 1;
    }
    false
}

fn eligible_candidates(
    tallies: &Vec<RelayTally>,
    existing: &Vec<String>,
    Ghost(ms): Ghost<Seq<Mention>>,
) -> (c: Vec<OutboxCandidate>)
    requires
        tally_ok(tallies@, ms),
    ensures
        forall|k: int| 0 <= k < c.len() ==> candidate_ok(#[trigger] c@[k], ms, existing.deep_view()),
        forall|a: int, b: int| 0 <= a < b < c.len() ==> (#[trigger] c@[a]).url@ != (#[trigger] c@[b]).url@,
        forall|u: Seq<char>| eligible(ms, existing.deep_view(), u) ==> names(c@, u),
{
    let mut c: Vec<OutboxCandidate> = Vec::new();
    let mut i: usize = 0;
    while i < tallies.len()
        invariant
            tally_ok(tallies@, ms),
            i <= tallies.len(),
            forall|k: int| 0 <= k < c.len() ==> candidate_ok(#[trigger] c@[k], ms, existing.deep_view()),
            forall|k: int| 0 <= k < c.len() ==> exists|j: int| 0 <= j < i && (#[trigger] tallies@[j]).url@ == (#[trigger] c@[k]).url@,
            forall|a: int, b: int| 0 <= a < b < c.len() ==> (#[trigger] c@[a]).url@ != (#[trigger] c@[b]).url@,
            forall|j: int| 0 <= j < i && eligible(ms, existing.deep_view(), (#[trigger] tallies@[j]).url@) ==> names(c@, tallies@[j].url@),
        decreases tallies.len() - i,
    {
        let t = &tallies[i];
        assert(t.outbox == mention_count(ms, t.url@, true));
        assert(t.inbox == mention_count(ms, t.url@, false));
        assert(t.authors.deep_view() == authors_of(ms, t.url@));
        let f = t.authors.len() as u64;
        if f >= MIN_RELAY_FREQUENCY && !listed(existing, &t.url) {
            let ghost before = c@;
            assert forall|k: int| 0 <= k < before.len() implies before[k].url@ != t.url@ by {
                let j = choose|j: int| 0 <= j < i && (#[trigger] tallies@[j]).url@ == before[k].url@;
                assert(tallies@[j].url@ != tallies@[i as int].url@);
            }
            c.push(OutboxCandidate { url: t.url.clone(), frequency: f, is_outbox: t.outbox > 0, is_inbox: t.inbox > 0 });
            assert forall|k: int| 0 <= k < c.len() implies exists|j: int| 0 <= j < i + 1 && (#[trigger] tallies@[j]).url@ == (#[trigger] c@[k]).url@ by {
                if k < before.len() {
                    let j = choose|j: int| 0 <= j < i && (#[trigger] tallies@[j]).url@ == before[k].url@;
                    assert(tallies@[j].url@ == c@[k].url@);
                } else {
                    assert(tallies@[i as int].url@ == c@[k].url@);
                }
            }
            assert forall|j: int| 0 <= j < i + 1 && eligible(ms, existing.deep_view(), (#[trigger] tallies@[j]).url@) implies names(c@, tallies@[j].url@) by {
                if j < i {
                    let k = choose|k: int| 0 <= k < before.len() && (#[trigger] before[k]).url@ == tallies@[j].url@;
                    assert(c@[k].url@ == tallies@[j].url@);
                } else {
                    assert(c@[before.len() as int].url@ == tallies@[j].url@);
                }
            }
        }
        i += 1;
    }
    assert forall|u: Seq<char>| eligible(ms, existing.deep_view(), u) implies names(c@, u) by {
        let j = choose|j: int| 0 <= j < tallies@.len() && (#[trigger] tallies@[j]).url@ == u;
        assert(eligible(ms, existing.deep_view(), tallies@[j].url@));
    }
    c
}

fn copy_candidate(c: &OutboxCandidate) -> (r: OutboxCandidate)
    ensures
        r.url@ == c.url@,
        r.frequency == c.frequency,
        r.is_outbox == c.is_outbox,
        r.is_inbox == c.is_inbox,
{
    OutboxCandidate { url: c.url.clone(), frequency: c.frequency, is_outbox: c.is_outbox, is_inbox: c.is_inbox }
}

fn top_candidates(
    c: &Vec<OutboxCandidate>,
    Ghost(ms): Ghost<Seq<Mention>>,
    Ghost(existing): Ghost<Seq<Seq<char>>>,
) -> (r: Vec<OutboxCandidate>)
    requires
        forall|k: int| 0 <= k < c.len() ==> candidate_ok(#[trigger] c@[k], ms, existing),
        forall|a: int, b: int| 0 <= a < b < c.len() ==> (#[trigger] c@[a]).url@ != (#[trigger] c@[b]).url@,
        forall|u: Seq<char>| eligible(ms, existing, u) ==> names(c@, u),
    ensures
        selection_ok(r@, ms, existing),
{
    let mut taken: Vec<bool> = Vec::new();
    let mut i: usize = 0;
    while i < c.len()
        invariant
            i <= c.len(),
            taken.len() == i,
            forall|j: int| 0 <= j < i ==> !taken@[j],
        decreases c.len() - i,
    {
        taken.push(false);
        i += 1;
    }
    let mut out: Vec<OutboxCandidate> = Vec::new();
    let ghost mut src: Seq<int> = Seq::empty();
    loop
        invariant
            forall|k: int| 0 <= k < c.len() ==> candidate_ok(#[trigger] c@[k], ms, existing),
            forall|a: int, b: int| 0 <= a < b < c.len() ==> (#[trigger] c@[a]).url@ != (#[trigger] c@[b]).url@,
            taken.len() == c.len(),
            out.len() <= MAX_OUTBOX_RELAYS,
            src.len() == out.len(),
            forall|k: int| 0 <= k < out.len() ==> candidate_ok(#[trigger] out@[k], ms, existing),
            forall|k: int|
                0 <= k < out.len() ==> 0 <= #[trigger] src[k] < c.len() && taken@[src[k]] && c@[src[k]].url@
                    == out@[k].url@,
            forall|j: int| 0 <= j < c.len() && #[trigger] taken@[j] ==> names(out@, c@[j].url@),
            forall|a: int, b: int| 0 <= a < b < out.len() ==> (#[trigger] out@[a]).url@ != (#[trigger] out@[b]).url@,
            forall|a: int, b: int|
                0 <= a < b < out.len() ==> (#[trigger] out@[a]).frequency >= (#[trigger] out@[b]).frequency,
            forall|j: int, k: int|
                0 <= j < c.len() && !taken@[j] && 0 <= k < out.len() ==> (#[trigger] c@[j]).frequency <= (#[trigger] out@[k]).frequency,
        ensures
            out.len() == MAX_OUTBOX_RELAYS || forall|j: int| 0 <= j < c.len() ==> taken@[j],
        decreases count_untaken(taken@, c.len() as int),
    {
        if out.len() >= MAX_OUTBOX_RELAYS {
            break;
        }
        let mut best: Option<usize> = None;
        let mut j: usize = 0;
        while j < c.len()
            invariant
                taken.len() == c.len(),
                j <= c.len(),
                best is None ==> forall|jj: int| 0 <= jj < j ==> taken@[jj],
                best is Some ==> best->0 < j && !taken@[best->0 as int] && forall|jj: int|
                    0 <= jj < j && !taken@[jj] ==> (#[trigger] c@[jj]).frequency <= c@[best->0 as int].frequency,
            decreases c.len() - j,
        {
            if !taken[j] {
                match best {
                    None => {
                        best = Some(j);
                    },
                    Some(b) => {
                        if c[j].frequency > c[b].frequency {
                            best = Some(j);
                        }
                    },
                }
            }
            j += 1;
        }
        match best {
            None => {
                break;
            },
            Some(b) => {
                let ghost old_taken = taken@;
                let ghost old_out = out@;
                let ghost old_src = src;
                proof {
                    lemma_untaken_drop(taken@, b as int, c.len() as int);
                }
                taken.set(b, true);
                assert(taken@ == old_taken.update(b as int, true));
                out.push(copy_candidate(&c[b]));
                proof {
                    src = src.push(b as int);
                }
                assert(out@[old_out.len() as int].url@ == c@[b as int].url@);
                assert(candidate_ok(c@[b as int], ms, existing));
                assert(candidate_ok(out@[old_out.len() as int], ms, existing));
                assert forall|k: int| 0 <= k < old_out.len() implies old_out[k].url@ != c@[b as int].url@ by {
                    assert(old_taken[old_src[k]]);
                    assert(old_src[k] != b);
                    assert(c@[old_src[k]].url@ == old_out[k].url@);
                    if old_src[k] < b {
                        assert(c@[old_src[k]].url@ != c@[b as int].url@);
                    } else {
                        assert(c@[b as int].url@ != c@[old_src[k]].url@);
                    }
                }
                assert forall|k: int|
                    0 <= k < out.len() implies 0 <= #[trigger] src[k] < c.len() && taken@[src[k]] && c@[src[k]].url@
                        == out@[k].url@ by {
                    if k < old_out.len() {
                        assert(src[k] == old_src[k]);
                        assert(out@[k] == old_out[k]);
                    }
                }
                assert forall|jj: int| 0 <= jj < c.len() && #[trigger] taken@[jj] implies names(out@, c@[jj].url@) by {
                    if jj == b {
                        assert(out@[old_out.len() as int].url@ == c@[jj].url@);
                    } else {
                        assert(old_taken[jj]);
                        let k = choose|k: int| 0 <= k < old_out.len() && (#[trigger] old_out[k]).url@ == c@[jj].url@;
                        assert(out@[k].url@ == c@[jj].url@);
                    }
                }
                assert forall|jj: int, k: int|
                    0 <= jj < c.len() && !taken@[jj] && 0 <= k < out.len() implies (#[trigger] c@[jj]).frequency <= (#[trigger] out@[k]).frequency by {
                    assert(!old_taken[jj]);
                    if k == old_out.len() {
                    } else {
                        assert(out@[k] == old_out[k]);
                    }
                }
            },
        }
    }
    proof {
        assert forall|u: Seq<char>| eligible(ms, existing, u) && !names(out@, u) implies out.len() == MAX_OUTBOX_RELAYS
            && frequency(ms, u) <= out@[out.len() - 1].frequency by {
            let j = choose|j: int| 0 <= j < c.len() && (#[trigger] c@[j]).url@ == u;
            if taken@[j] {
                assert(names(out@, c@[j].url@));
            }
            assert(candidate_ok(c@[j], ms, existing));
        }
    }
    out
}

/// Taken positions among the first `n` that are still free.
pub open spec fn count_untaken(t: Seq<bool>, n: int) -> nat
    decreases n,
{
    if n <= 0 || n > t.len() {
        0
    } else {
        count_untaken(t, n - 1) + if !t[n - 1] {
            1nat
        } else {
            0nat
        }
    }
}

proof fn lemma_untaken_drop(t: Seq<bool>, b: int, n: int)
    requires
        0 <= b < n <= t.len(),
        !t[b],
    ensures
        count_untaken(t.update(b, true), n) + 1 == count_untaken(t, n),
        count_untaken(t, n) <= n,
    decreases n,
{
    if n - 1 > b {
        lemma_untaken_drop(t, b, n - 1);
    } else {
        lemma_untaken_le(t, n - 1);
        lemma_untaken_same(t, t.update(b, true), n - 1);
    }
}

proof fn lemma_untaken_le(t: Seq<bool>, n: int)
    requires
        0 <= n <= t.len(),
    ensures
        count_untaken(t, n) <= n,
    decreases n,
{
    if n > 0 {
        lemma_untaken_le(t, n - 1);
    }
}

proof fn lemma_untaken_same(t: Seq<bool>, u: Seq<bool>, n: int)
    requires
        0 <= n <= t.len(),
        n <= u.len(),
        forall|k: int| 0 <= k < n ==> t[k] == u[k],
    ensures
        count_untaken(t, n) == count_untaken(u, n),
    decreases n,
{
    if n > 0 {
        lemma_untaken_same(t, u, n - 1);
    }
}

/// Proposes relays from the relay lists of the authors: per URL, the authors
/// that list it are counted and its outbox and inbox marks noted; relays
/// already known, or listed by fewer than [`MIN_RELAY_FREQUENCY`] authors, are
/// left out; the most listed come first, at most [`MAX_OUTBOX_RELAYS`] of them.
pub fn discover_outbox_relays(relay_lists: &Vec<Event>, existing: &Vec<String>) -> (r: Vec<OutboxCandidate>)
    requires
        mentions(relay_lists@, relay_lists.len() as int).len() < u64::MAX,
    ensures
        selection_ok(r@, mentions(relay_lists@, relay_lists.len() as int), existing.deep_view()),
{
    let ghost ms = mentions(relay_lists@, relay_lists.len() as int);
    let tallies = tally_relay_lists(relay_lists);
    let c = eligible_candidates(&tallies, existing, Ghost(ms));
    top_candidates(&c, Ghost(ms), Ghost(existing.deep_view()))
}

/// A relay listed by fewer than [`MIN_RELAY_FREQUENCY`] authors is never proposed.
pub proof fn lemma_rare_relay_left_out(
    r: Seq<OutboxCandidate>,
    ms: Seq<Mention>,
    existing: Seq<Seq<char>>,
    u: Seq<char>,
)
    requires
        selection_ok(r, ms, existing),
        frequency(ms, u) < MIN_RELAY_FREQUENCY,
    ensures
        !names(r, u),
{
    if names(r, u) {
        let k = choose|k: int| 0 <= k < r.len() && (#[trigger] r[k]).url@ == u;
        assert(candidate_ok(r[k], ms, existing));
    }
}

/// An unknown relay listed by at least [`MIN_RELAY_FREQUENCY`] authors is
/// proposed unless the list is already full.
pub proof fn lemma_frequent_relay_chosen(
    r: Seq<OutboxCandidate>,
    ms: Seq<Mention>,
    existing: Seq<Seq<char>>,
    u: Seq<char>,
)
    requires
        selection_ok(r, ms, existing),
        frequency(ms, u) >= MIN_RELAY_FREQUENCY,
        !existing.contains(u),
        r.len() < MAX_OUTBOX_RELAYS,
    ensures
        names(r, u),
{
}

/// An unknown relay listed by at least [`MIN_RELAY_FREQUENCY`] authors is
/// proposed unless [`MAX_OUTBOX_RELAYS`] relays, each listed by at least as
/// many authors, were proposed instead.
pub proof fn lemma_frequent_relay_chosen_or_outranked(
    r: Seq<OutboxCandidate>,
    ms: Seq<Mention>,
    existing: Seq<Seq<char>>,
    u: Seq<char>,
)
    requires
        selection_ok(r, ms, existing),
        frequency(ms, u) >= MIN_RELAY_FREQUENCY,
        !existing.contains(u),
    ensures
        names(r, u) || (r.len() == MAX_OUTBOX_RELAYS && forall|k: int|
            0 <= k < r.len() ==> (#[trigger] r[k]).frequency >= frequency(ms, u)),
{
    if !names(r, u) {
        assert forall|k: int| 0 <= k < r.len() implies (#[trigger] r[k]).frequency >= frequency(ms, u) by {
            if k < r.len() - 1 {
                assert(r[k].frequency >= r[r.len() - 1].frequency);
            }
        }
    }
}

/// The services a proposed relay is added with: write where some author
/// marks it as an outbox, read where some marks it as an inbox (an entry
/// without a mode marks both).
pub fn candidate_flags(c: &OutboxCandidate) -> (r: RelayFlags)
    ensures
        !r.discovery,
        r.write == c.is_outbox,
        r.read == c.is_inbox,
{
    RelayFlags::with(c.is_inbox, c.is_outbox)
}

} // verus!
