use vstd::prelude::*;

use crate::event::{same_text, tag_has, tag_is, Event, TagsView, KIND_REPOST};
use crate::json::{json_rows_at, json_rows_member, json_str_at, json_string_member};
use crate::text::{
    chars_of, contains_str, has_substring, is_digit, lower_of, lowercase, parse_u64, slice_chars,
    starts_with_lit,
    parse_u64_spec,
};

verus! {

// ---------------------------------------------------------------- muting

/// Some muted word occurs in the (already lower-cased) content.
pub open spec fn has_muted_word(content_lower: Seq<char>, words_lower: Seq<Seq<char>>) -> bool {
    exists|i: int| 0 <= i < words_lower.len() && has_substring(content_lower, #[trigger] words_lower[i])
}

/// A repost whose original author (its `p` tag) is muted.
pub open spec fn reposts_muted_author(kind: u16, tags: TagsView, pubkeys: Seq<Seq<char>>) -> bool {
    kind == KIND_REPOST && exists|j: int|
        0 <= j < tags.len() && tag_has(#[trigger] tags[j], "p"@) && pubkeys.contains(tags[j][1])
}

/// Whether an event is muted, given its content and the muted words already
/// lower-cased.
pub open spec fn muted_given(
    e: Event,
    pubkeys: Seq<Seq<char>>,
    content_lower: Seq<char>,
    words_lower: Seq<Seq<char>>,
) -> bool {
    pubkeys.contains(e.pubkey@) || has_muted_word(content_lower, words_lower)
        || reposts_muted_author(e.kind, e.tags_view(), pubkeys)
}

/// Whether an event is muted: its author is muted, its content holds a muted
/// word regardless of case, or it reposts a note of a muted author.
pub open spec fn is_muted_spec(e: Event, pubkeys: Seq<Seq<char>>, words: Seq<Seq<char>>) -> bool {
    muted_given(e, pubkeys, lower_of(e.content@), words.map_values(|w: Seq<char>| lower_of(w)))
}

fn list_contains(list: &Vec<String>, s: &String) -> (r: bool)
    ensures
        r == list.deep_view().contains(s@),
{
    let mut i: usize = 0;
    while i < list.len()
        invariant
            i <= list.len(),
            forall|k: int| 0 <= k < i ==> list.deep_view()[k] != s@,
        decreases list.len() - i,
    {
        if list[i] == *s {
            assert(list.deep_view()[i as int] == s@);
            return true;
        }
        i += 1;
    }
    false
}

/// The muting decision once the content and the muted words are lower-cased.
pub fn is_muted_folded(
    event: &Event,
    muted_pubkeys: &Vec<String>,
    content_lower: &str,
    words_lower: &Vec<String>,
) -> (r: bool)
    ensures
        r == muted_given(*event, muted_pubkeys.deep_view(), content_lower@, words_lower.deep_view()),
{
    if list_contains(muted_pubkeys, &event.pubkey) {
        return true;
    }
    let mut i: usize = 0;
    while i < words_lower.len()
        invariant
            i <= words_lower.len(),
            forall|k: int| 0 <= k < i ==> !has_substring(content_lower@, #[trigger] words_lower.deep_view()[k]),
        decreases words_lower.len() - i,
    {
        if contains_str(content_lower, words_lower[i].as_str()) {
            assert(has_substring(content_lower@, words_lower.deep_view()[i as int]));
            return true;
        }
        i += 1;
    }
    if event.kind == KIND_REPOST {
        let mut j: usize = 0;
        while j < event.tags.len()
            invariant
                event.kind == KIND_REPOST,
                j <= event.tags.len(),
                forall|k: int| 0 <= k < j ==> !(tag_has(#[trigger] event.tags_view()[k], "p"@)
                    && muted_pubkeys.deep_view().contains(event.tags_view()[k][1])),
            decreases event.tags.len() - j,
        {
            if tag_is(&event.tags[j], "p") && list_contains(muted_pubkeys, &event.tags[j][1]) {
                assert(event.tags_view()[j as int] == event.tags[j as int].deep_view());
                assert(tag_has(event.tags_view()[j as int], "p"@) && muted_pubkeys.deep_view().contains(
                    event.tags_view()[j as int][1],
                ));
                return true;
            }
            j += 1;
        }
    }
    false
}

/// Whether an event is muted by the given pubkeys and words.
pub fn is_event_muted(event: &Event, muted_pubkeys: &Vec<String>, muted_words: &Vec<String>) -> (r: bool)
    ensures
        r == is_muted_spec(*event, muted_pubkeys.deep_view(), muted_words.deep_view()),
{
    let content_lower = lowercase(event.content.as_str());
    let mut words_lower: Vec<String> = Vec::new();
    let mut i: usize = 0;
    while i < muted_words.len()
        invariant
            i <= muted_words.len(),
            words_lower.deep_view() =~= muted_words.deep_view().take(i as int).map_values(
                |w: Seq<char>| lower_of(w),
            ),
        decreases muted_words.len() - i,
    {
        let w = lowercase(muted_words[i].as_str());
        let ghost prev = words_lower.deep_view();
        words_lower.push(w);
        assert(words_lower.deep_view() =~= prev.push(lower_of(muted_words.deep_view()[i as int])));
        assert(muted_words.deep_view().take(i + 1).map_values(|w: Seq<char>| lower_of(w))
            =~= muted_words.deep_view().take(i as int).map_values(|w: Seq<char>| lower_of(w)).push(
            lower_of(muted_words.deep_view()[i as int]),
        ));
        i += 1;
    }
    assert(muted_words.deep_view().take(i as int) =~= muted_words.deep_view());
    is_muted_folded(event, muted_pubkeys, content_lower.as_str(), &words_lower)
}

/// With no muted pubkeys and no muted words, no event is muted.
pub proof fn lemma_nothing_muted_without_mutes(e: Event)
    ensures
        !is_muted_spec(e, Seq::empty(), Seq::empty()),
{
    let words = Seq::<Seq<char>>::empty().map_values(|w: Seq<char>| lower_of(w));
    assert(words.len() == 0);
}

} // verus!

verus! {

// ---------------------------------------------------------------- invoices

/// The index of the last `'1'` among the first `n` characters, or -1.
pub open spec fn last_one(s: Seq<char>, n: int) -> int
    decreases n,
{
    if n <= 0 {
        -1
    } else if s[n - 1] == '1' {
        n - 1
    } else {
        last_one(s, n - 1)
    }
}

/// What follows the network prefix of a human-readable part.
pub open spec fn after_network(hr: Seq<char>) -> Option<Seq<char>> {
    if "lnbcrt"@.is_prefix_of(hr) {
        Some(hr.skip(6))
    } else if "lnbc"@.is_prefix_of(hr) {
        Some(hr.skip(4))
    } else if "lntbs"@.is_prefix_of(hr) {
        Some(hr.skip(5))
    } else if "lntb"@.is_prefix_of(hr) {
        Some(hr.skip(4))
    } else {
        None
    }
}

/// The end of the run of digits that starts at `i`.
pub open spec fn digit_run_end(s: Seq<char>, i: int) -> int
    decreases s.len() - i,
{
    if 0 <= i < s.len() && is_digit(s[i]) {
        digit_run_end(s, i + 1)
    } else {
        i
    }
}

/// Millisatoshis for an amount and its multiplier.
pub open spec fn scaled_msats(amount: u64, unit: Option<char>) -> Option<nat> {
    match unit {
        None => Some(amount as nat * 100_000_000_000),
        Some(c) => if c == 'm' {
            Some(amount as nat * 100_000_000)
        } else if c == 'u' {
            Some(amount as nat * 100_000)
        } else if c == 'n' {
            Some(amount as nat * 100)
        } else if c == 'p' {
            Some(amount as nat / 10)
        } else {
            None
        },
    }
}

/// Satoshis that a lower-case payment request asks for, read from its
/// human-readable part; `None` where it states none or the value overflows.
pub open spec fn invoice_sats(lower: Seq<char>) -> Option<u64> {
    let sep = last_one(lower, lower.len() as int);
    if sep < 0 {
        None
    } else {
        match after_network(lower.take(sep)) {
            None => None,
            Some(rest) => {
                let k = digit_run_end(rest, 0);
                if k == 0 {
                    None
                } else {
                    match parse_u64_spec(rest.take(k)) {
                        None => None,
                        Some(amount) => {
                            let unit = if k < rest.len() {
                                Some(rest[k])
                            } else {
                                None
                            };
                            match scaled_msats(amount, unit) {
                                Some(m) => if m <= u64::MAX {
                                    Some((m / 1000) as u64)
                                } else {
                                    None
                                },
                                None => None,
                            }
                        },
                    }
                }
            },
        }
    }
}

/// Satoshis asked for by a payment request that is already lower-cased.
pub fn invoice_amount_sats(lower: &str) -> (r: Option<u64>)
    ensures
        r == invoice_sats(lower@),
{
    let s = chars_of(lower);
    let mut i: usize = s.len();
    while i > 0 && s[i - 1] != '1'
        invariant
            i <= s.len(),
            last_one(s@, s@.len() as int) == last_one(s@, i as int),
        decreases i,
    {
        i -= 1;
    }
    if i == 0 {
        return None;
    }
    let sep = i - 1;
    let hr = slice_chars(&s, 0, sep);
    assert(hr@ =~= s@.take(sep as int));
    let skip: usize = if starts_with_lit(&hr, "lnbcrt") {
        6
    } else if starts_with_lit(&hr, "lnbc") {
        4
    } else if starts_with_lit(&hr, "lntbs") {
        5
    } else if starts_with_lit(&hr, "lntb") {
        4
    } else {
        return None;
    };
    proof {
        reveal_strlit("lnbcrt");
        reveal_strlit("lnbc");
        reveal_strlit("lntbs");
        reveal_strlit("lntb");
    }
    let rest = slice_chars(&hr, skip, hr.len());
    assert(rest@ =~= hr@.skip(skip as int));
    let mut k: usize = 0;
    while k < rest.len() && '0' <= rest[k] && rest[k] <= '9'
        invariant
            k <= rest.len(),
            digit_run_end(rest@, 0) == digit_run_end(rest@, k as int),
        decreases rest.len() - k,
    {
        k += 1;
    }
    if k == 0 {
        return None;
    }
    let digits = slice_chars(&rest, 0, k);
    assert(digits@ =~= rest@.take(k as int));
    let amount = match parse_u64(&digits) {
        Some(a) => a,
        None => return None,
    };
    let msats: Option<u64> = if k < rest.len() {
        let c = rest[k];
        if c == 'm' {
            amount.checked_mul(100_000_000)
        } else if c == 'u' {
            amount.checked_mul(100_000)
        } else if c == 'n' {
            amount.checked_mul(100)
        } else if c == 'p' {
            Some(amount / 10)
        } else {
            return None;
        }
    } else {
        amount.checked_mul(100_000_000_000)
    };
    match msats {
        Some(m) => Some(m / 1000),
        None => None,
    }
}

/// Satoshis asked for by a payment request, in any letter case.
pub fn extract_bolt11_amount_sats(bolt11: &str) -> (r: Option<u64>)
    ensures
        r == invoice_sats(lower_of(bolt11@)),
{
    let lower = lowercase(bolt11);
    invoice_amount_sats(lower.as_str())
}

} // verus!

verus! {

// ---------------------------------------------------------------- zap receipts

/// Satoshis of the first `bolt11` tag, from `i` on, whose request states an amount.
pub open spec fn first_invoice_sats(tags: TagsView, i: int) -> Option<u64>
    decreases tags.len() - i,
{
    if i < 0 || i >= tags.len() {
        None
    } else if tag_has(tags[i], "bolt11"@) && invoice_sats(lower_of(tags[i][1])) is Some {
        invoice_sats(lower_of(tags[i][1]))
    } else {
        first_invoice_sats(tags, i + 1)
    }
}

/// The row `["amount", n]` at `j` or later, as `n`, where `n` reads as a number.
pub open spec fn amount_row(rows: Seq<Option<Seq<Option<Seq<char>>>>>, j: int) -> Option<u64>
    decreases rows.len() - j,
{
    if j < 0 || j >= rows.len() {
        None
    } else if rows[j] is Some && rows[j]->0.len() >= 2 && rows[j]->0[0] == Some("amount"@)
        && rows[j]->0[1] is Some && parse_u64_spec(rows[j]->0[1]->0) is Some {
        parse_u64_spec(rows[j]->0[1]->0)
    } else {
        amount_row(rows, j + 1)
    }
}

/// The amount row of the embedded zap request in the first `description`
/// tag, from `i` on, that has one.
pub open spec fn first_request_msats(tags: TagsView, i: int) -> Option<u64>
    decreases tags.len() - i,
{
    if i < 0 || i >= tags.len() {
        None
    } else if tag_has(tags[i], "description"@) && json_rows_at(tags[i][1], "tags"@) is Some
        && amount_row(json_rows_at(tags[i][1], "tags"@)->0, 0) is Some {
        amount_row(json_rows_at(tags[i][1], "tags"@)->0, 0)
    } else {
        first_request_msats(tags, i + 1)
    }
}

/// Satoshis of a zap receipt: from its invoice, else from the amount of the
/// embedded zap request (in millisatoshis), else zero.
pub open spec fn zap_amount_spec(tags: TagsView) -> u64 {
    match first_invoice_sats(tags, 0) {
        Some(s) => s,
        None => match first_request_msats(tags, 0) {
            Some(m) => m / 1000,
            None => 0,
        },
    }
}

/// The string member `key` of the zap request in the first `description` tag,
/// from `i` on, that has one (a non-empty one, where `nonempty`).
pub open spec fn first_request_member(tags: TagsView, key: Seq<char>, nonempty: bool, i: int) -> Option<
    Seq<char>,
>
    decreases tags.len() - i,
{
    if i < 0 || i >= tags.len() {
        None
    } else if tag_has(tags[i], "description"@) && json_str_at(tags[i][1], key) is Some && (!nonempty
        || json_str_at(tags[i][1], key)->0.len() > 0) {
        json_str_at(tags[i][1], key)
    } else {
        first_request_member(tags, key, nonempty, i + 1)
    }
}

fn rows_amount(rows: &Vec<Option<Vec<Option<String>>>>) -> (r: Option<u64>)
    ensures
        r == amount_row(rows.deep_view(), 0),
{
    let mut j: usize = 0;
    while j < rows.len()
        invariant
            j <= rows.len(),
            amount_row(rows.deep_view(), 0) == amount_row(rows.deep_view(), j as int),
        decreases rows.len() - j,
    {
        if let Some(row) = &rows[j] {
            if row.len() >= 2 {
                if let Some(name) = &row[0] {
                    if let Some(value) = &row[1] {
                        if same_text(name, "amount") {
                            let v = parse_u64(&chars_of(value.as_str()));
                            if v.is_some() {
                                return v;
                            }
                        }
                    }
                }
            }
        }
        j += 1;
    }
    None
}

/// Satoshis carried by a zap receipt.
pub fn extract_zap_amount_sats(event: &Event) -> (r: u64)
    ensures
        r == zap_amount_spec(event.tags_view()),
{
    let ghost tags = event.tags_view();
    let mut i: usize = 0;
    while i < event.tags.len()
        invariant
            tags == event.tags_view(),
            i <= event.tags.len(),
            first_invoice_sats(tags, 0) == first_invoice_sats(tags, i as int),
        decreases event.tags.len() - i,
    {
        assert(tags[i as int] == event.tags[i as int].deep_view());
        if tag_is(&event.tags[i], "bolt11") {
            let s = extract_bolt11_amount_sats(event.tags[i][1].as_str());
            if let Some(sats) = s {
                return sats;
            }
        }
        i += 1;
    }
    let mut i: usize = 0;
    while i < event.tags.len()
        invariant
            tags == event.tags_view(),
            first_invoice_sats(tags, 0) is None,
            i <= event.tags.len(),
            first_request_msats(tags, 0) == first_request_msats(tags, i as int),
        decreases event.tags.len() - i,
    {
        assert(tags[i as int] == event.tags[i as int].deep_view());
        if tag_is(&event.tags[i], "description") {
            proof {
                reveal_strlit("tags");
            }
            let rows = json_rows_member(event.tags[i][1].as_str(), "tags");
            if let Some(rows) = rows {
                if let Some(msats) = rows_amount(&rows) {
                    return msats / 1000;
                }
            }
        }
        i += 1;
    }
    0
}

fn request_member(event: &Event, key: &str, nonempty: bool) -> (r: Option<String>)
    ensures
        r.deep_view() == first_request_member(event.tags_view(), key@, nonempty, 0),
{
    let ghost tags = event.tags_view();
    let mut i: usize = 0;
    while i < event.tags.len()
        invariant
            tags == event.tags_view(),
            i <= event.tags.len(),
            first_request_member(tags, key@, nonempty, 0) == first_request_member(
                tags,
                key@,
                nonempty,
                i as int,
            ),
        decreases event.tags.len() - i,
    {
        assert(tags[i as int] == event.tags[i as int].deep_view());
        if tag_is(&event.tags[i], "description") {
            if let Some(v) = json_string_member(event.tags[i][1].as_str(), key) {
                if !nonempty || v.as_str().unicode_len() > 0 {
                    return Some(v);
                }
            }
        }
        i += 1;
    }
    None
}

/// The author of the zap request embedded in a zap receipt.
pub fn extract_zap_sender(event: &Event) -> (r: Option<String>)
    ensures
        r.deep_view() == first_request_member(event.tags_view(), "pubkey"@, false, 0),
{
    request_member(event, "pubkey", false)
}

/// The comment of the zap request embedded in a zap receipt, or empty.
pub fn extract_zap_comment(event: &Event) -> (r: String)
    ensures
        r@ == match first_request_member(event.tags_view(), "content"@, true, 0) {
            Some(c) => c,
            None => Seq::empty(),
        },
{
    match request_member(event, "content", true) {
        Some(c) => c,
        None => String::new(),
    }
}

} // verus!

verus! {

// ---------------------------------------------------------------- thread linkage

/// An `e` tag whose marker (its fourth element) is `m`.
pub open spec fn is_marked(tag: Seq<Seq<char>>, m: Seq<char>) -> bool {
    tag_has(tag, "e"@) && tag.len() >= 4 && tag[3] == m
}

/// An `e` tag that is neither marked `root`, `reply` nor `mention`.
pub open spec fn is_unmarked(tag: Seq<Seq<char>>) -> bool {
    tag_has(tag, "e"@) && !is_marked(tag, "root"@) && !is_marked(tag, "reply"@) && !is_marked(
        tag,
        "mention"@,
    )
}

/// The id of the last `e` tag marked `m` among the first `n` tags.
pub open spec fn last_marked(tags: TagsView, m: Seq<char>, n: int) -> Option<Seq<char>>
    decreases n,
{
    if n <= 0 || n > tags.len() {
        None
    } else if is_marked(tags[n - 1], m) {
        Some(tags[n - 1][1])
    } else {
        last_marked(tags, m, n - 1)
    }
}

/// The ids of the unmarked `e` tags among the first `n` tags, in order.
pub open spec fn unmarked_ids(tags: TagsView, n: int) -> Seq<Seq<char>>
    decreases n,
{
    if n <= 0 || n > tags.len() {
        Seq::empty()
    } else if is_unmarked(tags[n - 1]) {
        unmarked_ids(tags, n - 1).push(tags[n - 1][1])
    } else {
        unmarked_ids(tags, n - 1)
    }
}

/// The event quotes another one (it has a `q` tag).
pub open spec fn quotes_among(tags: TagsView, n: int) -> bool {
    exists|i: int| 0 <= i < n && i < tags.len() && tag_has(#[trigger] tags[i], "q"@)
}

pub open spec fn has_quote(tags: TagsView) -> bool {
    quotes_among(tags, tags.len() as int)
}

/// The thread root and immediate parent that the tags declare: explicit
/// markers first; else, for a note that quotes nothing, the first and the
/// last unmarked reference; a root without a parent is also the parent.
pub open spec fn linkage_spec(tags: TagsView) -> (Option<Seq<char>>, Option<Seq<char>>) {
    let n = tags.len() as int;
    let root = last_marked(tags, "root"@, n);
    let parent = last_marked(tags, "reply"@, n);
    let ids = unmarked_ids(tags, n);
    let q = has_quote(tags);
    if root is None && parent is None && ids.len() > 0 && !q {
        (Some(ids[0]), Some(ids.last()))
    } else if root is Some && parent is None && !q {
        (root, root)
    } else {
        (root, parent)
    }
}

/// A note replies when it has a root or a parent and quotes nothing.
pub open spec fn is_reply_spec(tags: TagsView) -> bool {
    (linkage_spec(tags).0 is Some || linkage_spec(tags).1 is Some) && !has_quote(tags)
}

/// The id of the last `e` tag marked `root`, if any.
pub fn marked_root(tags: &Vec<Vec<String>>) -> (r: Option<String>)
    ensures
        r.deep_view() == last_marked(tags.deep_view(), "root"@, tags.len() as int),
{
    let ghost t = tags.deep_view();
    let mut root: Option<String> = None;
    let mut i: usize = 0;
    while i < tags.len()
        invariant
            t == tags.deep_view(),
            i <= tags.len(),
            root.deep_view() == last_marked(t, "root"@, i as int),
        decreases tags.len() - i,
    {
        let tag = &tags[i];
        assert(t[i as int] == tag.deep_view());
        if tag_is(tag, "e") && tag.len() >= 4 && same_text(&tag[3], "root") {
            root = Some(tag[1].clone());
        }
        i += 1;
    }
    root
}

/// Where a note stands in a thread.
pub struct ThreadLinkage {
    pub root_id: Option<String>,
    pub parent_id: Option<String>,
    pub is_quote: bool,
    pub is_reply: bool,
}

/// Reads the thread root and parent of a note from its tags.
pub fn thread_linkage(tags: &Vec<Vec<String>>) -> (r: ThreadLinkage)
    ensures
        r.root_id.deep_view() == linkage_spec(tags.deep_view()).0,
        r.parent_id.deep_view() == linkage_spec(tags.deep_view()).1,
        r.is_quote == has_quote(tags.deep_view()),
        r.is_reply == is_reply_spec(tags.deep_view()),
{
    let ghost t = tags.deep_view();
    let mut root: Option<String> = None;
    let mut parent: Option<String> = None;
    let mut quote = false;
    let mut ids: Vec<String> = Vec::new();
    let mut i: usize = 0;
    proof {
        reveal_strlit("root");
        reveal_strlit("reply");
        reveal_strlit("mention");
    }
    while i < tags.len()
        invariant
            t == tags.deep_view(),
            i <= tags.len(),
            root.deep_view() == last_marked(t, "root"@, i as int),
            parent.deep_view() == last_marked(t, "reply"@, i as int),
            ids.deep_view() == unmarked_ids(t, i as int),
            quote == quotes_among(t, i as int),
        decreases tags.len() - i,
    {
        let tag = &tags[i];
        assert(t[i as int] == tag.deep_view());
        proof {
            reveal_strlit("root");
            reveal_strlit("reply");
            reveal_strlit("mention");
        }
        if tag_is(tag, "q") {
            quote = true;
        }
        if tag_is(tag, "e") {
            let id = tag[1].clone();
            if tag.len() >= 4 && same_text(&tag[3], "root") {
                assert(t[i as int][3] == "root"@);
                assert(!is_marked(t[i as int], "reply"@));
                root = Some(id);
            } else if tag.len() >= 4 && same_text(&tag[3], "reply") {
                parent = Some(id);
            } else if tag.len() >= 4 && same_text(&tag[3], "mention") {
            } else {
                let ghost prev = ids.deep_view();
                ids.push(id);
                assert(ids.deep_view() =~= prev.push(t[i as int][1]));
            }
        }
        i += 1;
        assert(quote == quotes_among(t, i as int)) by {
            if tag_has(t[i - 1], "q"@) {
                assert(quotes_among(t, i as int));
            }
            if quotes_among(t, i as int) && !tag_has(t[i - 1], "q"@) {
                let w = choose|w: int| 0 <= w < i && w < t.len() && tag_has(#[trigger] t[w], "q"@);
                assert(w < i - 1);
            }
        }
    }
    let (root, parent) = if root.is_none() && parent.is_none() && ids.len() > 0 && !quote {
        let first = ids[0].clone();
        let last = ids[ids.len() - 1].clone();
        (Some(first), Some(last))
    } else if root.is_some() && parent.is_none() && !quote {
        let p = root.clone();
        (root, p)
    } else {
        (root, parent)
    };
    let is_reply = (root.is_some() || parent.is_some()) && !quote;
    ThreadLinkage { root_id: root, parent_id: parent, is_quote: quote, is_reply }
}

} // verus!

verus! {

// ---------------------------------------------------------------- filtered listings

/// The events among the first `n` that are not muted, in order.
pub open spec fn unmuted_spec(es: Seq<Event>, pubkeys: Seq<Seq<char>>, words: Seq<Seq<char>>, n: int) -> Seq<Event>
    decreases n,
{
    if n <= 0 || n > es.len() {
        Seq::empty()
    } else if !is_muted_spec(es[n - 1], pubkeys, words) {
        unmuted_spec(es, pubkeys, words, n - 1).push(es[n - 1])
    } else {
        unmuted_spec(es, pubkeys, words, n - 1)
    }
}

/// The events that are not muted, in their order (copies of them).
pub fn unmuted_events(events: &Vec<Event>, muted_pubkeys: &Vec<String>, muted_words: &Vec<String>) -> (r: Vec<Event>)
    ensures
        r.len() == unmuted_spec(events@, muted_pubkeys.deep_view(), muted_words.deep_view(), events.len() as int).len(),
        forall|k: int|
            0 <= k < r.len() ==> (#[trigger] r@[k]).same_as(
                &unmuted_spec(events@, muted_pubkeys.deep_view(), muted_words.deep_view(), events.len() as int)[k],
            ),
{
    let ghost pks = muted_pubkeys.deep_view();
    let ghost ws = muted_words.deep_view();
    let mut out: Vec<Event> = Vec::new();
    let mut i: usize = 0;
    while i < events.len()
        invariant
            pks == muted_pubkeys.deep_view(),
            ws == muted_words.deep_view(),
            i <= events.len(),
            out.len() == unmuted_spec(events@, pks, ws, i as int).len(),
            forall|k: int| 0 <= k < out.len() ==> (#[trigger] out@[k]).same_as(&unmuted_spec(events@, pks, ws, i as int)[k]),
        decreases events.len() - i,
    {
        if !is_event_muted(&events[i], muted_pubkeys, muted_words) {
            let c = events[i].copy();
            out.push(c);
        }
        i += 1;
    }
    out
}

// ---------------------------------------------------------------- searching notes

/// Positions, among the first `n` (lower-cased) contents, of those holding
/// the lower-cased query, at most `limit` of them.
pub open spec fn search_spec(contents: Seq<Seq<char>>, query: Seq<char>, limit: nat, n: int) -> Seq<usize>
    decreases n,
{
    if n <= 0 || n > contents.len() {
        Seq::empty()
    } else {
        let prev = search_spec(contents, query, limit, n - 1);
        if has_substring(contents[n - 1], query) && prev.len() < limit {
            prev.push((n - 1) as usize)
        } else {
            prev
        }
    }
}

/// The search once contents and query are lower-cased.
pub fn search_folded(contents_lower: &Vec<String>, query_lower: &str, limit: usize) -> (r: Vec<usize>)
    ensures
        r@ == search_spec(contents_lower.deep_view(), query_lower@, limit as nat, contents_lower.len() as int),
{
    let ghost cv = contents_lower.deep_view();
    let mut out: Vec<usize> = Vec::new();
    let mut i: usize = 0;
    while i < contents_lower.len()
        invariant
            cv == contents_lower.deep_view(),
            i <= contents_lower.len(),
            out@ == search_spec(cv, query_lower@, limit as nat, i as int),
        decreases contents_lower.len() - i,
    {
        if out.len() < limit && contains_str(contents_lower[i].as_str(), query_lower) {
            out.push(i);
        }
        i += 1;
    }
    out
}

/// The positions of the notes whose content holds the query, regardless of
/// case, at most `limit` of them.
pub fn search_notes(events: &Vec<Event>, query: &str, limit: usize) -> (r: Vec<usize>)
    ensures
        r@ == search_spec(
            events@.map_values(|e: Event| lower_of(e.content@)),
            lower_of(query@),
            limit as nat,
            events.len() as int,
        ),
{
    let q = lowercase(query);
    let mut contents: Vec<String> = Vec::new();
    let mut i: usize = 0;
    while i < events.len()
        invariant
            i <= events.len(),
            contents.deep_view() =~= events@.take(i as int).map_values(|e: Event| lower_of(e.content@)),
        decreases events.len() - i,
    {
        let ghost prev = contents.deep_view();
        contents.push(lowercase(events[i].content.as_str()));
        assert(contents.deep_view() =~= prev.push(lower_of(events@[i as int].content@)));
        assert(events@.take(i + 1).map_values(|e: Event| lower_of(e.content@)) =~= events@.take(
            i as int,
        ).map_values(|e: Event| lower_of(e.content@)).push(lower_of(events@[i as int].content@)));
        i += 1;
    }
    assert(events@.take(i as int) =~= events@);
    search_folded(&contents, q.as_str(), limit)
}

// ---------------------------------------------------------------- purity

/// Reading a zap amount depends on the tags alone: the same event read twice
/// gives the same amount.
pub proof fn lemma_zap_amount_depends_on_tags_only(a: Event, b: Event)
    requires
        a.tags_view() == b.tags_view(),
    ensures
        zap_amount_spec(a.tags_view()) == zap_amount_spec(b.tags_view()),
{
}

/// Muting is decided by the event's author, content, kind and tags alone.
pub proof fn lemma_mute_depends_on_fields_only(a: Event, b: Event, pubkeys: Seq<Seq<char>>, words: Seq<Seq<char>>)
    requires
        a.same_as(&b),
    ensures
        is_muted_spec(a, pubkeys, words) == is_muted_spec(b, pubkeys, words),
{
}

} // verus!

verus! {

/// A note that quotes another is never a reply, whatever its `e` tags say.
pub proof fn lemma_quote_is_not_reply(tags: TagsView)
    requires
        has_quote(tags),
    ensures
        !is_reply_spec(tags),
{
}

/// A note whose only thread reference is one unmarked `e` tag has that note
/// as both root and parent.
pub proof fn lemma_single_reference_is_root_and_parent(tags: TagsView)
    requires
        tags.len() == 1,
        tags[0].len() == 2,
        tags[0][0] == "e"@,
    ensures
        linkage_spec(tags).0 == Some(tags[0][1]),
        linkage_spec(tags).1 == Some(tags[0][1]),
{
    reveal_strlit("e");
    reveal_strlit("q");
    assert(is_unmarked(tags[0]));
    assert(unmarked_ids(tags, 0) =~= Seq::<Seq<char>>::empty());
    assert(unmarked_ids(tags, 1) =~= seq![tags[0][1]]);
    assert(last_marked(tags, "root"@, 0) is None);
    assert(last_marked(tags, "root"@, 1) is None);
    assert(last_marked(tags, "reply"@, 0) is None);
    assert(!is_marked(tags[0], "reply"@));
    assert(last_marked(tags, "reply"@, 1) is None);
    assert(!has_quote(tags)) by {
        if has_quote(tags) {
            let i = choose|i: int| 0 <= i < 1 && i < tags.len() && tag_has(#[trigger] tags[i], "q"@);
            assert(tags[0][0][0] == 'e');
        }
    }
}

} // verus!
