use vstd::prelude::*;

verus! {

/// The decimal digit of a value below 10.
pub open spec fn digit_char(d: int) -> char {
    "0123456789"@[d]
}

/// A natural number in decimal, without leading zeros.
pub open spec fn decimal_text(n: nat) -> Seq<char>
    decreases n,
{
    if n < 10 {
        seq![digit_char(n as int)]
    } else {
        decimal_text(n / 10).push(digit_char((n % 10) as int))
    }
}

/// An integer in decimal, with a leading `-` when negative.
pub open spec fn signed_decimal_text(n: int) -> Seq<char> {
    if n < 0 {
        seq!['-'] + decimal_text((-n) as nat)
    } else {
        decimal_text(n as nat)
    }
}

/// Relies on `<i64 as ToString>::to_string`: decimal digits, `-` first when negative.
#[verifier::external_body]
fn decimal_string(n: i64) -> (r: String)
    ensures
        r@ == signed_decimal_text(n as int),
{
    n.to_string()
}

/// Relies on nostr's `Keys::parse`, `EventBuilder::tags`,
/// `EventBuilder::sign_with_keys` and `JsonUtil::as_json`: the signed event
/// as JSON, or `None` where the secret key does not parse or signing fails.
/// Each tag's first element is its name. A signature draws fresh randomness,
/// so nothing is promised of the text.
#[verifier::external_body]
fn sign_with_key(kind: u16, content: &str, tags: &Vec<Vec<String>>, secret_key: &str) -> (r: Option<String>)
    requires
        forall|i: int| 0 <= i < tags.len() ==> (#[trigger] tags[i]).len() > 0,
{
    let keys = nostr::Keys::parse(secret_key).ok()?;
    let tags = tags.iter().map(|t| nostr::Tag::custom(nostr::TagKind::custom(t[0].clone()), t[1..].to_vec()));
    let builder = nostr::EventBuilder::new(nostr::Kind::from(kind), content).tags(tags);
    Some(nostr::JsonUtil::as_json(&builder.sign_with_keys(&keys).ok()?))
}

/// The tags among the first `n` that are not empty, in order.
pub open spec fn nonempty_tags(tags: Seq<Seq<Seq<char>>>, n: int) -> Seq<Seq<Seq<char>>>
    decreases n,
{
    if n <= 0 || n > tags.len() {
        Seq::empty()
    } else if tags[n - 1].len() > 0 {
        nonempty_tags(tags, n - 1).push(tags[n - 1])
    } else {
        nonempty_tags(tags, n - 1)
    }
}

/// The tags that go into an event: the empty ones are dropped.
pub fn event_tags(tags: &Vec<Vec<String>>) -> (r: Vec<Vec<String>>)
    ensures
        r.deep_view() == nonempty_tags(tags.deep_view(), tags.len() as int),
        forall|i: int| 0 <= i < r.len() ==> (#[trigger] r[i]).len() > 0,
{
    let ghost t = tags.deep_view();
    let mut out: Vec<Vec<String>> = Vec::new();
    let mut i: usize = 0;
    while i < tags.len()
        invariant
            t == tags.deep_view(),
            i <= tags.len(),
            out.deep_view() == nonempty_tags(t, i as int),
            forall|k: int| 0 <= k < out.len() ==> (#[trigger] out[k]).len() > 0,
        decreases tags.len() - i,
    {
        if tags[i].len() > 0 {
            let c = copy_tag(&tags[i]);
            let ghost prev = out.deep_view();
            out.push(c);
            assert(out.deep_view() =~= prev.push(t[i as int]));
        }
        i += 1;
    }
    out
}

pub(crate) fn copy_tag(tag: &Vec<String>) -> (r: Vec<String>)
    ensures
        r.deep_view() == tag.deep_view(),
        r.len() == tag.len(),
{
    let mut out: Vec<String> = Vec::new();
    let mut j: usize = 0;
    while j < tag.len()
        invariant
            j <= tag.len(),
            out.deep_view() == tag.deep_view().take(j as int),
        decreases tag.len() - j,
    {
        let ghost prev = out.deep_view();
        out.push(tag[j].clone());
        assert(out.deep_view() =~= tag.deep_view().take(j + 1)) by {
            assert(out.deep_view() =~= prev.push(tag[j as int]@));
        }
        j += 1;
    }
    assert(tag.deep_view().take(j as int) =~= tag.deep_view());
    out
}

/// Signs an event of the given kind, content and tags (empty tags dropped)
/// with a secret key; `None` where the key does not parse or signing fails.
pub fn create_signed_event(kind: u16, content: &str, tags: &Vec<Vec<String>>, private_key_hex: &str) -> (r: Option<String>) {
    let t = event_tags(tags);
    sign_with_key(kind, content, &t, private_key_hex)
}

fn text(lit: &str) -> (r: String)
    ensures
        r@ == lit@,
{
    lit.to_owned()
}

fn pair(a: &str, b: String) -> (r: Vec<String>)
    ensures
        r.deep_view() == seq![a@, b@],
{
    let mut v: Vec<String> = Vec::new();
    v.push(text(a));
    v.push(b);
    assert(v.deep_view() =~= seq![a@, v[1]@]);
    v
}

fn triple(a: &str, b: String, c: String) -> (r: Vec<String>)
    ensures
        r.deep_view() == seq![a@, b@, c@],
{
    let mut v: Vec<String> = Vec::new();
    v.push(text(a));
    v.push(b);
    v.push(c);
    assert(v.deep_view() =~= seq![a@, v[1]@, v[2]@]);
    v
}

/// The tags of a reaction: the target note (with a relay hint), its author
/// and its kind.
pub fn reaction_tags(target_event_id: String, target_author: String, relay_url: String, target_kind: u16) -> (r: Vec<Vec<String>>)
    ensures
        r.deep_view() == seq![
            seq!["e"@, target_event_id@, relay_url@],
            seq!["p"@, target_author@],
            seq!["k"@, decimal_text(target_kind as nat)],
        ],
{
    let mut v: Vec<Vec<String>> = Vec::new();
    v.push(triple("e", target_event_id, relay_url));
    v.push(pair("p", target_author));
    v.push(pair("k", decimal_string(target_kind as i64)));
    assert(v.deep_view() =~= seq![v[0].deep_view(), v[1].deep_view(), v[2].deep_view()]);
    v
}

/// The tags of a repost: the note (with a relay hint) and its author.
pub fn repost_tags(note_id: String, note_author: String, relay_url: String) -> (r: Vec<Vec<String>>)
    ensures
        r.deep_view() == seq![seq!["e"@, note_id@, relay_url@], seq!["p"@, note_author@]],
{
    let mut v: Vec<Vec<String>> = Vec::new();
    v.push(triple("e", note_id, relay_url));
    v.push(pair("p", note_author));
    assert(v.deep_view() =~= seq![v[0].deep_view(), v[1].deep_view()]);
    v
}

/// One tag per value: `[name, value]`, or `[name, value, ""]` where `blank_third`.
pub fn list_tags(name: &str, values: &Vec<String>, blank_third: bool) -> (r: Vec<Vec<String>>)
    ensures
        r.len() == values.len(),
        forall|i: int|
            0 <= i < values.len() ==> (#[trigger] r.deep_view()[i]) == if blank_third {
                seq![name@, values.deep_view()[i], Seq::<char>::empty()]
            } else {
                seq![name@, values.deep_view()[i]]
            },
{
    let mut out: Vec<Vec<String>> = Vec::new();
    let mut i: usize = 0;
    while i < values.len()
        invariant
            i <= values.len(),
            out.len() == i,
            forall|k: int|
                0 <= k < i ==> (#[trigger] out.deep_view()[k]) == if blank_third {
                    seq![name@, values.deep_view()[k], Seq::<char>::empty()]
                } else {
                    seq![name@, values.deep_view()[k]]
                },
        decreases values.len() - i,
    {
        let t = if blank_third {
            triple(name, values[i].clone(), String::new())
        } else {
            pair(name, values[i].clone())
        };
        let ghost prev = out.deep_view();
        assert(values.deep_view()[i as int] == values[i as int]@);
        out.push(t);
        assert(out.deep_view() =~= prev.push(out[i as int].deep_view()));
        i += 1;
    }
    out
}

/// The tags of a quote: the quoted note with a relay hint and, where known,
/// its author (also as a `p` tag); then the additional tags.
pub open spec fn quote_tags_spec(
    quoted_id: Seq<char>,
    quoted_pubkey: Option<Seq<char>>,
    relay_url: Seq<char>,
    additional: Seq<Seq<Seq<char>>>,
) -> Seq<Seq<Seq<char>>> {
    match quoted_pubkey {
        Some(pk) => seq![seq!["q"@, quoted_id, relay_url, pk], seq!["p"@, pk]] + additional,
        None => seq![seq!["q"@, quoted_id, relay_url]] + additional,
    }
}

/// The tags of a quote.
pub fn quote_tags(
    quoted_event_id: String,
    quoted_event_pubkey: Option<String>,
    relay_url: String,
    additional_tags: Vec<Vec<String>>,
) -> (r: Vec<Vec<String>>)
    ensures
        r.deep_view() == quote_tags_spec(
            quoted_event_id@,
            quoted_event_pubkey.deep_view(),
            relay_url@,
            additional_tags.deep_view(),
        ),
{
    let mut v: Vec<Vec<String>> = Vec::new();
    match quoted_event_pubkey {
        Some(pk) => {
            let mut q: Vec<String> = Vec::new();
            q.push(text("q"));
            q.push(quoted_event_id);
            q.push(relay_url);
            q.push(pk.clone());
            assert(q.deep_view() =~= seq!["q"@, q[1]@, q[2]@, q[3]@]);
            v.push(q);
            v.push(pair("p", pk));
        },
        None => {
            v.push(triple("q", quoted_event_id, relay_url));
        },
    }
    let ghost head = v.deep_view();
    let mut rest = additional_tags;
    let ghost extra = rest.deep_view();
    v.append(&mut rest);
    assert(v.deep_view() =~= head + extra);
    v
}

/// The tags of a media-server upload authorisation.
pub fn blossom_auth_tags(sha256_hash: String, expiration: i64) -> (r: Vec<Vec<String>>)
    ensures
        r.deep_view() == seq![
            seq!["t"@, "upload"@],
            seq!["x"@, sha256_hash@],
            seq!["expiration"@, signed_decimal_text(expiration as int)],
        ],
{
    let mut v: Vec<Vec<String>> = Vec::new();
    v.push(pair("t", text("upload")));
    v.push(pair("x", sha256_hash));
    v.push(pair("expiration", decimal_string(expiration)));
    assert(v.deep_view() =~= seq![v[0].deep_view(), v[1].deep_view(), v[2].deep_view()]);
    v
}

/// A text note.
pub fn create_note_event(content: &str, tags: &Vec<Vec<String>>, private_key_hex: &str) -> Option<String> {
    create_signed_event(1, content, tags, private_key_hex)
}

/// A reply: a text note whose tags the caller gives.
pub fn create_reply_event(content: &str, tags: &Vec<Vec<String>>, private_key_hex: &str) -> Option<String> {
    create_signed_event(1, content, tags, private_key_hex)
}

/// A reaction to a note.
pub fn create_reaction_event(
    target_event_id: String,
    target_author: String,
    content: &str,
    private_key_hex: &str,
    relay_url: String,
    target_kind: u16,
) -> Option<String> {
    let tags = reaction_tags(target_event_id, target_author, relay_url, target_kind);
    create_signed_event(7, content, &tags, private_key_hex)
}

/// A repost of a note.
pub fn create_repost_event(
    note_id: String,
    note_author: String,
    content: &str,
    private_key_hex: &str,
    relay_url: String,
) -> Option<String> {
    let tags = repost_tags(note_id, note_author, relay_url);
    create_signed_event(6, content, &tags, private_key_hex)
}

/// A deletion request for the given events.
pub fn create_deletion_event(event_ids: &Vec<String>, reason: &str, private_key_hex: &str) -> Option<String> {
    let tags = list_tags("e", event_ids, false);
    create_signed_event(5, reason, &tags, private_key_hex)
}

/// A profile (metadata) event.
pub fn create_profile_event(profile_json: &str, private_key_hex: &str) -> Option<String> {
    create_signed_event(0, profile_json, &Vec::new(), private_key_hex)
}

/// A contact list.
pub fn create_follow_event(following_pubkeys: &Vec<String>, private_key_hex: &str) -> Option<String> {
    let tags = list_tags("p", following_pubkeys, true);
    create_signed_event(3, "", &tags, private_key_hex)
}

/// A mute list.
pub fn create_mute_event(muted_pubkeys: &Vec<String>, private_key_hex: &str) -> Option<String> {
    let tags = list_tags("p", muted_pubkeys, false);
    create_signed_event(10000, "", &tags, private_key_hex)
}

/// A zap request whose tags the caller gives.
pub fn create_zap_request_event(tags: &Vec<Vec<String>>, content: &str, private_key_hex: &str) -> Option<String> {
    create_signed_event(9734, content, tags, private_key_hex)
}

/// A quote of a note.
pub fn create_quote_event(
    content: &str,
    quoted_event_id: String,
    quoted_event_pubkey: Option<String>,
    relay_url: String,
    private_key_hex: &str,
    additional_tags: Vec<Vec<String>>,
) -> Option<String> {
    let tags = quote_tags(quoted_event_id, quoted_event_pubkey, relay_url, additional_tags);
    create_signed_event(1, content, &tags, private_key_hex)
}

/// An upload authorisation for a media server.
pub fn create_blossom_auth_event(content: &str, sha256_hash: String, expiration: i64, private_key_hex: &str) -> Option<String> {
    let tags = blossom_auth_tags(sha256_hash, expiration);
    create_signed_event(24242, content, &tags, private_key_hex)
}

/// A relay list.
pub fn create_relay_list_event(relay_urls: &Vec<String>, private_key_hex: &str) -> Option<String> {
    let tags = list_tags("r", relay_urls, false);
    create_signed_event(10002, "", &tags, private_key_hex)
}

/// An HTTP authorisation answering a wallet service's challenge.
pub fn create_coinos_auth_event(challenge: String, private_key_hex: &str) -> Option<String> {
    let mut tags: Vec<Vec<String>> = Vec::new();
    tags.push(pair("challenge", challenge));
    create_signed_event(27235, "", &tags, private_key_hex)
}

} // verus!
