use vstd::prelude::*;

use crate::event::{Event, KIND_METADATA};
use crate::notes::or_else;

verus! {

/// What nostr's metadata parser reads from a profile's JSON content: name,
/// display name, picture and NIP-05 address.
pub uninterp spec fn metadata_of(content: Seq<char>) -> Option<
    (Option<Seq<char>>, Option<Seq<char>>, Option<Seq<char>>, Option<Seq<char>>),
>;

/// The profile fields that views show.
pub struct ProfileFields {
    pub name: Option<String>,
    pub display_name: Option<String>,
    pub picture: Option<String>,
    pub nip05: Option<String>,
}

/// Relies on `nostr::Metadata::from_json`: the parsed profile, or `None`
/// where the content is not profile JSON.
#[verifier::external_body]
fn parse_metadata(content: &str) -> (r: Option<ProfileFields>)
    ensures
        match r {
            Some(f) => metadata_of(content@) == Some(
                (f.name.deep_view(), f.display_name.deep_view(), f.picture.deep_view(), f.nip05.deep_view()),
            ),
            None => metadata_of(content@) is None,
        },
{
    match <nostr::Metadata as nostr::JsonUtil>::from_json(content) {
        Ok(m) => Some(ProfileFields { name: m.name, display_name: m.display_name, picture: m.picture, nip05: m.nip05 }),
        Err(_) => None,
    }
}

/// How an author is shown beside a note: a name (the display name where the
/// profile has no name), a picture and a NIP-05 address, empty where absent.
pub struct AuthorCard {
    pub name: String,
    pub picture: String,
    pub nip05: String,
}

/// The card that a profile's content gives, if it parses.
pub open spec fn card_spec(content: Seq<char>) -> Option<(Seq<char>, Seq<char>, Seq<char>)> {
    match metadata_of(content) {
        None => None,
        Some(m) => Some(
            (or_else(m.0, or_else(m.1, Seq::empty())), or_else(m.2, Seq::empty()), or_else(m.3, Seq::empty())),
        ),
    }
}

pub open spec fn card_view(c: AuthorCard) -> (Seq<char>, Seq<char>, Seq<char>) {
    (c.name@, c.picture@, c.nip05@)
}

fn text_or_empty(o: Option<String>) -> (r: String)
    ensures
        r@ == or_else(o.deep_view(), Seq::empty()),
{
    match o {
        Some(s) => s,
        None => String::new(),
    }
}

/// The card of a profile's content.
pub fn card_of(content: &str) -> (r: Option<AuthorCard>)
    ensures
        match r {
            Some(c) => card_spec(content@) == Some(card_view(c)),
            None => card_spec(content@) is None,
        },
{
    match parse_metadata(content) {
        None => None,
        Some(f) => {
            let name = match f.name {
                Some(n) => n,
                None => text_or_empty(f.display_name),
            };
            Some(AuthorCard { name, picture: text_or_empty(f.picture), nip05: text_or_empty(f.nip05) })
        },
    }
}

/// The card from the last profile event, among the first `n`, by `pubkey`
/// whose content parses.
pub open spec fn last_card(ps: Seq<Event>, pubkey: Seq<char>, n: int) -> Option<(Seq<char>, Seq<char>, Seq<char>)>
    decreases n,
{
    if n <= 0 || n > ps.len() {
        None
    } else if ps[n - 1].kind == KIND_METADATA && ps[n - 1].pubkey@ == pubkey && card_spec(ps[n - 1].content@) is Some {
        card_spec(ps[n - 1].content@)
    } else {
        last_card(ps, pubkey, n - 1)
    }
}

/// The card of an author, from the profile events at hand; a later profile
/// event overrides an earlier one.
pub fn author_card(profiles: &Vec<Event>, pubkey: &String) -> (r: Option<AuthorCard>)
    ensures
        match r {
            Some(c) => last_card(profiles@, pubkey@, profiles.len() as int) == Some(card_view(c)),
            None => last_card(profiles@, pubkey@, profiles.len() as int) is None,
        },
{
    let mut i: usize = profiles.len();
    while i > 0
        invariant
            i <= profiles.len(),
            last_card(profiles@, pubkey@, profiles.len() as int) == last_card(profiles@, pubkey@, i as int),
        decreases i,
    {
        let p = &profiles[i - 1];
        if p.kind == KIND_METADATA && p.pubkey == *pubkey {
            let c = card_of(p.content.as_str());
            if c.is_some() {
                return c;
            }
        }
        i -= 1;
    }
    None
}

} // verus!

verus! {

/// A profile matches a search when its name, display name or NIP-05 address
/// holds the query, regardless of case (absent fields are empty).
pub open spec fn profile_matches_spec(fields: (Option<Seq<char>>, Option<Seq<char>>, Option<Seq<char>>, Option<Seq<char>>), query: Seq<char>) -> bool {
    let q = crate::text::lower_of(query);
    crate::text::has_substring(crate::text::lower_of(or_else(fields.0, Seq::empty())), q)
        || crate::text::has_substring(crate::text::lower_of(or_else(fields.1, Seq::empty())), q)
        || crate::text::has_substring(crate::text::lower_of(or_else(fields.3, Seq::empty())), q)
}

fn folded_contains(field: &Option<String>, query_lower: &str) -> (r: bool)
    ensures
        r == crate::text::has_substring(crate::text::lower_of(or_else(field.deep_view(), Seq::empty())), query_lower@),
{
    let s = match field {
        Some(x) => crate::text::lowercase(x.as_str()),
        None => {
            let empty = String::new();
            crate::text::lowercase(empty.as_str())
        },
    };
    crate::text::contains_str(s.as_str(), query_lower)
}

/// Whether a profile's content matches a search; `false` where it does not parse.
pub fn profile_matches(content: &str, query: &str) -> (r: bool)
    ensures
        r == match metadata_of(content@) {
            Some(f) => profile_matches_spec(f, query@),
            None => false,
        },
{
    let q = crate::text::lowercase(query);
    match parse_metadata(content) {
        None => false,
        Some(f) => folded_contains(&f.name, q.as_str()) || folded_contains(&f.display_name, q.as_str())
            || folded_contains(&f.nip05, q.as_str()),
    }
}

/// Whether a profile's content parses and names a picture.
pub fn profile_has_picture(content: &str) -> (r: bool)
    ensures
        r == match metadata_of(content@) {
            Some(f) => f.2 is Some,
            None => false,
        },
{
    match parse_metadata(content) {
        Some(f) => f.picture.is_some(),
        None => false,
    }
}

} // verus!
