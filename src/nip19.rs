use vstd::prelude::*;

use crate::text::{chars_of, starts_with_lit};

verus! {

/// The hex public key that an `npub` string encodes.
pub uninterp spec fn npub_hex(s: Seq<char>) -> Option<Seq<char>>;

/// The hex secret key that an `nsec` string encodes.
pub uninterp spec fn nsec_hex(s: Seq<char>) -> Option<Seq<char>>;

/// The hex event id that a `note` string encodes.
pub uninterp spec fn note_hex(s: Seq<char>) -> Option<Seq<char>>;

/// The hex public key and relays that an `nprofile` string encodes.
pub uninterp spec fn nprofile_parts(s: Seq<char>) -> Option<(Seq<char>, Seq<Seq<char>>)>;

/// The hex event id, relays and author that an `nevent` string encodes.
pub uninterp spec fn nevent_parts(s: Seq<char>) -> Option<(Seq<char>, Seq<Seq<char>>, Option<Seq<char>>)>;

/// The kind, hex public key and identifier that an `naddr` string encodes.
pub uninterp spec fn naddr_parts(s: Seq<char>) -> Option<(u16, Seq<char>, Seq<char>)>;

/// The `npub` string of a hex public key.
pub uninterp spec fn npub_text(hex: Seq<char>) -> Option<Seq<char>>;

/// The `nsec` string of a hex secret key.
pub uninterp spec fn nsec_text(hex: Seq<char>) -> Option<Seq<char>>;

/// The `note` string of a hex event id.
pub uninterp spec fn note_text(hex: Seq<char>) -> Option<Seq<char>>;

/// Relies on `nostr::PublicKey::from_bech32` and `to_hex`.
#[verifier::external_body]
fn decode_npub(s: &str) -> (r: Option<String>)
    ensures
        r.deep_view() == npub_hex(s@),
{
    Some(<nostr::PublicKey as nostr::FromBech32>::from_bech32(s).ok()?.to_hex())
}

/// Relies on `nostr::SecretKey::from_bech32` and `to_secret_hex`.
#[verifier::external_body]
fn decode_nsec(s: &str) -> (r: Option<String>)
    ensures
        r.deep_view() == nsec_hex(s@),
{
    Some(<nostr::SecretKey as nostr::FromBech32>::from_bech32(s).ok()?.to_secret_hex())
}

/// Relies on `nostr::EventId::from_bech32` and `to_hex`.
#[verifier::external_body]
fn decode_note(s: &str) -> (r: Option<String>)
    ensures
        r.deep_view() == note_hex(s@),
{
    Some(<nostr::EventId as nostr::FromBech32>::from_bech32(s).ok()?.to_hex())
}

/// Relies on `nostr::nips::nip19::Nip19Profile::from_bech32`.
#[verifier::external_body]
fn decode_nprofile(s: &str) -> (r: Option<(String, Vec<String>)>)
    ensures
        match r {
            Some(p) => nprofile_parts(s@) == Some((p.0@, p.1.deep_view())),
            None => nprofile_parts(s@) is None,
        },
{
    let p = <nostr::nips::nip19::Nip19Profile as nostr::FromBech32>::from_bech32(s).ok()?;
    Some((p.public_key.to_hex(), p.relays.iter().map(|u| u.to_string()).collect()))
}

/// Relies on `nostr::nips::nip19::Nip19Event::from_bech32`.
#[verifier::external_body]
fn decode_nevent(s: &str) -> (r: Option<(String, Vec<String>, Option<String>)>)
    ensures
        match r {
            Some(p) => nevent_parts(s@) == Some((p.0@, p.1.deep_view(), p.2.deep_view())),
            None => nevent_parts(s@) is None,
        },
{
    let e = <nostr::nips::nip19::Nip19Event as nostr::FromBech32>::from_bech32(s).ok()?;
    Some((e.event_id.to_hex(), e.relays.iter().map(|u| u.to_string()).collect(), e.author.map(|a| a.to_hex())))
}

/// Relies on `nostr::nips::nip01::Coordinate::from_bech32`.
#[verifier::external_body]
fn decode_naddr(s: &str) -> (r: Option<(u16, String, String)>)
    ensures
        match r {
            Some(p) => naddr_parts(s@) == Some((p.0, p.1@, p.2@)),
            None => naddr_parts(s@) is None,
        },
{
    let c = <nostr::nips::nip01::Coordinate as nostr::FromBech32>::from_bech32(s).ok()?;
    Some((c.kind.as_u16(), c.public_key.to_hex(), c.identifier))
}

/// Relies on `nostr::PublicKey::parse` and `ToBech32::to_bech32`.
#[verifier::external_body]
pub fn nip19_encode_pubkey(pubkey_hex: &str) -> (r: Option<String>)
    ensures
        r.deep_view() == npub_text(pubkey_hex@),
{
    nostr::ToBech32::to_bech32(&nostr::PublicKey::parse(pubkey_hex).ok()?).ok()
}

/// Relies on `nostr::SecretKey::parse` and `ToBech32::to_bech32`.
#[verifier::external_body]
pub fn nip19_encode_privkey(privkey_hex: &str) -> (r: Option<String>)
    ensures
        r.deep_view() == nsec_text(privkey_hex@),
{
    nostr::ToBech32::to_bech32(&nostr::SecretKey::parse(privkey_hex).ok()?).ok()
}

/// Relies on `nostr::EventId::parse` and `ToBech32::to_bech32`.
#[verifier::external_body]
pub fn nip19_encode_note(event_id_hex: &str) -> (r: Option<String>)
    ensures
        r.deep_view() == note_text(event_id_hex@),
{
    nostr::ToBech32::to_bech32(&nostr::EventId::parse(event_id_hex).ok()?).ok()
}

/// What a bech32 identifier names.
pub enum Nip19Entity {
    Pubkey(String),
    SecretKey(String),
    Note(String),
    Profile { pubkey: String, relays: Vec<String> },
    Event { id: String, relays: Vec<String>, author: Option<String> },
    Address { kind: u16, pubkey: String, identifier: String },
}

/// The values of a [`Nip19Entity`]: a tag (0 to 5 in declaration order),
/// the main hex or identifier text, the relays, an author, and a kind.
pub open spec fn entity_view(e: Nip19Entity) -> (int, Seq<char>, Seq<Seq<char>>, Option<Seq<char>>, u16) {
    match e {
        Nip19Entity::Pubkey(x) => (0, x@, Seq::empty(), None, 0),
        Nip19Entity::SecretKey(x) => (1, x@, Seq::empty(), None, 0),
        Nip19Entity::Note(x) => (2, x@, Seq::empty(), None, 0),
        Nip19Entity::Profile { pubkey, relays } => (3, pubkey@, relays.deep_view(), None, 0),
        Nip19Entity::Event { id, relays, author } => (4, id@, relays.deep_view(), author.deep_view(), 0),
        Nip19Entity::Address { kind, pubkey, identifier } => (5, identifier@, Seq::empty(), Some(pubkey@), kind),
    }
}

/// Why a bech32 identifier was refused.
#[derive(PartialEq, Eq, Structural, Clone, Copy, Debug)]
pub enum Nip19Error {
    /// The prefix names no supported entity.
    UnknownPrefix,
    /// The prefix is known but the rest does not decode.
    Invalid,
}

/// What a bech32 identifier decodes to, by its prefix; with `detailed`,
/// profiles and events keep their relays (and author), else they give their
/// key or id alone.
pub open spec fn decode_spec(s: Seq<char>, detailed: bool) -> Result<
    (int, Seq<char>, Seq<Seq<char>>, Option<Seq<char>>, u16),
    Nip19Error,
> {
    if "npub1"@.is_prefix_of(s) {
        match npub_hex(s) {
            Some(x) => Ok((0int, x, Seq::empty(), None, 0u16)),
            None => Err(Nip19Error::Invalid),
        }
    } else if "nsec1"@.is_prefix_of(s) {
        match nsec_hex(s) {
            Some(x) => Ok((1int, x, Seq::empty(), None, 0u16)),
            None => Err(Nip19Error::Invalid),
        }
    } else if "note1"@.is_prefix_of(s) {
        match note_hex(s) {
            Some(x) => Ok((2int, x, Seq::empty(), None, 0u16)),
            None => Err(Nip19Error::Invalid),
        }
    } else if "nprofile1"@.is_prefix_of(s) {
        match nprofile_parts(s) {
            Some(p) => if detailed {
                Ok((3int, p.0, p.1, None, 0u16))
            } else {
                Ok((0int, p.0, Seq::empty(), None, 0u16))
            },
            None => Err(Nip19Error::Invalid),
        }
    } else if "nevent1"@.is_prefix_of(s) {
        match nevent_parts(s) {
            Some(p) => if detailed {
                Ok((4int, p.0, p.1, p.2, 0u16))
            } else {
                Ok((2int, p.0, Seq::empty(), None, 0u16))
            },
            None => Err(Nip19Error::Invalid),
        }
    } else if "naddr1"@.is_prefix_of(s) {
        match naddr_parts(s) {
            Some(p) => Ok((5int, p.2, Seq::empty(), Some(p.1), p.0)),
            None => Err(Nip19Error::Invalid),
        }
    } else {
        Err(Nip19Error::UnknownPrefix)
    }
}

pub open spec fn result_view(r: Result<Nip19Entity, Nip19Error>) -> Result<
    (int, Seq<char>, Seq<Seq<char>>, Option<Seq<char>>, u16),
    Nip19Error,
> {
    match r {
        Ok(e) => Ok(entity_view(e)),
        Err(x) => Err(x),
    }
}

fn decode(s: &str, detailed: bool) -> (r: Result<Nip19Entity, Nip19Error>)
    ensures
        result_view(r) == decode_spec(s@, detailed),
{
    let c = chars_of(s);
    if starts_with_lit(&c, "npub1") {
        match decode_npub(s) {
            Some(x) => Ok(Nip19Entity::Pubkey(x)),
            None => Err(Nip19Error::Invalid),
        }
    } else if starts_with_lit(&c, "nsec1") {
        match decode_nsec(s) {
            Some(x) => Ok(Nip19Entity::SecretKey(x)),
            None => Err(Nip19Error::Invalid),
        }
    } else if starts_with_lit(&c, "note1") {
        match decode_note(s) {
            Some(x) => Ok(Nip19Entity::Note(x)),
            None => Err(Nip19Error::Invalid),
        }
    } else if starts_with_lit(&c, "nprofile1") {
        match decode_nprofile(s) {
            Some(p) => if detailed {
                Ok(Nip19Entity::Profile { pubkey: p.0, relays: p.1 })
            } else {
                Ok(Nip19Entity::Pubkey(p.0))
            },
            None => Err(Nip19Error::Invalid),
        }
    } else if starts_with_lit(&c, "nevent1") {
        match decode_nevent(s) {
            Some(p) => if detailed {
                Ok(Nip19Entity::Event { id: p.0, relays: p.1, author: p.2 })
            } else {
                Ok(Nip19Entity::Note(p.0))
            },
            None => Err(Nip19Error::Invalid),
        }
    } else if starts_with_lit(&c, "naddr1") {
        match decode_naddr(s) {
            Some(p) => Ok(Nip19Entity::Address { kind: p.0, pubkey: p.1, identifier: p.2 }),
            None => Err(Nip19Error::Invalid),
        }
    } else {
        Err(Nip19Error::UnknownPrefix)
    }
}

/// Decodes a bech32 identifier to its key or id (an address keeps its parts).
pub fn nip19_decode(bech32_str: &str) -> (r: Result<Nip19Entity, Nip19Error>)
    ensures
        result_view(r) == decode_spec(bech32_str@, false),
{
    decode(bech32_str, false)
}

/// Decodes a bech32 identifier with the relays and author it carries.
pub fn nip19_decode_tlv(bech32_str: &str) -> (r: Result<Nip19Entity, Nip19Error>)
    ensures
        result_view(r) == decode_spec(bech32_str@, true),
{
    decode(bech32_str, true)
}

/// What [`encode_basic_bech32`] gives for a prefix.
pub open spec fn encode_spec(hex: Seq<char>, prefix: Seq<char>) -> Result<Option<Seq<char>>, Nip19Error> {
    if prefix == "npub"@ {
        Ok(npub_text(hex))
    } else if prefix == "nsec"@ {
        Ok(nsec_text(hex))
    } else if prefix == "note"@ {
        Ok(note_text(hex))
    } else {
        Err(Nip19Error::UnknownPrefix)
    }
}

/// Encodes hex as `npub`, `nsec` or `note`; `Ok(None)` where the hex is not
/// a valid key or id.
pub fn encode_basic_bech32(hex_str: &str, prefix: &String) -> (r: Result<Option<String>, Nip19Error>)
    ensures
        match r {
            Ok(o) => encode_spec(hex_str@, prefix@) == Ok::<Option<Seq<char>>, Nip19Error>(o.deep_view()),
            Err(e) => encode_spec(hex_str@, prefix@) == Err::<Option<Seq<char>>, Nip19Error>(e),
        },
{
    if crate::event::same_text(prefix, "npub") {
        Ok(nip19_encode_pubkey(hex_str))
    } else if crate::event::same_text(prefix, "nsec") {
        Ok(nip19_encode_privkey(hex_str))
    } else if crate::event::same_text(prefix, "note") {
        Ok(nip19_encode_note(hex_str))
    } else {
        Err(Nip19Error::UnknownPrefix)
    }
}

} // verus!
