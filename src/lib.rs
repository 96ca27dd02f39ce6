//! A client-side Nostr engine: decoding of protocol tags (zaps, threads,
//! reposts, muting), the views derived from stored events (feeds,
//! notifications, articles, interaction counts, thread trees), the
//! decisions of the relay pool (outbox discovery, send reports, walks to a
//! thread root, reply syncing, store opening) and the composition of
//! events, each with its contract proved by Verus.

pub mod event;
pub mod text;
pub mod json;
pub mod decode;
pub mod notes;
pub mod thread;
pub mod pool;
pub mod outbox;
pub mod counts;
pub mod notify;
pub mod article;
pub mod store;
pub mod profile;
pub mod crypto;
pub mod keys;
pub mod compose;
pub mod nip19;
pub mod gift;
pub mod wallet;
