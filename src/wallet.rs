use vstd::prelude::*;

verus! {

/// The parts of a wallet-connect URI: the wallet's public key, the secret
/// (both hex), the relays and the lightning address.
pub uninterp spec fn nwc_parts(uri: Seq<char>) -> Option<(Seq<char>, Seq<char>, Seq<Seq<char>>, Option<Seq<char>>)>;

/// A parsed wallet-connect URI.
pub struct NwcUri {
    pub public_key: String,
    pub secret: String,
    pub relays: Vec<String>,
    pub lud16: Option<String>,
}

/// Relies on `nostr::nips::nip47::NostrWalletConnectURI::parse`.
#[verifier::external_body]
pub fn parse_nwc_uri(uri: &str) -> (r: Option<NwcUri>)
    ensures
        match r {
            Some(u) => nwc_parts(uri@) == Some((u.public_key@, u.secret@, u.relays.deep_view(), u.lud16.deep_view())),
            None => nwc_parts(uri@) is None,
        },
{
    let u = nostr::nips::nip47::NostrWalletConnectURI::parse(uri).ok()?;
    let relays = u.relays.iter().map(|r| r.to_string()).collect();
    Some(NwcUri { public_key: u.public_key.to_hex(), secret: u.secret.to_secret_hex(), relays, lud16: u.lud16 })
}

/// Whether a wallet-connect URI parses.
pub fn validate_nwc_uri(uri: &str) -> (r: bool)
    ensures
        r == (nwc_parts(uri@) is Some),
{
    parse_nwc_uri(uri).is_some()
}

/// What the relay pool told a wallet request that waits for its answer.
pub enum WalletNotice {
    /// An event arrived; whether it belongs to the request's subscription.
    Event { for_request: bool },
    /// The pool shut down.
    Shutdown,
    /// The notification channel closed.
    Closed,
    /// The receiver fell behind and missed notifications.
    Lagged,
    /// Any other notification.
    Other,
}

/// Why a wallet request ended without an answer.
#[derive(PartialEq, Eq, Structural, Clone, Copy, Debug)]
pub enum WalletFailure {
    ConnectionClosed,
    ChannelClosed,
}

/// What a wallet request does after a notice.
pub enum WalletStep {
    /// Keep waiting.
    Wait,
    /// Decode this event: it is the wallet's answer.
    Decode,
    /// Give up.
    Fail(WalletFailure),
}

/// Decides what a wallet request does with a notice: the answer is the first
/// event of its own subscription; a shutdown or a closed channel ends it;
/// everything else is waited through.
pub fn wallet_step(n: &WalletNotice) -> (r: WalletStep)
    ensures
        match *n {
            WalletNotice::Event { for_request } => if for_request {
                r is Decode
            } else {
                r is Wait
            },
            WalletNotice::Shutdown => r == WalletStep::Fail(WalletFailure::ConnectionClosed),
            WalletNotice::Closed => r == WalletStep::Fail(WalletFailure::ChannelClosed),
            _ => r is Wait,
        },
{
    match n {
        WalletNotice::Event { for_request } => if *for_request {
            WalletStep::Decode
        } else {
            WalletStep::Wait
        },
        WalletNotice::Shutdown => WalletStep::Fail(WalletFailure::ConnectionClosed),
        WalletNotice::Closed => WalletStep::Fail(WalletFailure::ChannelClosed),
        _ => WalletStep::Wait,
    }
}

} // verus!
