use vstd::prelude::*;

use crate::event::Event;

verus! {

/// Connection status of a relay, as the transport reports it.
#[derive(PartialEq, Eq, Structural, Clone, Copy)]
pub enum RelayStatus {
    Initialized,
    Pending,
    Connecting,
    Connected,
    Disconnected,
    Terminated,
    Banned,
    Sleeping,
}

impl RelayStatus {
    /// The status as the presentation layer names it.
    pub fn name(&self) -> (r: &'static str)
        ensures
            r@ == status_name(*self),
    {
        match self {
            RelayStatus::Initialized => "initialized",
            RelayStatus::Pending => "pending",
            RelayStatus::Connecting => "connecting",
            RelayStatus::Connected => "connected",
            RelayStatus::Disconnected => "disconnected",
            RelayStatus::Terminated => "terminated",
            RelayStatus::Banned => "banned",
            RelayStatus::Sleeping => "sleeping",
        }
    }
}

pub open spec fn status_name(s: RelayStatus) -> Seq<char> {
    match s {
        RelayStatus::Initialized => "initialized"@,
        RelayStatus::Pending => "pending"@,
        RelayStatus::Connecting => "connecting"@,
        RelayStatus::Connected => "connected"@,
        RelayStatus::Disconnected => "disconnected"@,
        RelayStatus::Terminated => "terminated"@,
        RelayStatus::Banned => "banned"@,
        RelayStatus::Sleeping => "sleeping"@,
    }
}

/// The services a relay is used for.
#[derive(PartialEq, Eq, Structural, Clone, Copy)]
pub struct RelayFlags {
    pub read: bool,
    pub write: bool,
    pub discovery: bool,
}

impl RelayFlags {
    /// The flags of a relay added for reading and writing.
    pub fn read_write() -> (r: RelayFlags)
        ensures
            r.read && r.write && !r.discovery,
    {
        RelayFlags { read: true, write: true, discovery: false }
    }

    /// The flags of a relay added with the given services.
    pub fn with(read: bool, write: bool) -> (r: RelayFlags)
        ensures
            r.read == read && r.write == write && !r.discovery,
    {
        RelayFlags { read, write, discovery: false }
    }

    /// A relay used for discovery alone.
    pub fn is_discovery_only(&self) -> (r: bool)
        ensures
            r == discovery_only(*self),
    {
        self.discovery && !self.read && !self.write
    }
}

pub open spec fn discovery_only(f: RelayFlags) -> bool {
    f.discovery && !f.read && !f.write
}

/// One known relay: its URL, status, flags and traffic counters.
pub struct RelayRecord {
    pub url: String,
    pub status: RelayStatus,
    pub flags: RelayFlags,
    pub attempts: u64,
    pub success: u64,
    pub bytes_sent: u64,
    pub bytes_received: u64,
    pub connected_at: u64,
}

/// The URLs of the relays, in order, that are not for discovery alone.
pub open spec fn listed_spec(rs: Seq<RelayRecord>, n: int) -> Seq<Seq<char>>
    decreases n,
{
    if n <= 0 || n > rs.len() {
        Seq::empty()
    } else if !discovery_only(rs[n - 1].flags) {
        listed_spec(rs, n - 1).push(rs[n - 1].url@)
    } else {
        listed_spec(rs, n - 1)
    }
}

/// The relays, among the first `n`, that are not for discovery alone and, where
/// `connected_only`, are connected.
pub open spec fn count_spec(rs: Seq<RelayRecord>, connected_only: bool, n: int) -> nat
    decreases n,
{
    if n <= 0 || n > rs.len() {
        0
    } else if !discovery_only(rs[n - 1].flags) && (!connected_only || rs[n - 1].status
        == RelayStatus::Connected) {
        count_spec(rs, connected_only, n - 1) + 1
    } else {
        count_spec(rs, connected_only, n - 1)
    }
}

/// The URLs of the user's relays: all but those used for discovery alone.
pub fn listed_relays(records: &Vec<RelayRecord>) -> (r: Vec<String>)
    ensures
        r.deep_view() == listed_spec(records@, records.len() as int),
{
    let mut out: Vec<String> = Vec::new();
    let mut i: usize = 0;
    while i < records.len()
        invariant
            i <= records.len(),
            out.deep_view() == listed_spec(records@, i as int),
        decreases records.len() - i,
    {
        if !records[i].flags.is_discovery_only() {
            let ghost prev = out.deep_view();
            out.push(records[i].url.clone());
            assert(out.deep_view() =~= prev.push(records@[i as int].url@));
        }
        i += 1;
    }
    out
}

fn count_relays(records: &Vec<RelayRecord>, connected_only: bool) -> (r: u64)
    ensures
        r == count_spec(records@, connected_only, records.len() as int),
{
    let mut c: u64 = 0;
    let mut i: usize = 0;
    while i < records.len()
        invariant
            i <= records.len(),
            c == count_spec(records@, connected_only, i as int),
            c <= i,
        decreases records.len() - i,
    {
        let r = &records[i];
        if !r.flags.is_discovery_only() && (!connected_only || r.status == RelayStatus::Connected) {
            c += 1;
        }
        i += 1;
    }
    c
}

/// How many of the user's relays (not those for discovery alone) are connected.
pub fn connected_relay_count(records: &Vec<RelayRecord>) -> (r: u64)
    ensures
        r == count_spec(records@, true, records.len() as int),
{
    count_relays(records, true)
}

/// The summary of the pool: the user's relays, and how many are connected.
pub struct StatusSummary {
    pub total_relays: u64,
    pub connected_relays: u64,
}

/// Summarises the pool for the status report.
pub fn status_summary(records: &Vec<RelayRecord>) -> (r: StatusSummary)
    ensures
        r.total_relays == count_spec(records@, false, records.len() as int),
        r.connected_relays == count_spec(records@, true, records.len() as int),
{
    StatusSummary {
        total_relays: count_relays(records, false),
        connected_relays: count_relays(records, true),
    }
}

/// The relays, in order, that take a send with no explicit targets: those
/// flagged for writing and not for discovery.
pub open spec fn write_targets_spec(rs: Seq<RelayRecord>, n: int) -> Seq<Seq<char>>
    decreases n,
{
    if n <= 0 || n > rs.len() {
        Seq::empty()
    } else if rs[n - 1].flags.write && !rs[n - 1].flags.discovery {
        write_targets_spec(rs, n - 1).push(rs[n - 1].url@)
    } else {
        write_targets_spec(rs, n - 1)
    }
}

/// The default targets of a send.
pub fn write_targets(records: &Vec<RelayRecord>) -> (r: Vec<String>)
    ensures
        r.deep_view() == write_targets_spec(records@, records.len() as int),
{
    let mut out: Vec<String> = Vec::new();
    let mut i: usize = 0;
    while i < records.len()
        invariant
            i <= records.len(),
            out.deep_view() == write_targets_spec(records@, i as int),
        decreases records.len() - i,
    {
        if records[i].flags.write && !records[i].flags.discovery {
            let ghost prev = out.deep_view();
            out.push(records[i].url.clone());
            assert(out.deep_view() =~= prev.push(records@[i as int].url@));
        }
        i += 1;
    }
    out
}

// ---------------------------------------------------------------- sends

/// What the pool reported for the send of one event.
pub enum SendOutcome {
    /// The relays that accepted it, and those that refused it with their reasons.
    Reported { success: Vec<String>, failed: Vec<(String, String)> },
    /// The send failed as a whole.
    Failed,
}

pub open spec fn outcome_success(o: SendOutcome) -> nat {
    match o {
        SendOutcome::Reported { success, .. } => success@.len(),
        SendOutcome::Failed => 0,
    }
}

pub open spec fn outcome_failed(o: SendOutcome) -> nat {
    match o {
        SendOutcome::Reported { failed, .. } => failed@.len(),
        SendOutcome::Failed => 1,
    }
}

/// Accepting relays over the first `n` sends.
pub open spec fn success_total(os: Seq<SendOutcome>, n: int) -> nat
    decreases n,
{
    if n <= 0 || n > os.len() {
        0
    } else {
        success_total(os, n - 1) + outcome_success(os[n - 1])
    }
}

/// Refusing relays over the first `n` sends, a failed send counting once.
pub open spec fn failed_total(os: Seq<SendOutcome>, n: int) -> nat
    decreases n,
{
    if n <= 0 || n > os.len() {
        0
    } else {
        failed_total(os, n - 1) + outcome_failed(os[n - 1])
    }
}

pub open spec fn capped(x: nat) -> u64 {
    if x > u64::MAX {
        u64::MAX
    } else {
        x as u64
    }
}

/// Per-relay totals of a broadcast.
pub struct BroadcastTotals {
    pub total_success: u64,
    pub total_failed: u64,
}

/// Adds up a broadcast relay by relay: one event's refusal by some relays
/// does not hide its acceptance by the others.
pub fn tally_broadcast(outcomes: &Vec<SendOutcome>) -> (r: BroadcastTotals)
    ensures
        r.total_success == capped(success_total(outcomes@, outcomes.len() as int)),
        r.total_failed == capped(failed_total(outcomes@, outcomes.len() as int)),
{
    let mut s: u64 = 0;
    let mut f: u64 = 0;
    let mut i: usize = 0;
    while i < outcomes.len()
        invariant
            i <= outcomes.len(),
            s == capped(success_total(outcomes@, i as int)),
            f == capped(failed_total(outcomes@, i as int)),
        decreases outcomes.len() - i,
    {
        match &outcomes[i] {
            SendOutcome::Reported { success, failed } => {
                s = s.saturating_add(success.len() as u64);
                f = f.saturating_add(failed.len() as u64);
            },
            SendOutcome::Failed => {
                f = f.saturating_add(1);
            },
        }
        i += 1;
    }
    BroadcastTotals { total_success: s, total_failed: f }
}

// ---------------------------------------------------------------- fetches

/// Collects what relays send for one fetch or subscription, each event once
/// (by id), in the order first seen.
pub struct EventCollector {
    pub events: Vec<Event>,
}

pub open spec fn ids_of(es: Seq<Event>) -> Seq<Seq<char>> {
    es.map_values(|e: Event| e.id@)
}

impl EventCollector {
    /// No two collected events share an id.
    pub open spec fn wf(&self) -> bool {
        forall|a: int, b: int|
            0 <= a < b < self.events@.len() ==> (#[trigger] self.events@[a]).id@ != (#[trigger] self.events@[b]).id@
    }

    /// A collector that holds nothing yet.
    pub fn new() -> (r: EventCollector)
        ensures
            r.wf(),
            r.events@.len() == 0,
    {
        EventCollector { events: Vec::new() }
    }

    /// Offers an event as a relay sent it; it is kept unless one with its id
    /// was kept before. Returns whether it was kept.
    pub fn offer(&mut self, e: Event) -> (kept: bool)
        requires
            old(self).wf(),
        ensures
            final(self).wf(),
            kept == !ids_of(old(self).events@).contains(e.id@),
            kept ==> final(self).events@ == old(self).events@.push(e),
            !kept ==> final(self).events@ == old(self).events@,
    {
        let mut i: usize = 0;
        while i < self.events.len()
            invariant
                self.wf(),
                *self == *old(self),
                i <= self.events.len(),
                forall|k: int| 0 <= k < i ==> self.events@[k].id@ != e.id@,
            decreases self.events.len() - i,
        {
            if self.events[i].id == e.id {
                assert(ids_of(self.events@)[i as int] == e.id@);
                return false;
            }
            i += 1;
        }
        assert(!ids_of(self.events@).contains(e.id@)) by {
            if ids_of(self.events@).contains(e.id@) {
                let w = choose|w: int| 0 <= w < ids_of(self.events@).len() && ids_of(self.events@)[w] == e.id@;
                assert(self.events@[w].id@ == e.id@);
            }
        }
        self.events.push(e);
        true
    }

    /// What was collected; when the deadline passes with nothing received,
    /// this is empty and no error.
    pub fn finish(self) -> (r: Vec<Event>)
        ensures
            r@ == self.events@,
    {
        self.events
    }
}

} // verus!

verus! {

// ---------------------------------------------------------------- the user's relays

/// The elements of `s` among the first `n`, in order, other than `x`.
pub open spec fn without(s: Seq<Seq<char>>, x: Seq<char>, n: int) -> Seq<Seq<char>>
    decreases n,
{
    if n <= 0 || n > s.len() {
        Seq::empty()
    } else if s[n - 1] != x {
        without(s, x, n - 1).push(s[n - 1])
    } else {
        without(s, x, n - 1)
    }
}

/// The relay URLs the user configured, in the order added, each once.
pub struct UserRelays {
    pub urls: Vec<String>,
}

impl UserRelays {
    pub open spec fn wf(&self) -> bool {
        forall|a: int, b: int| 0 <= a < b < self.urls.len() ==> self.urls.deep_view()[a] != self.urls.deep_view()[b]
    }

    /// No relay configured yet.
    pub fn new() -> (r: UserRelays)
        ensures
            r.wf(),
            r.urls@.len() == 0,
    {
        UserRelays { urls: Vec::new() }
    }

    /// Records a relay that was added to the pool, unless it is recorded already.
    pub fn add(&mut self, url: &String)
        requires
            old(self).wf(),
        ensures
            final(self).wf(),
            old(self).urls.deep_view().contains(url@) ==> final(self).urls.deep_view() == old(self).urls.deep_view(),
            !old(self).urls.deep_view().contains(url@) ==> final(self).urls.deep_view() == old(self).urls.deep_view().push(url@),
    {
        let mut i: usize = 0;
        while i < self.urls.len()
            invariant
                *self == *old(self),
                self.wf(),
                i <= self.urls.len(),
                forall|k: int| 0 <= k < i ==> self.urls.deep_view()[k] != url@,
            decreases self.urls.len() - i,
        {
            if self.urls[i] == *url {
                assert(self.urls.deep_view()[i as int] == url@);
                return ;
            }
            i += 1;
        }
        let ghost prev = self.urls.deep_view();
        self.urls.push(url.clone());
        assert(self.urls.deep_view() =~= prev.push(url@));
    }

    /// Forgets a relay that was removed from the pool.
    pub fn remove(&mut self, url: &String)
        requires
            old(self).wf(),
        ensures
            final(self).wf(),
            final(self).urls.deep_view() == without(old(self).urls.deep_view(), url@, old(self).urls.len() as int),
    {
        let ghost before = self.urls.deep_view();
        let mut kept: Vec<String> = Vec::new();
        let mut i: usize = 0;
        while i < self.urls.len()
            invariant
                *self == *old(self),
                before == self.urls.deep_view(),
                self.wf(),
                i <= self.urls.len(),
                kept.deep_view() == without(before, url@, i as int),
                forall|k: int| 0 <= k < kept.len() ==> exists|j: int| 0 <= j < i && before[j] == #[trigger] kept.deep_view()[k],
                forall|a: int, b: int| 0 <= a < b < kept.len() ==> kept.deep_view()[a] != kept.deep_view()[b],
            decreases self.urls.len() - i,
        {
            if self.urls[i] != *url {
                let ghost prev = kept.deep_view();
                kept.push(self.urls[i].clone());
                assert(kept.deep_view() =~= prev.push(before[i as int]));
                assert forall|k: int| 0 <= k < prev.len() implies prev[k] != before[i as int] by {
                    let j = choose|j: int| 0 <= j < i && before[j] == #[trigger] prev[k];
                    assert(before[j] != before[i as int]);
                }
                assert forall|k: int| 0 <= k < kept.len() implies exists|j: int| 0 <= j < i + 1 && before[j] == #[trigger] kept.deep_view()[k] by {
                    if k < prev.len() {
                        let j = choose|j: int| 0 <= j < i && before[j] == #[trigger] prev[k];
                        assert(before[j] == kept.deep_view()[k]);
                    } else {
                        assert(before[i as int] == kept.deep_view()[k]);
                    }
                }
            }
            i += 1;
        }
        self.urls = kept;
    }
}

} // verus!
