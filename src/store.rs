use vstd::prelude::*;

verus! {

/// How many map sizes an open tries before giving up on the store as it is.
pub const MAP_SIZE_COUNT: usize = 4;

/// The map sizes tried when opening the store, largest first.
pub open spec fn map_size_spec(i: int) -> u64 {
    if i == 0 {
        2147483648
    } else if i == 1 {
        1073741824
    } else if i == 2 {
        536870912
    } else {
        268435456
    }
}

/// The `i`-th map size to try.
pub fn map_size(i: usize) -> (r: u64)
    requires
        i < MAP_SIZE_COUNT,
    ensures
        r == map_size_spec(i as int),
{
    if i == 0 {
        2147483648
    } else if i == 1 {
        1073741824
    } else if i == 2 {
        536870912
    } else {
        268435456
    }
}

/// A store whose data file is empty, or cannot be read (`None`), is corrupt
/// and its directory is removed before opening.
pub fn store_is_corrupt(data_file_len: Option<u64>) -> (r: bool)
    ensures
        r == (data_file_len is None || data_file_len == Some(0u64)),
{
    match data_file_len {
        Some(n) => n == 0,
        None => true,
    }
}

/// What the driver of a store open does next.
pub enum OpenAction {
    /// Try to open the store with this map size.
    Open(u64),
    /// Every size failed: remove the store directory, then try again.
    Wipe,
    /// Every size failed, also after the wipe.
    GiveUp,
}

/// The progress of opening the store: the next size to try, and whether the
/// directory was wiped already.
pub struct StoreOpenPlan {
    pub next: usize,
    pub wiped: bool,
}

impl StoreOpenPlan {
    pub open spec fn wf(&self) -> bool {
        self.next <= MAP_SIZE_COUNT
    }

    /// A plan that has tried nothing.
    pub fn new() -> (r: StoreOpenPlan)
        ensures
            r.wf(),
            r.next == 0,
            !r.wiped,
    {
        StoreOpenPlan { next: 0, wiped: false }
    }

    /// The next action: the next size while one is left; the wipe once all
    /// sizes failed and it has not been done; else giving up.
    pub fn next_action(&self) -> (a: OpenAction)
        requires
            self.wf(),
        ensures
            self.next < MAP_SIZE_COUNT ==> a == OpenAction::Open(map_size_spec(self.next as int)),
            self.next == MAP_SIZE_COUNT && !self.wiped ==> a == OpenAction::Wipe,
            self.next == MAP_SIZE_COUNT && self.wiped ==> a == OpenAction::GiveUp,
            a == OpenAction::Wipe ==> self.next == MAP_SIZE_COUNT && !self.wiped,
    {
        if self.next < MAP_SIZE_COUNT {
            OpenAction::Open(map_size(self.next))
        } else if !self.wiped {
            OpenAction::Wipe
        } else {
            OpenAction::GiveUp
        }
    }

    /// The open with the size last handed out failed.
    pub fn open_failed(&mut self)
        requires
            old(self).wf(),
            old(self).next < MAP_SIZE_COUNT,
        ensures
            final(self).wf(),
            final(self).next == old(self).next + 1,
            final(self).wiped == old(self).wiped,
    {
        self.next = self.next + 1;
    }

    /// The directory was wiped: every size is tried once more.
    pub fn wiped_store(&mut self)
        requires
            old(self).wf(),
            old(self).next == MAP_SIZE_COUNT,
            !old(self).wiped,
        ensures
            final(self).wf(),
            final(self).next == 0,
            final(self).wiped,
    {
        self.next = 0;
        self.wiped = true;
    }
}

} // verus!

verus! {

/// Seconds in a day.
pub const SECONDS_PER_DAY: u64 = 86400;

/// The time before which stored notes, reposts, reactions and zaps are
/// removed when keeping `days_to_keep` days (zero when that reaches past the
/// start of the clock).
pub fn cleanup_cutoff(now_secs: u64, days_to_keep: u32) -> (r: u64)
    ensures
        r as int == if now_secs as int - days_to_keep as int * SECONDS_PER_DAY as int >= 0 {
            now_secs as int - days_to_keep as int * SECONDS_PER_DAY as int
        } else {
            0
        },
{
    let span: u64 = days_to_keep as u64 * SECONDS_PER_DAY;
    now_secs.saturating_sub(span)
}

} // verus!
