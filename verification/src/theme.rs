//! Whether the process follows the system's light or dark appearance, and
//! how often it re-reads that appearance.
use vstd::prelude::*;

verus! {

/// The preference that the whole process shares: whether it follows the
/// system appearance (unset until first initialised or set), and when, in
/// nanoseconds of a monotonic clock, it last synchronised with the system.
#[derive(Clone, Copy, Debug, PartialEq, Eq, Structural)]
pub struct ProcessThemePreference {
    pub follow_system: Option<bool>,
    pub last_sync_nanos: Option<u64>,
}

impl ProcessThemePreference {
    /// Nothing decided and never synchronised.
    pub fn new() -> (r: Self)
        ensures
            r.follow_system is None,
            r.last_sync_nanos is None,
    {
        ProcessThemePreference { follow_system: None, last_sync_nanos: None }
    }
}

/// Decides the preference from the configuration unless it was decided
/// before, and returns the preference in force.
pub fn initialize_process_theme_preference(
    state: &mut ProcessThemePreference,
    configured: bool,
) -> (r: bool)
    ensures
        final(state).last_sync_nanos == old(state).last_sync_nanos,
        final(state).follow_system == Some(r),
        r == match old(state).follow_system {
            Some(f) => f,
            None => configured,
        },
{
    match state.follow_system {
        Some(f) => f,
        None => {
            state.follow_system = Some(configured);
            configured
        },
    }
}

/// Whether the process follows the system appearance; it does until told
/// otherwise.
pub fn process_follows_system_theme(state: &ProcessThemePreference) -> (r: bool)
    ensures
        r == match state.follow_system {
            Some(f) => f,
            None => true,
        },
{
    match state.follow_system {
        Some(f) => f,
        None => true,
    }
}

/// Sets whether the process follows the system appearance.
pub fn set_process_follows_system_theme(state: &mut ProcessThemePreference, follow: bool)
    ensures
        *final(state) == (ProcessThemePreference { follow_system: Some(follow), ..*old(state) }),
{
    state.follow_system = Some(follow);
}

/// Whether a synchronisation may run at `now_nanos`: the process follows the
/// system, and none ran less than `interval_nanos` before (a clock that went
/// back counts as no time passed).
pub open spec fn sync_due(s: ProcessThemePreference, now_nanos: u64, interval_nanos: u64) -> bool {
    let follows = match s.follow_system {
        Some(f) => f,
        None => true,
    };
    follows && match s.last_sync_nanos {
        Some(last) => (if now_nanos >= last {
            now_nanos - last
        } else {
            0
        }) >= interval_nanos,
        None => true,
    }
}

/// Claims the next synchronisation with the system appearance: returns
/// whether it is due at `now_nanos` and, when it is, records the time.
pub fn claim_system_theme_sync(
    state: &mut ProcessThemePreference,
    now_nanos: u64,
    interval_nanos: u64,
) -> (r: bool)
    ensures
        r == sync_due(*old(state), now_nanos, interval_nanos),
        *final(state) == if r {
            ProcessThemePreference { last_sync_nanos: Some(now_nanos), ..*old(state) }
        } else {
            *old(state)
        },
{
    if !process_follows_system_theme(state) {
        return false;
    }
    if let Some(last) = state.last_sync_nanos {
        let elapsed = if now_nanos >= last {
            now_nanos - last
        } else {
            0
        };
        if elapsed < interval_nanos {
            return false;
        }
    }
    state.last_sync_nanos = Some(now_nanos);
    true
}

/// Right after a synchronisation is claimed, no other is due until the
/// interval has passed.
pub proof fn claimed_sync_blocks_until_interval(
    s: ProcessThemePreference,
    now_nanos: u64,
    later_nanos: u64,
    interval_nanos: u64,
)
    requires
        sync_due(s, now_nanos, interval_nanos),
        now_nanos <= later_nanos,
        later_nanos - now_nanos < interval_nanos,
    ensures
        !sync_due(
            ProcessThemePreference { last_sync_nanos: Some(now_nanos), ..s },
            later_nanos,
            interval_nanos,
        ),
{
}

} // verus!
