use crate::calendar::DateTime;
use crate::measures::PrayerError;
use crate::prayer::{remaining_spec, Prayer};
use vstd::prelude::*;

verus! {

/// How many minutes ahead of a prayer the early notification is sent.
pub const MINUTES_BEFORE: i64 = 10;

/// What the notification loop does on one wake-up.
#[derive(Clone, Copy, Debug, PartialEq, Eq, Structural)]
pub enum DaemonAction {
    /// The awaited prayer has come: notify when it is still the current one
    /// (it is not after a suspension that skipped past it), then await the
    /// next prayer.
    PrayerPassed { notify: bool },
    /// Send the early notification, `minutes` whole minutes before the prayer.
    NotifyBefore { minutes: i64 },
    /// Nothing to do until the next wake-up.
    Wait,
}

/// The action of one wake-up at `now`, for the awaited prayer, the current
/// prayer at `now`, whether early notifications are wanted, and whether one
/// was already sent for the awaited prayer.
pub open spec fn decide_spec(
    awaited: Prayer,
    current: Result<Prayer, PrayerError>,
    now: DateTime,
    notify_before: bool,
    notified_before: bool,
) -> DaemonAction {
    let remaining = remaining_spec(awaited, now);
    if remaining <= 0 {
        DaemonAction::PrayerPassed {
            notify: current matches Ok(c) && c.event == awaited.event && c.at == awaited.at,
        }
    } else if notify_before && !notified_before && remaining < (MINUTES_BEFORE + 1) * 60 {
        DaemonAction::NotifyBefore { minutes: (remaining / 60) as i64 }
    } else {
        DaemonAction::Wait
    }
}

/// Decides what the notification loop does at `now`.
pub fn decide(
    awaited: &Prayer,
    current: &Result<Prayer, PrayerError>,
    now: &DateTime,
    notify_before: bool,
    notified_before: bool,
) -> (r: DaemonAction)
    requires
        awaited.at.valid(),
        now.valid(),
    ensures
        r == decide_spec(*awaited, *current, *now, notify_before, notified_before),
{
    let remaining = awaited.time_remaining(now);
    if remaining <= 0 {
        let notify = match current {
            Ok(c) => *c == *awaited,
            Err(_) => false,
        };
        DaemonAction::PrayerPassed { notify }
    } else if notify_before && !notified_before && remaining < (MINUTES_BEFORE + 1) * 60 {
        DaemonAction::NotifyBefore { minutes: remaining / 60 }
    } else {
        DaemonAction::Wait
    }
}

} // verus!
