//! Common chores: setting the in-game time, logging in again, visiting the
//! wonderland. What is left here besides their error type is the clock
//! arithmetic of setting the time.

use vstd::prelude::*;

use crate::navigate::error::NavigateError;

verus! {

/// What went wrong in a common chore.
#[derive(Debug)]
pub enum CommonJobError {
    /// An element did not appear in time.
    ElementAppearTimeout(&'static str),
    /// An element did not go away in time.
    ElementDisappearTimeout(&'static str),
    Device(String),
    Navigate(NavigateError),
}

impl From<NavigateError> for CommonJobError {
    fn from(e: NavigateError) -> (r: Self) {
        CommonJobError::Navigate(e)
    }
}

impl vstd::std_specs::convert::FromSpecImpl<NavigateError> for CommonJobError {
    open spec fn obeys_from_spec() -> bool {
        true
    }

    open spec fn from_spec(e: NavigateError) -> Self {
        CommonJobError::Navigate(e)
    }
}

/// The clock time `hour:minute` brought into a day: the hour in `0..24`
/// and the minute in `0..60`, carrying whole hours from the minutes.
pub open spec fn normalized_time(hour: int, minute: int) -> (int, int) {
    let total = hour * 60 + minute;
    ((total / 60) % 24, total % 60)
}

/// Brings `hour:minute` into a day (minutes may exceed an hour or be negative).
pub fn normalize_time(hour: i32, minute: i32) -> (r: (i32, i32))
    requires
        i32::MIN <= hour * 60 <= i32::MAX,
        i32::MIN <= hour * 60 + minute <= i32::MAX,
    ensures
        r.0 == normalized_time(hour as int, minute as int).0,
        r.1 == normalized_time(hour as int, minute as int).1,
        0 <= r.0 < 24,
        0 <= r.1 < 60,
{
    let total = hour * 60 + minute;
    let h_extra = match total.checked_div_euclid(60) {
        Some(q) => q,
        None => 0,
    };
    let m = match total.checked_rem_euclid(60) {
        Some(r) => r,
        None => 0,
    };
    let h = match h_extra.checked_rem_euclid(24) {
        Some(r) => r,
        None => 0,
    };
    (h, m)
}

/// The dial position, in minutes from the dial's zero, that the time
/// `hour:minute` is dragged to.
pub open spec fn dial_end(hour: int, minute: int) -> int {
    (hour + 6) * 60 + minute - 20
}

/// The three dial positions clicked before the drag, a third of the dial apart,
/// ending at [`dial_end`].
pub fn dial_click_positions(hour: i32, minute: i32) -> (v: Vec<i32>)
    requires
        hour + 6 <= i32::MAX,
        i32::MIN <= (hour + 6) * 60 <= i32::MAX,
        i32::MIN <= (hour + 6) * 60 + minute <= i32::MAX,
        i32::MIN + 960 <= dial_end(hour as int, minute as int) <= i32::MAX,
    ensures
        v@.len() == 3,
        v@[0] == dial_end(hour as int, minute as int) - 960,
        v@[1] == dial_end(hour as int, minute as int) - 480,
        v@[2] == dial_end(hour as int, minute as int),
{
    let end = (hour + 6) * 60 + minute - 20;
    let mut v: Vec<i32> = Vec::new();
    let mut i: i32 = -2;
    while i <= 0
        invariant
            -2 <= i <= 1,
            end == dial_end(hour as int, minute as int),
            i32::MIN + 960 <= end,
            v@.len() == i + 2,
            forall|k: int| 0 <= k < v@.len() ==> #[trigger] v@[k] == end + (k - 2) * 480,
        decreases 1 - i,
    {
        v.push(end + i * 480);
        i = i + 1;
    }
    v
}

} // verus!
