use vstd::prelude::*;

verus! {

/// An unbounded instant clamped to the range of an `i64` timestamp.
pub open spec fn clamp_ts(x: int) -> i64 {
    if x > i64::MAX {
        i64::MAX
    } else if x < i64::MIN {
        i64::MIN
    } else {
        x as i64
    }
}

/// The absolute timestamp `days` days after `now`, in whole seconds since the
/// Unix epoch (a day is 86400 seconds), clamped to the representable range.
pub open spec fn expiration_ts(now: i64, days: i32) -> i64 {
    clamp_ts(now + days * 86400)
}

/// The expiration of a membership granted at `now` that lasts `days` days;
/// `None` means the membership is permanent.
pub open spec fn membership_expiration(now: i64, days: Option<i32>) -> Option<i64> {
    match days {
        Option::None => Option::None,
        Option::Some(d) => Option::Some(expiration_ts(now, d)),
    }
}

/// Converts a day count into an absolute expiration timestamp relative to `now`.
pub fn to_expiration_ts(now: i64, days: i32) -> (r: i64)
    ensures
        r == expiration_ts(now, days),
{
    let delta: i128 = (days as i128) * 86400;
    let total: i128 = (now as i128) + delta;
    if total > i64::MAX as i128 {
        i64::MAX
    } else if total < i64::MIN as i128 {
        i64::MIN
    } else {
        total as i64
    }
}

/// Relies on `chrono::Utc::now` and `chrono::DateTime::timestamp`: the current
/// time as whole seconds since the Unix epoch. Nothing is assumed of the
/// clock's value.
#[verifier::external_body]
pub(crate) fn now_ts() -> i64 {
    chrono::Utc::now().timestamp()
}

} // verus!
