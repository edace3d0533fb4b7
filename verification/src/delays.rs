//! Daily scheduling: how long to wait until the next occurrence of a fixed
//! wall-clock time, computed with full calendar arithmetic in UTC.

use vstd::prelude::*;

use crate::calendar::{
    civil_from_epoch, datetime_valid, epoch_from_civil, next_day, spec_day_index, spec_epoch_of,
    spec_seconds_of_day, time_valid, DateTime, TimeOfDay, SECONDS_PER_DAY, SECONDS_PER_HOUR,
    SECONDS_PER_MINUTE,
};

verus! {

/// The instant of the next occurrence of `execution_time`, relative to `now`:
/// today if `execution_time` has not yet passed (equality counts as today),
/// otherwise the same time on the next calendar day.
pub fn get_execution_date_time(now: &DateTime, execution_time: &TimeOfDay) -> (r: DateTime)
    requires
        datetime_valid(*now),
        time_valid(*execution_time),
        now.date.year < u64::MAX,
    ensures
        datetime_valid(r),
        r.time == *execution_time,
        spec_epoch_of(*now) <= spec_epoch_of(r) < spec_epoch_of(*now) + 86400,
        spec_seconds_of_day(*execution_time) < spec_seconds_of_day(now.time) ==> spec_day_index(
            r.date,
        ) == spec_day_index(now.date) + 1,
        spec_seconds_of_day(*execution_time) >= spec_seconds_of_day(now.time) ==> r.date
            == now.date,
{
    let now_seconds: u64 = now.time.hour * SECONDS_PER_HOUR + now.time.minute
        * SECONDS_PER_MINUTE + now.time.second;
    let target_seconds: u64 = execution_time.hour * SECONDS_PER_HOUR + execution_time.minute
        * SECONDS_PER_MINUTE + execution_time.second;
    if target_seconds < now_seconds {
        // execute tomorrow
        let date = next_day(&now.date);
        DateTime { date, time: *execution_time }
    } else {
        // execute later today
        DateTime { date: now.date, time: *execution_time }
    }
}

/// Seconds from the instant `now` to the next occurrence of `execution_time`.
/// The result is the unique wait below one day after which the wall clock
/// reads exactly `execution_time`.
pub fn next_delay(now: u64, execution_time: &TimeOfDay) -> (delay: u64)
    requires
        time_valid(*execution_time),
        now <= u64::MAX - 86400,
    ensures
        delay < 86400,
        (now + delay) % 86400 == spec_seconds_of_day(*execution_time),
{
    let now_civil = civil_from_epoch(now);
    proof {
        vstd::arithmetic::div_mod::lemma_div_is_ordered(now as int, u64::MAX as int, 86400);
    }
    let target_civil = get_execution_date_time(&now_civil, execution_time);
    let target = epoch_from_civil(&target_civil);
    proof {
        crate::calendar::lemma_time_of_day_of_epoch(target_civil);
    }
    target - now
}

/// LAW: a wait below one day after which the wall clock reads a given time is
/// unique, so `next_delay`'s contract determines its result: the delay to the
/// one next occurrence.
pub proof fn lemma_delay_unique(now: u64, d1: u64, d2: u64)
    requires
        d1 < 86400,
        d2 < 86400,
        now + d1 <= u64::MAX,
        now + d2 <= u64::MAX,
        (now + d1) % 86400 == (now + d2) % 86400,
    ensures
        d1 == d2,
{
    let a = (now + d1) as int;
    let b = (now + d2) as int;
    vstd::arithmetic::div_mod::lemma_fundamental_div_mod(a, 86400);
    vstd::arithmetic::div_mod::lemma_fundamental_div_mod(b, 86400);
    assert(a - b == 86400 * (a / 86400 - b / 86400)) by (nonlinear_arith)
        requires
            a == 86400 * (a / 86400) + a % 86400,
            b == 86400 * (b / 86400) + b % 86400,
            a % 86400 == b % 86400,
    ;
    assert(a / 86400 == b / 86400) by (nonlinear_arith)
        requires
            a - b == 86400 * (a / 86400 - b / 86400),
            -86400 < a - b < 86400,
    ;
}

/// Relies on std::time::SystemTime::now and duration_since: whole seconds of
/// the current instant since the Unix epoch, or an error when the system
/// clock reads earlier than the epoch. Nothing can be promised of a clock
/// reading.
#[verifier::external_body]
pub fn get_now_timestamp() -> (r: Result<u64, String>) {
    match std::time::SystemTime::now().duration_since(std::time::UNIX_EPOCH) {
        Ok(duration) => Ok(duration.as_secs()),
        Err(err) => Err(err.to_string()),
    }
}

/// The wait until the next occurrence of `execution_time`, from a given
/// clock reading: every schedulable instant is owed the unique sub-day delay
/// that lands on the target time; an instant within a day of the largest
/// representable one is an error.
pub fn delay_from_instant(now: u64, execution_time: &TimeOfDay) -> (r: Result<u64, String>)
    requires
        time_valid(*execution_time),
    ensures
        now <= u64::MAX - 86400 ==> (r matches Ok(delay) && delay < 86400 && (now + delay) % 86400
            == spec_seconds_of_day(*execution_time)),
        now > u64::MAX - 86400 ==> r matches Err(_),
{
    if now <= u64::MAX - SECONDS_PER_DAY {
        Ok(next_delay(now, execution_time))
    } else {
        Err("system clock is out of range".to_owned())
    }
}

/// Seconds to wait from the current instant until the next occurrence of
/// `execution_time`; fails when the system clock is unreadable or past the
/// largest schedulable instant.
pub fn get_delay(execution_time: &TimeOfDay) -> (r: Result<u64, String>)
    requires
        time_valid(*execution_time),
    ensures
        r matches Ok(delay) ==> delay < 86400,
{
    match get_now_timestamp() {
        Ok(now) => delay_from_instant(now, execution_time),
        Err(err) => Err(err),
    }
}

} // verus!
