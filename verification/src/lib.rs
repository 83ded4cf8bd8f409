//! An interactive time-tracking library: a three-state timer session
//! (idle / running / paused) with exact elapsed-time accounting, manual
//! entry of historical records from civil date-time text, and a persistent
//! record store backed by SQLite.

use vstd::prelude::*;

pub mod civil;
pub mod command;
pub mod flow;
pub mod manual;
pub mod record;
pub mod session;
pub mod store;
pub mod text;
pub mod time;

verus! {

/// Integer division truncating toward zero, as machine division computes
/// it — it differs from the mathematical `/` on negative dividends.
pub open spec fn trunc_div(a: int, b: int) -> int {
    if a >= 0 {
        a / b
    } else {
        -((-a) / b)
    }
}

/// The remainder that goes with `trunc_div`: it carries the dividend's
/// sign.
pub open spec fn trunc_mod(a: int, b: int) -> int {
    if a >= 0 {
        a % b
    } else {
        -((-a) % b)
    }
}

/// Whole minutes in a duration of `total` whole seconds, as displayed;
/// negative durations (misordered manual entries) keep their sign.
pub fn duration_minutes_part(total: i64) -> (r: i64)
    ensures
        r == trunc_div(total as int, 60),
{
    if total >= 0 {
        total / 60
    } else {
        let m: u64 = if total == i64::MIN {
            9_223_372_036_854_775_808u64
        } else {
            (-total) as u64
        };
        let q: u64 = m / 60;
        -(q as i64)
    }
}

/// Seconds below one minute in a duration of `total` whole seconds;
/// negative durations keep their sign.
pub fn duration_seconds_part(total: i64) -> (r: i64)
    ensures
        r == trunc_mod(total as int, 60),
{
    if total >= 0 {
        total % 60
    } else {
        let m: u64 = if total == i64::MIN {
            9_223_372_036_854_775_808u64
        } else {
            (-total) as u64
        };
        let q: u64 = m % 60;
        -(q as i64)
    }
}

} // verus!
