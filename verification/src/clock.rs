//! The timers of the engine. A timer is made and kept by the host; the rules
//! only let time pass on it and ask whether it has elapsed.

use bevy::time::Timer;
use core::time::Duration;
use vstd::prelude::*;

verus! {

/// The timer `bevy::time::Timer`. What it holds is hidden: a timer is only
/// passed on to `tick` and `is_finished`.
#[verifier::external_type_specification]
#[verifier::external_body]
pub struct ExTimer(bevy::time::Timer);

/// The timer that `Timer::tick` leaves when `delta` passes on `timer`. The
/// engine works it out from what the timer holds and from `delta`, and from
/// nothing else.
pub uninterp spec fn ticked(timer: Timer, delta: Duration) -> Timer;

/// What `Timer::is_finished` answers for `timer`: whether it has elapsed. The
/// answer is kept in the timer.
pub uninterp spec fn elapsed(timer: Timer) -> bool;

/// Lets `delta` pass on the timer, by `Timer::tick`.
///
/// Trusted. The claim is that the timer afterwards is the one that the engine
/// makes of the timer before and of `delta`; no more is said of it.
#[verifier::external_body]
pub(crate) fn tick(timer: &mut Timer, delta: Duration)
    ensures
        *final(timer) == ticked(*old(timer), delta),
{
    timer.tick(delta);
}

/// Whether the timer has elapsed, by `Timer::is_finished`.
///
/// Trusted. The claim is that the answer is the one that the engine gives
/// for this timer; no more is said of it.
#[verifier::external_body]
pub(crate) fn is_finished(timer: &Timer) -> (finished: bool)
    ensures
        finished == elapsed(*timer),
{
    timer.is_finished()
}

} // verus!
