//! The decision at the heart of a timeout: a watched task raced against a
//! clock.

use vstd::prelude::*;

verus! {

/// Which of the two raced sides finished first.
pub enum RaceWinner<T> {
    /// The watched task finished, with its output.
    Task(T),
    /// The clock ran out first.
    Clock,
}

/// Turns the race's outcome into the timeout's result: the task's output if
/// it beat the clock, otherwise the timeout length that was exceeded, in
/// milliseconds.
pub fn timeout<T>(raced: RaceWinner<T>, max_time_ms: u64) -> (r: Result<T, u64>)
    ensures
        match raced {
            RaceWinner::Task(v) => r == Result::<T, u64>::Ok(v),
            RaceWinner::Clock => r == Result::<T, u64>::Err(max_time_ms),
        },
{
    match raced {
        RaceWinner::Task(v) => Ok(v),
        RaceWinner::Clock => Err(max_time_ms),
    }
}

} // verus!
