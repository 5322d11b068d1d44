use vstd::prelude::*;

verus! {

/// The error raised when the environment reports an elapsed-day count
/// from before the game's epoch: the count cannot be negative.
#[derive(Debug, Clone, Copy, PartialEq, Eq, Structural)]
pub struct DayIndexError;

/// Turns the elapsed-day count the environment reports since the game's
/// epoch into a day index for the word bank, rejecting a negative count.
/// The caller supplies the count, so the library itself stays free of any
/// calendar or clock dependency.
pub fn day_index_from_elapsed(days: i64) -> (r: Result<usize, DayIndexError>)
    requires
        days as int <= usize::MAX as int,
    ensures
        r is Ok <==> days >= 0,
        days >= 0 ==> r == Ok::<usize, DayIndexError>(days as usize),
{
    if days < 0 {
        Err(DayIndexError)
    } else {
        Ok(days as usize)
    }
}

} // verus!
