use vstd::prelude::*;

verus! {

/// A number that the game state keeps in a table of its own, under `amt`.
#[derive(Debug, PartialEq, Eq)]
pub struct Amount<T> {
    pub amt: T,
}

/// The number inside an `{ amt = .. }` table.
pub fn amt<T>(wrapped: Amount<T>) -> (r: T)
    ensures
        r == wrapped.amt,
{
    wrapped.amt
}

/// Keeps a field that was read and drops one that could not be read: the
/// game state leaves some fields unset until they are first used.
pub fn none_on_error<T, E>(read: Result<T, E>) -> (r: Option<T>)
    ensures
        r == match read {
            Ok(v) => Some(v),
            Err(_) => None::<T>,
        },
{
    match read {
        Ok(v) => Some(v),
        Err(_) => None,
    }
}

} // verus!
