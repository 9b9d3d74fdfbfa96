//! Reading through a cache: a value that the cache holds is returned without
//! asking the service behind it, and a value that it does not hold is
//! fetched, written to the cache, and returned.

use vstd::prelude::*;
use vstd::string::*;

verus! {

/// What to do about a key after the cache was asked for it.
#[derive(Debug)]
pub enum Lookup<V> {
    /// The cache held the value: the service is not asked.
    Hit(V),
    /// The cache held nothing: the service is to be asked for this key.
    Fetch(String),
}

/// What follows from the answer of the cache: a value that it held is a hit,
/// and nothing is a miss that names the key to fetch.
pub fn after_lookup<V>(key: &str, cached: Option<V>) -> (step: Lookup<V>)
    ensures
        match cached {
            Some(value) => step == Lookup::Hit(value),
            None => step matches Lookup::Fetch(k) && k@ == key@,
        },
{
    match cached {
        Some(value) => Lookup::Hit(value),
        None => Lookup::Fetch(String::from_str(key)),
    }
}

} // verus!
