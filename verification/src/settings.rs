//! What a lookup of one configuration key gives.

use vstd::prelude::*;

verus! {

/// The outcome of reading one key as a value of the type `T`.
#[derive(Debug, Clone, Copy, PartialEq, Eq)]
pub enum Setting<T> {
    /// The key is not there.
    Missing,
    /// The key is there, but what it holds is no value of the type.
    Invalid,
    /// The key holds this value.
    Value(T),
}

impl<T> Setting<T> {
    /// The value that is used: the one that the key holds, or the one that
    /// stands in for a key that is missing or for one that cannot be read.
    pub open spec fn resolved(self, when_missing: T, when_invalid: T) -> T {
        match self {
            Setting::Missing => when_missing,
            Setting::Invalid => when_invalid,
            Setting::Value(value) => value,
        }
    }

    /// The value that is used where nothing stands in for a key that cannot
    /// be read.
    pub open spec fn present(self, when_missing: T) -> Option<T> {
        match self {
            Setting::Missing => Some(when_missing),
            Setting::Invalid => None,
            Setting::Value(value) => Some(value),
        }
    }

    /// The value that is used: the one that the key holds, or the one that
    /// stands in for a key that is missing or for one that cannot be read.
    pub fn or(self, when_missing: T, when_invalid: T) -> (value: T)
        ensures
            value == self.resolved(when_missing, when_invalid),
    {
        match self {
            Setting::Missing => when_missing,
            Setting::Invalid => when_invalid,
            Setting::Value(value) => value,
        }
    }

    /// The value that the key holds, or the one that stands in for a key
    /// that is missing; nothing for a key that cannot be read.
    pub fn or_missing(self, when_missing: T) -> (value: Option<T>)
        ensures
            value == self.present(when_missing),
    {
        match self {
            Setting::Missing => Some(when_missing),
            Setting::Invalid => None,
            Setting::Value(value) => Some(value),
        }
    }
}

} // verus!
