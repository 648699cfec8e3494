//! The is-default helper: deciding whether a value equals its type's
//! default (zero-like) value.

use vstd::prelude::*;

use crate::with::date_time::Timestamp;

verus! {

/// Types with a default value that a value can be compared against.
pub trait IsDefault: Sized {
    /// The type's default value.
    spec fn default_spec() -> Self;

    /// True exactly when this value is the type's default value.
    fn is_default(&self) -> (r: bool)
        ensures
            r == (*self == Self::default_spec()),
    ;
}

impl IsDefault for bool {
    open spec fn default_spec() -> bool {
        false
    }

    fn is_default(&self) -> (r: bool)
        ensures
            r == (*self == Self::default_spec()),
    {
        !*self
    }
}

impl IsDefault for i64 {
    open spec fn default_spec() -> i64 {
        0
    }

    fn is_default(&self) -> (r: bool)
        ensures
            r == (*self == Self::default_spec()),
    {
        *self == 0
    }
}

impl IsDefault for u64 {
    open spec fn default_spec() -> u64 {
        0
    }

    fn is_default(&self) -> (r: bool)
        ensures
            r == (*self == Self::default_spec()),
    {
        *self == 0
    }
}

impl IsDefault for Timestamp {
    open spec fn default_spec() -> Timestamp {
        Timestamp { year: 0, month: 0, day: 0, hour: 0, minute: 0, second: 0 }
    }

    fn is_default(&self) -> (r: bool)
        ensures
            r == (*self == Self::default_spec()),
    {
        self.year == 0 && self.month == 0 && self.day == 0 && self.hour == 0 && self.minute == 0
            && self.second == 0
    }
}

impl IsDefault for Option<i64> {
    open spec fn default_spec() -> Option<i64> {
        None
    }

    fn is_default(&self) -> (r: bool)
        ensures
            r == (*self == Self::default_spec()),
    {
        match self {
            None => true,
            Some(_) => false,
        }
    }
}

impl IsDefault for Option<Timestamp> {
    open spec fn default_spec() -> Option<Timestamp> {
        None
    }

    fn is_default(&self) -> (r: bool)
        ensures
            r == (*self == Self::default_spec()),
    {
        match self {
            None => true,
            Some(_) => false,
        }
    }
}

} // verus!
