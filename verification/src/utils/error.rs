//! The error values of the service, one enum per component.

use vstd::prelude::*;

verus! {

/// Why a directory scan produced no inventory.
#[derive(Clone, Copy, Debug, PartialEq, Eq, Structural)]
pub enum ScanError {
    /// The directory holds no regular file.
    Empty,
    /// Listing or classifying the entries failed.
    Io,
}

/// Why the change watcher is of no use.
#[derive(Clone, Copy, Debug, PartialEq, Eq, Structural)]
pub enum WatcherError {
    /// The watcher could not be created or attached to the directory.
    SetupFailed,
    /// The stream of change signals ended.
    StreamClosed,
}

/// Why the content of an asset could not be loaded.
#[derive(Clone, Copy, Debug, PartialEq, Eq, Structural)]
pub enum LoadError {
    /// The file could not be read.
    Io,
}

/// Why a lookup returned no asset.
#[derive(Clone, Copy, Debug, PartialEq, Eq, Structural)]
pub enum LookupError {
    /// The current inventory holds nothing.
    Empty,
    /// The id is not in the current inventory.
    NotFound,
    /// The asset's file could not be read.
    Io,
}

/// Why the service did not start.
#[derive(Clone, Copy, Debug, PartialEq, Eq, Structural)]
pub enum InitError {
    /// The directory holds no regular file.
    Empty,
    /// The directory could not be read.
    Io,
    /// The directory could not be watched.
    WatcherSetup,
}

impl InitError {
    /// The startup error that a failed first scan becomes.
    pub open spec fn of_scan(e: ScanError) -> InitError {
        match e {
            ScanError::Empty => InitError::Empty,
            ScanError::Io => InitError::Io,
        }
    }

    /// Turns the error of the first scan into a startup error.
    pub fn from_scan(e: ScanError) -> (r: InitError)
        ensures
            r == Self::of_scan(e),
    {
        match e {
            ScanError::Empty => InitError::Empty,
            ScanError::Io => InitError::Io,
        }
    }
}

impl LookupError {
    /// The lookup error that a failed load becomes.
    pub open spec fn of_load(e: LoadError) -> LookupError {
        match e {
            LoadError::Io => LookupError::Io,
        }
    }

    /// Turns the error of a load into a lookup error.
    pub fn from_load(e: LoadError) -> (r: LookupError)
        ensures
            r == Self::of_load(e),
    {
        match e {
            LoadError::Io => LookupError::Io,
        }
    }

    /// Whether the same call may succeed when it is made again: a read that
    /// failed or an id that a reload took away, but not an empty inventory.
    pub fn is_transient(&self) -> (r: bool)
        ensures
            r == !(*self == LookupError::Empty),
    {
        match self {
            LookupError::Empty => false,
            LookupError::NotFound => true,
            LookupError::Io => true,
        }
    }
}

} // verus!
