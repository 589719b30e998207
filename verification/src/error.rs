//! The errors of the library.

use vstd::prelude::*;

verus! {

/// What went wrong in a driver.
#[derive(Clone, Copy, Debug, PartialEq, Eq, Structural)]
pub enum DriverFault {
    /// The diff driver got fewer than seven arguments.
    DiffArguments,
    /// The merge driver got fewer than five arguments.
    MergeArguments,
    /// The merge left conflicts to resolve by hand.
    Conflicts,
}

/// An error of the library.
#[derive(Clone, Copy, Debug, PartialEq, Eq, Structural)]
pub enum Error {
    /// A file or a stream could not be read or written.
    Io,
    /// The configuration could not be read.
    Config,
    /// The text could not be parsed into a tree.
    Parsing,
    /// A tree could not be encoded or decoded.
    Serialization,
    /// No text could be generated from a tree.
    Generation,
    /// A driver failed.
    Driver(DriverFault),
}

} // verus!
