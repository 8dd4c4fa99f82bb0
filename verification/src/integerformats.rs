use vstd::prelude::*;

verus! {

/// The format integers should be stored as.
#[derive(Debug, Clone, Copy, PartialEq, Eq, Hash, Structural)]
pub enum IntegerFormats {
    /// No integer support at all and numbers are parsed as doubles without overflow behavior.
    NotSupported,
    /// Integers are stored as a double.
    Double,
    /// Integers are stored as a 64-bit signed integer.
    Int64,
}

impl IntegerFormats {
    /// The numeric value of the format.
    pub fn value(&self) -> (r: i32)
        ensures
            r == match *self {
                IntegerFormats::NotSupported => 0i32,
                IntegerFormats::Double => 1i32,
                IntegerFormats::Int64 => 2i32,
            },
    {
        match self {
            IntegerFormats::NotSupported => 0,
            IntegerFormats::Double => 1,
            IntegerFormats::Int64 => 2,
        }
    }
}

} // verus!
