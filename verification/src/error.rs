use vstd::prelude::*;

verus! {

/// Errors of the badge core. `MissingPart` and `EmptyScale` are
/// configuration errors raised at startup; `CounterUnavailable` is a
/// per-request error raised when the shared counter lock cannot be
/// acquired safely.
#[derive(Clone, Copy, Debug, PartialEq, Eq, Structural)]
pub enum Error {
    /// The template document split on the marker yields fewer than three parts.
    MissingPart,
    /// The color-scale source contains no non-empty line.
    EmptyScale,
    /// The shared view-counter guard could not be acquired.
    CounterUnavailable,
}

impl Error {
    /// A short textual description of the error.
    pub fn message(&self) -> (r: String)
        ensures
            r@ == match *self {
                Error::MissingPart => "MissingPart"@,
                Error::EmptyScale => "EmptyScale"@,
                Error::CounterUnavailable => "CounterUnavailable"@,
            },
    {
        match self {
            Error::MissingPart => String::from_str("MissingPart"),
            Error::EmptyScale => String::from_str("EmptyScale"),
            Error::CounterUnavailable => String::from_str("CounterUnavailable"),
        }
    }
}

} // verus!
