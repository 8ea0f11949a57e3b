//! Values that read from and render to the short time notation.
use vstd::prelude::*;

verus! {

/// A value written as a short duration such as `8:15`, `45m` or `8`.
pub trait Parsable where Self: Sized {
    /// Reads a value from its short notation.
    fn from_str(text: &str) -> Result<Self, String>;

    /// Renders the value as `HH:MM`.
    fn to_hhmm(&self) -> String;
}

} // verus!
