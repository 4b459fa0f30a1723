//! Names of wire formats.
use vstd::prelude::*;

use crate::text::str_eq;

verus! {

/// The registry key of a wire format.
#[derive(Debug)]
pub struct FormatId {
    pub key: String,
}

impl View for FormatId {
    type V = Seq<char>;

    open spec fn view(&self) -> Seq<char> {
        self.key@
    }
}

impl Clone for FormatId {
    fn clone(&self) -> (copy: Self)
        ensures
            copy@ == self@,
    {
        FormatId { key: self.key.clone() }
    }
}

impl FormatId {
    /// The format with the key `key`.
    pub fn new(key: &str) -> (id: Self)
        ensures
            id@ == key@,
    {
        FormatId { key: key.to_owned() }
    }

    /// The key.
    pub fn as_str(&self) -> (key: &str)
        ensures
            key@ == self@,
    {
        self.key.as_str()
    }

    /// Whether this is the format with the key `key`.
    pub fn is(&self, key: &str) -> (same: bool)
        ensures
            same == (self@ == key@),
    {
        str_eq(self.key.as_str(), key)
    }
}

} // verus!
