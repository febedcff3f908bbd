//! Names of records and fields, compared by their text.
use vstd::prelude::*;

verus! {

/// A name handle. Two handles are equal exactly when their texts are equal.
#[derive(Debug, Hash)]
pub struct SharedName {
    text: String,
}

impl View for SharedName {
    type V = Seq<char>;

    closed spec fn view(&self) -> Seq<char> {
        self.text@
    }
}

impl SharedName {
    pub fn as_str(&self) -> (r: &str)
        ensures
            r@ == self@,
    {
        self.text.as_str()
    }

    /// Whether the two names have the same text.
    pub fn same(&self, other: &SharedName) -> (r: bool)
        ensures
            r == (self@ == other@),
    {
        self.text == other.text
    }
}

impl Clone for SharedName {
    fn clone(&self) -> (r: Self)
        ensures
            r@ == self@,
    {
        SharedName { text: self.text.clone() }
    }
}

impl PartialEq for SharedName {
    fn eq(&self, other: &SharedName) -> (r: bool) {
        self.text == other.text
    }
}

impl vstd::std_specs::cmp::PartialEqSpecImpl for SharedName {
    open spec fn obeys_eq_spec() -> bool {
        true
    }

    open spec fn eq_spec(&self, other: &SharedName) -> bool {
        self@ == other@
    }
}

impl Eq for SharedName {
}

/// The handle for the text `s`.
pub fn intern_name(s: &str) -> (r: SharedName)
    ensures
        r@ == s@,
{
    SharedName { text: String::from_str(s) }
}

} // verus!
