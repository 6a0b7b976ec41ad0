//! Opaque party identities.
//!
//! An `Identity` is the unique handle of an authenticated caller, carried
//! here as its textual form.  The anonymous (unauthenticated) caller is
//! represented by the empty text, which no registered party ever has.

use vstd::prelude::*;

verus! {

/// A party's unique handle, in textual form.
#[derive(Debug)]
pub struct Identity {
    pub text: String,
}

impl View for Identity {
    type V = Seq<char>;

    open spec fn view(&self) -> Seq<char> {
        self.text@
    }
}

impl Identity {
    /// Wraps a textual handle.
    pub fn new(text: String) -> (r: Identity)
        ensures
            r@ == text@,
    {
        Identity { text }
    }

    /// The anonymous caller: the empty textual handle.
    pub fn anonymous() -> (r: Identity)
        ensures
            r@ == Seq::<char>::empty(),
    {
        Identity { text: String::new() }
    }

    /// Whether this is the anonymous caller.
    pub fn is_anonymous(&self) -> (r: bool)
        ensures
            r == (self@.len() == 0),
    {
        self.text.as_str().is_empty()
    }

    /// Textual-handle equality.
    pub fn same_as(&self, other: &Identity) -> (r: bool)
        ensures
            r == (self@ == other@),
    {
        self.text == other.text
    }

    /// An owned copy of this identity.
    pub fn duplicate(&self) -> (r: Identity)
        ensures
            r@ == self@,
    {
        Identity { text: self.text.clone() }
    }
}

/// The character sequence of an optional identity.
pub open spec fn opt_id_view(o: Option<Identity>) -> Option<Seq<char>> {
    match o {
        Some(id) => Some(id@),
        None => None,
    }
}

} // verus!
