//! Property-map keys. Keys are owned strings compared character for
//! character, in declaration order; the comparison policy lives here so
//! that the engine itself never spells it out.

use vstd::prelude::*;

verus! {

/// A property-map key.
#[derive(Debug, PartialEq)]
pub struct Key(pub String);

impl View for Key {
    type V = Seq<char>;

    open spec fn view(&self) -> Seq<char> {
        self.0@
    }
}

impl Key {
    /// The key's characters.
    pub fn as_str(&self) -> (r: &str)
        ensures
            r@ == self@,
    {
        self.0.as_str()
    }

    /// Whether this key equals the given string.
    pub fn is(&self, other: &str) -> (r: bool)
        ensures
            r == (self@ == other@),
    {
        crate::text::str_eq(self.0.as_str(), other)
    }
}

/// Conversion of an owned or borrowed string into a [`Key`].
pub trait IntoKey: Sized {
    spec fn key_chars(&self) -> Seq<char>;

    fn into_key(self) -> (k: Key)
        ensures
            k@ == self.key_chars(),
    ;
}

impl IntoKey for String {
    open spec fn key_chars(&self) -> Seq<char> {
        self@
    }

    fn into_key(self) -> (k: Key) {
        Key(self)
    }
}

impl<'a> IntoKey for &'a str {
    open spec fn key_chars(&self) -> Seq<char> {
        self@
    }

    fn into_key(self) -> (k: Key) {
        Key(self.to_owned())
    }
}

} // verus!
