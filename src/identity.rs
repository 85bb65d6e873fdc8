use vstd::prelude::*;

verus! {

/// An identity, held as its canonical textual form. Two identities are the same
/// exactly when their texts are equal.
#[derive(Clone, Debug)]
pub struct Principal {
    pub text: String,
}

impl View for Principal {
    type V = Seq<char>;

    open spec fn view(&self) -> Seq<char> {
        self.text@
    }
}

impl Principal {
    pub fn from_text(text: String) -> (r: Principal)
        ensures
            r.text == text,
    {
        Principal { text }
    }

    /// Whether `self` and `other` name the same identity.
    pub fn same_as(&self, other: &Principal) -> (r: bool)
        ensures
            r == (self@ == other@),
    {
        self.text == other.text
    }

    /// An exact copy.
    pub fn copy(&self) -> (r: Principal)
        ensures
            r == *self,
    {
        Principal { text: self.text.clone() }
    }
}

} // verus!
