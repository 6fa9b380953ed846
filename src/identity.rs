//! The identity under which a participant is registered.
use std::sync::Arc;
use vstd::prelude::*;

verus! {

/// A shared, immutable participant name. Two identities with equal text are
/// the same registry key.
#[derive(Clone, Debug, Eq, PartialEq, Ord, PartialOrd, Hash)]
pub struct ArcString(Arc<String>);

impl View for ArcString {
    type V = Seq<char>;

    closed spec fn view(&self) -> Seq<char> {
        self.0@
    }
}

/// Relies on `Arc::clone`: the new handle points at the same string.
#[verifier::external_body]
fn share_text(a: &Arc<String>) -> (r: Arc<String>)
    ensures
        r@ == a@,
{
    Arc::clone(a)
}

impl ArcString {
    /// Wraps `s` for sharing.
    pub fn new(s: String) -> (r: ArcString)
        ensures
            r@ == s@,
    {
        ArcString(Arc::new(s))
    }

    /// An owned copy of the text.
    pub fn get(&self) -> (r: String)
        ensures
            r@ == self@,
    {
        let s: &String = &self.0;
        s.clone()
    }

    /// The text, borrowed.
    pub fn as_str(&self) -> (r: &str)
        ensures
            r@ == self@,
    {
        let s: &String = &self.0;
        s.as_str()
    }

    /// A second handle on the same text, without copying it.
    pub fn share(&self) -> (r: ArcString)
        ensures
            r@ == self@,
    {
        ArcString(share_text(&self.0))
    }

    /// Whether the two identities have equal text.
    pub fn same(&self, other: &ArcString) -> (r: bool)
        ensures
            r == (self@ == other@),
    {
        let a: &String = &self.0;
        let b: &String = &other.0;
        *a == *b
    }
}

} // verus!
