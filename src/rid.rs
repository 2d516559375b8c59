use vstd::prelude::*;

verus! {

/// An identifier: an opaque string, unique within the shard that issued it.
#[derive(Debug, Hash)]
pub struct RID(String);

impl View for RID {
    type V = Seq<char>;

    closed spec fn view(&self) -> Seq<char> {
        self.0@
    }
}

impl RID {
    /// Wraps a given value as an identifier, verbatim.
    pub fn new(id: &str) -> (r: RID)
        ensures
            r@ == id@,
    {
        RID(String::from_str(id))
    }

    /// The identifier's text.
    pub fn as_str(&self) -> (r: &str)
        ensures
            r@ == self@,
    {
        self.0.as_str()
    }

    /// The identifier's text, as an owned string.
    pub fn to_string(&self) -> (r: String)
        ensures
            r@ == self@,
    {
        self.0.clone()
    }
}

impl Clone for RID {
    fn clone(&self) -> (r: RID)
        ensures
            r@ == self@,
    {
        RID(self.0.clone())
    }
}

impl PartialEq for RID {
    fn eq(&self, other: &RID) -> (r: bool) {
        self.0 == other.0
    }
}

impl Eq for RID {}

impl vstd::std_specs::cmp::PartialEqSpecImpl for RID {
    open spec fn obeys_eq_spec() -> bool {
        true
    }

    open spec fn eq_spec(&self, other: &RID) -> bool {
        self@ == other@
    }
}

} // verus!
