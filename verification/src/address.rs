use vstd::prelude::*;

verus! {

/// An opaque, comparable name identifying a worker's mailbox endpoint.
/// Equality is structural on the name; an address never implies ownership
/// of the worker it names.
pub struct Address {
    pub name: String,
}

impl View for Address {
    type V = Seq<char>;

    open spec fn view(&self) -> Seq<char> {
        self.name@
    }
}

impl Address {
    pub fn new(name: String) -> (r: Address)
        ensures
            r@ == name@,
    {
        Address { name }
    }

    pub fn from_string(name: &str) -> (r: Address)
        ensures
            r@ == name@,
    {
        Address { name: name.to_owned() }
    }

    pub fn name(&self) -> (r: &str)
        ensures
            r@ == self@,
    {
        self.name.as_str()
    }
}

impl Clone for Address {
    fn clone(&self) -> (r: Self)
        ensures
            r == *self,
    {
        Address { name: self.name.clone() }
    }
}

impl PartialEq for Address {
    fn eq(&self, other: &Self) -> (r: bool) {
        self.name == other.name
    }
}

impl vstd::std_specs::cmp::PartialEqSpecImpl for Address {
    open spec fn obeys_eq_spec() -> bool {
        true
    }

    open spec fn eq_spec(&self, other: &Self) -> bool {
        self@ == other@
    }
}

impl Eq for Address {
}

} // verus!
