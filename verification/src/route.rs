use vstd::prelude::*;
use crate::address::Address;

verus! {

/// The sequence of address names a route traverses, first hop first.
pub open spec fn addr_views(s: Seq<Address>) -> Seq<Seq<char>> {
    s.map_values(|a: Address| a@)
}

/// An ordered path of addresses a message traverses to reach a destination.
/// A route is changed only by explicit structural transformation (such as
/// prepending a hop), never by aliasing shared between callers.
pub struct Route {
    pub hops: Vec<Address>,
}

impl View for Route {
    type V = Seq<Seq<char>>;

    open spec fn view(&self) -> Seq<Seq<char>> {
        addr_views(self.hops@)
    }
}

impl Route {
    pub fn new() -> (r: Route)
        ensures
            r@ == Seq::<Seq<char>>::empty(),
    {
        let r = Route { hops: Vec::new() };
        proof {
            assert(r@ =~= Seq::<Seq<char>>::empty());
        }
        r
    }

    pub fn single(a: Address) -> (r: Route)
        ensures
            r@ == seq![a@],
    {
        let ghost av = a@;
        let mut hops: Vec<Address> = Vec::new();
        hops.push(a);
        let r = Route { hops };
        proof {
            assert(r@ =~= seq![av]);
        }
        r
    }

    /// An empty route is not valid for routing; it may occur only as the
    /// prefix a destination has not yet been inserted into.
    pub fn is_valid(&self) -> (r: bool)
        ensures
            r == (self@.len() > 0),
    {
        self.hops.len() > 0
    }

    pub fn len(&self) -> (r: usize)
        ensures
            r == self@.len(),
    {
        self.hops.len()
    }

    pub fn hop(&self, i: usize) -> (r: &Address)
        requires
            i < self@.len(),
        ensures
            r@ == self@[i as int],
    {
        &self.hops[i]
    }

    /// Produce the effective path that first traverses `a`, then the
    /// remaining hops of the route.
    pub fn prepend(&mut self, a: Address)
        ensures
            final(self)@ == seq![a@] + old(self)@,
    {
        let ghost av = a@;
        let ghost before = self.hops@;
        self.hops.insert(0, a);
        proof {
            assert(self.hops@ =~= seq![self.hops@[0]] + before);
            assert(self@ =~= seq![av] + addr_views(before));
        }
    }
}

impl Clone for Route {
    fn clone(&self) -> (r: Self)
        ensures
            r@ == self@,
    {
        let mut hops: Vec<Address> = Vec::new();
        let mut i: usize = 0;
        while i < self.hops.len()
            invariant
                i <= self.hops.len(),
                hops@ == self.hops@.subrange(0, i as int),
            decreases self.hops.len() - i,
        {
            hops.push(self.hops[i].clone());
            proof {
                assert(hops@ =~= self.hops@.subrange(0, i + 1 as int));
            }
            i += 1;
        }
        proof {
            assert(self.hops@.subrange(0, self.hops@.len() as int) =~= self.hops@);
        }
        let r = Route { hops };
        proof {
            assert(r@ =~= self@);
        }
        r
    }
}

} // verus!
