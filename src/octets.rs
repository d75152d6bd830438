//! Content bytes that are either a view into the decoded buffer or a private copy.
use vstd::prelude::*;
use vstd::slice::slice_to_vec;

verus! {

/// Borrowed from the input when decoded, owned when built by hand.
#[derive(Debug, Clone)]
pub enum Octets<'a> {
    Borrowed(&'a [u8]),
    Owned(Vec<u8>),
}

impl<'a> View for Octets<'a> {
    type V = Seq<u8>;

    open spec fn view(&self) -> Seq<u8> {
        match self {
            Octets::Borrowed(s) => s@,
            Octets::Owned(v) => v@,
        }
    }
}

impl<'a> Octets<'a> {
    pub fn as_slice(&self) -> (r: &[u8])
        ensures
            r@ == self@,
    {
        match self {
            Octets::Borrowed(s) => s,
            Octets::Owned(v) => v.as_slice(),
        }
    }

    pub fn len(&self) -> (r: usize)
        ensures
            r == self@.len(),
    {
        self.as_slice().len()
    }

    /// A copy that no longer borrows from the input.
    pub fn to_owned_octets(&self) -> (r: Octets<'static>)
        ensures
            r@ == self@,
    {
        Octets::Owned(slice_to_vec(self.as_slice()))
    }
}

impl<'a> PartialEq for Octets<'a> {
    fn eq(&self, other: &Octets<'a>) -> (r: bool) {
        let a = self.as_slice();
        let b = other.as_slice();
        if a.len() != b.len() {
            return false;
        }
        let mut i: usize = 0;
        while i < a.len()
            invariant
                i <= a@.len() == b@.len(),
                a@ == self@,
                b@ == other@,
                a@.subrange(0, i as int) == b@.subrange(0, i as int),
            decreases a@.len() - i,
        {
            if a[i] != b[i] {
                return false;
            }
            assert(a@.subrange(0, i + 1) =~= a@.subrange(0, i as int).push(a@[i as int]));
            assert(b@.subrange(0, i + 1) =~= b@.subrange(0, i as int).push(b@[i as int]));
            i = i + 1;
        }
        assert(a@ =~= a@.subrange(0, i as int));
        assert(b@ =~= b@.subrange(0, i as int));
        true
    }
}

impl<'a> vstd::std_specs::cmp::PartialEqSpecImpl for Octets<'a> {
    open spec fn obeys_eq_spec() -> bool {
        true
    }

    open spec fn eq_spec(&self, other: &Octets<'a>) -> bool {
        self@ == other@
    }
}

impl<'a> Eq for Octets<'a> {

}

} // verus!
