use vstd::prelude::*;

verus! {

/// A wrapper whose purpose is to keep a (possibly large) value out of
/// diagnostic output.
#[derive(Copy, Clone, PartialEq, Eq, PartialOrd, Ord, Hash)]
pub struct ElideDebug<T>(pub T);

impl<T> ElideDebug<T> {
    pub fn get(&self) -> (r: &T)
        ensures
            *r == self.0,
    {
        &self.0
    }

    pub fn get_mut(&mut self) -> (r: &mut T)
        ensures
            *r == old(self).0,
            final(self).0 == *final(r),
    {
        &mut self.0
    }

    pub fn into(self) -> (r: T)
        ensures
            r == self.0,
    {
        self.0
    }
}

} // verus!
