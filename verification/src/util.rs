use vstd::prelude::*;

verus! {

/// A value that is either held or borrowed for writing.
pub enum MaybeOwned<'a, T> {
    Owned(T),
    Borrowed(&'a mut T),
}

impl<'a, T> MaybeOwned<'a, T> {
    /// The value, whoever holds it.
    pub open spec fn value(&self) -> T {
        match self {
            MaybeOwned::Owned(x) => *x,
            MaybeOwned::Borrowed(x) => **x,
        }
    }

    /// The value, for reading.
    pub fn get(&self) -> (r: &T)
        ensures
            *r == self.value(),
    {
        match self {
            MaybeOwned::Owned(x) => x,
            MaybeOwned::Borrowed(x) => &**x,
        }
    }

    /// The value, for writing.
    pub fn get_mut(&mut self) -> (r: &mut T)
        ensures
            *r == old(self).value(),
            final(self).value() == *final(r),
            (*final(self) is Owned) <==> (*old(self) is Owned),
    {
        match self {
            MaybeOwned::Owned(x) => x,
            MaybeOwned::Borrowed(x) => &mut **x,
        }
    }
}

} // verus!
