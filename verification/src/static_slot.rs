//! A value set aside for the whole run of the firmware, such as the USB
//! endpoint memory and the second core's stack, lent out by mutable borrow.
use vstd::prelude::*;

verus! {

pub struct StaticSlot<T> {
    value: T,
}

impl<T> StaticSlot<T> {
    pub fn new(value: T) -> (s: Self)
        ensures
            s.inner() == value,
    {
        StaticSlot { value }
    }

    /// The value held.
    pub closed spec fn inner(&self) -> T {
        self.value
    }

    /// Lends the value out; what is written through the borrow is what the
    /// slot holds afterwards.
    pub fn as_mut(&mut self) -> (r: &mut T)
        ensures
            *r == old(self).inner(),
            final(self).inner() == *final(r),
    {
        &mut self.value
    }
}

} // verus!
