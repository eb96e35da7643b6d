use vstd::prelude::*;

verus! {

/// Writes elements one at a time into a payload region, never past `max`.
///
/// The region owns what was written: abandoning the writer drops exactly the
/// written prefix, and `finish` hands that prefix over instead.
pub struct SliceWriter<T> {
    written: Vec<T>,
    max: usize,
}

impl<T> SliceWriter<T> {
    pub closed spec fn wf(&self) -> bool {
        self.written@.len() <= self.max
    }

    pub closed spec fn written(&self) -> Seq<T> {
        self.written@
    }

    pub closed spec fn max(&self) -> nat {
        self.max as nat
    }

    /// A writer over the empty region `memory`, for at most `max` elements.
    pub fn new(memory: Vec<T>, max: usize) -> (w: Self)
        requires
            memory@.len() == 0,
        ensures
            w.wf(),
            w.written() == Seq::<T>::empty(),
            w.max() == max,
    {
        SliceWriter { written: memory, max }
    }

    pub fn len(&self) -> (r: usize)
        ensures
            r == self.written().len(),
    {
        self.written.len()
    }

    /// Writes `value` into the next slot.
    pub fn write(&mut self, value: T)
        requires
            old(self).wf(),
            old(self).written().len() < old(self).max(),
        ensures
            final(self).wf(),
            final(self).written() == old(self).written().push(value),
            final(self).max() == old(self).max(),
    {
        self.written.push(value);
    }

    /// Disarms the writer: the written prefix passes to the caller.
    pub fn finish(self) -> (r: Vec<T>)
        ensures
            r@ == self.written(),
    {
        self.written
    }
}

} // verus!
