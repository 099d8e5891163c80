use vstd::prelude::*;

verus! {

/// The source of proxy handles that stand for objects on the other side.
///
/// Handles count up from 1; the counter wraps around as an atomic
/// `fetch_add` does.
pub struct HandleCounter {
    next: usize,
}

impl HandleCounter {
    /// The handle that the next call hands out.
    pub closed spec fn peek(&self) -> usize {
        self.next
    }

    /// A counter whose first handle is 1.
    pub fn new() -> (c: Self)
        ensures
            c.peek() == 1,
    {
        HandleCounter { next: 1 }
    }
}

/// Hands out the next proxy handle.
pub fn next_handle(counter: &mut HandleCounter) -> (h: usize)
    ensures
        h == old(counter).peek(),
        final(counter).peek() == old(counter).peek().wrapping_add(1),
{
    let h = counter.next;
    counter.next = h.wrapping_add(1);
    h
}

/// Handles taken one after the other from a counter that has not wrapped
/// are told apart: each is one more than the one before.
pub proof fn lemma_handles_distinct(first: usize, second: usize)
    requires
        first < usize::MAX,
        second == first.wrapping_add(1),
    ensures
        second == first + 1,
        second != first,
{
}

} // verus!
