//! The source of fresh identifiers.

use std::rc::Rc;
use std::sync::atomic::AtomicUsize;
use std::sync::atomic::Ordering;
use vstd::prelude::*;

verus! {

/// A counter that hands out numbers in increasing order, starting at zero.
/// Clones share the counter, so that no two of them hand out the same number
/// before the counter wraps around.
#[derive(Clone)]
pub struct IdSequence {
    value: Rc<AtomicUsize>,
}

impl IdSequence {
    /// A counter that stands at zero.
    pub fn new() -> IdSequence {
        IdSequence { value: Rc::new(AtomicUsize::new(0)) }
    }

    /// Hands out the number at which the counter stands and steps the
    /// counter. What comes back depends on the calls made so far, on this
    /// value and on its clones: no contract can say which number it is.
    pub fn next(&self) -> usize {
        self.value.fetch_add(1, Ordering::Relaxed)
    }
}

} // verus!
