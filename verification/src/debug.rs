//! A switch for printing what muxed does, shared by every part of a run.

use vstd::prelude::*;
use std::sync::atomic::AtomicBool;
use std::sync::atomic::Ordering;

verus! {

/// Whether debugging output is on. The flag is shared and may change between
/// two reads, so what a read gives is not stated.
pub struct Debug(pub AtomicBool);

impl Debug {
    /// A switch that starts in the given position.
    pub fn new(value: bool) -> Debug {
        Debug(AtomicBool::new(value))
    }

    /// Whether debugging output is on now.
    pub fn load(&self) -> bool {
        self.0.load(Ordering::Relaxed)
    }

    /// Turns debugging output on or off, giving its previous position.
    pub fn swap(&self, value: bool) -> bool {
        self.0.swap(value, Ordering::Relaxed)
    }
}

} // verus!
