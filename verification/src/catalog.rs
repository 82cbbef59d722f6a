//! A build-once catalog of discovered sensors.
//!
//! Enumerating a pseudo-filesystem or a bus service is expensive, so it
//! is done at most once per process: the host builds one `Catalog` per
//! backend kind, fills it with the first successful discovery result,
//! and every later backend construction reads the same entries. The
//! contract of [`Catalog::fill`] forbids a second fill, so a filled
//! catalog can never be rebuilt or corrupted.

use vstd::prelude::*;

verus! {

/// A slot that is written at most once and read thereafter.
pub struct Catalog<T> {
    slot: Option<T>,
}

impl<T> Catalog<T> {
    /// The catalog has been filled with a discovery result.
    pub closed spec fn is_ready(&self) -> bool {
        self.slot is Some
    }

    /// The discovery result the catalog was filled with.
    pub closed spec fn entries(&self) -> T {
        self.slot->0
    }

    /// An unfilled catalog; discovery has not run yet.
    pub fn empty() -> (c: Catalog<T>)
        ensures
            !c.is_ready(),
    {
        Catalog { slot: None }
    }

    /// Whether discovery already ran, so a caller can skip a re-scan.
    pub fn ready(&self) -> (b: bool)
        ensures
            b == self.is_ready(),
    {
        self.slot.is_some()
    }

    /// Stores the one discovery result. A filled catalog stays as it
    /// is for the life of the process, so filling twice is forbidden.
    pub fn fill(&mut self, value: T)
        requires
            !old(self).is_ready(),
        ensures
            final(self).is_ready(),
            final(self).entries() == value,
    {
        self.slot = Some(value);
    }

    /// Reads the stored entries.
    pub fn get(&self) -> (r: &T)
        requires
            self.is_ready(),
        ensures
            *r == self.entries(),
    {
        match &self.slot {
            Some(v) => v,
            None => vstd::pervasive::unreached(),
        }
    }
}

} // verus!
