//! Progress accounting for long-running work. Only the counters live here;
//! rendering them on a terminal is a caller concern.

use vstd::prelude::*;

verus! {

/// A named counter running from zero up to a fixed total.
#[derive(Debug)]
pub struct ProgressBar {
    pub name: String,
    pub value: usize,
    pub total: usize,
    pub speed: usize,
}

impl ProgressBar {
    /// A bar at zero of `total` steps, not yet named.
    pub fn new(total: usize) -> (r: ProgressBar)
        ensures
            r.value == 0,
            r.total == total,
            r.speed == 0,
            r.name@.len() == 0,
    {
        ProgressBar { value: 0, total, name: String::new(), speed: 0 }
    }

    /// One step forward; the counter never passes the total.
    pub fn increment(&mut self)
        ensures
            final(self).value == if old(self).value < old(self).total {
                old(self).value + 1
            } else {
                old(self).value as int
            },
            final(self).total == old(self).total,
            final(self).name == old(self).name,
            final(self).speed == old(self).speed,
    {
        if self.value < self.total {
            self.value = self.value + 1;
        }
    }
}

} // verus!
