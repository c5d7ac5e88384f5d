//! Progress accounting for the sampling pass.

use vstd::prelude::*;

verus! {

/// Counter of completed grid cells. Workers report each completed cell here;
/// the surrounding program forwards the totals to whatever progress display
/// it uses.
#[derive(Clone, Copy, Debug)]
pub struct ProgressCounter {
    /// Number of cells reported complete so far.
    pub count: u64,
}

impl ProgressCounter {
    /// A fresh counter with nothing reported yet.
    pub fn new() -> (counter: ProgressCounter)
        ensures
            counter.count == 0,
    {
        ProgressCounter { count: 0 }
    }

    /// Report `cells` more cells complete.
    pub fn increment(&mut self, cells: u64)
        requires
            old(self).count + cells <= u64::MAX,
        ensures
            final(self).count == old(self).count + cells,
    {
        self.count = self.count + cells;
    }
}

} // verus!
