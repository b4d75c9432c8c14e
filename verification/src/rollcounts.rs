use vstd::prelude::*;

use crate::roll::Roll;

verus! {

/// Tallies of rolls seen: one count per total (2 through 12) and one per
/// hard way (4, 6, 8 or 10 rolled as doubles).
#[derive(Debug, Copy, Clone)]
pub struct RollCounts {
    pub all: [u32; 11],
    pub hard: [u32; 4],
}

impl RollCounts {
    /// Count one roll under its total, and under its hard-way tally when
    /// the dice came as qualifying doubles.
    pub fn add(&mut self, r: Roll)
        requires
            r.wf(),
            old(self).all[r.spec_value() - 2] < u32::MAX,
            r.spec_is_hard() ==> old(self).hard[r.spec_value() / 2 - 2] < u32::MAX,
        ensures
            final(self).all@ == old(self).all@.update(
                r.spec_value() - 2,
                (old(self).all[r.spec_value() - 2] + 1) as u32,
            ),
            r.spec_is_hard() ==> final(self).hard@ == old(self).hard@.update(
                r.spec_value() / 2 - 2,
                (old(self).hard[r.spec_value() / 2 - 2] + 1) as u32,
            ),
            !r.spec_is_hard() ==> final(self).hard@ == old(self).hard@,
    {
        if r.is_hard() {
            let v = r.value();
            let hidx = (v / 2) - 2;
            self.hard[hidx as usize] = self.hard[hidx as usize] + 1;
        }
        let idx = r.value() - 2;
        self.all[idx as usize] = self.all[idx as usize] + 1;
    }
}

impl Default for RollCounts {
    /// Fresh tallies: every count zero.
    fn default() -> (c: Self)
        ensures
            forall|i: int| 0 <= i < 11 ==> c.all@[i] == 0,
            forall|i: int| 0 <= i < 4 ==> c.hard@[i] == 0,
    {
        RollCounts { all: [0;11], hard: [0;4] }
    }
}

} // verus!
