use vstd::prelude::*;

use crate::bet::valid_point;
use crate::roll::Roll;

verus! {

/// What every player sees of the table: the table point, if one is on, and
/// the last roll, if any roll has been made yet.
#[derive(Debug, Copy, Clone)]
pub struct TableState {
    pub point: Option<u8>,
    pub last_roll: Option<Roll>,
}

/// The table point after a roll of value `v`: a come-out roll of a point
/// value puts the point on, a seven while the point is on takes it off,
/// and every other roll leaves it as it was.
pub open spec fn next_point(cur: Option<u8>, v: int) -> Option<u8> {
    if cur is None && valid_point(v as u8) && 2 <= v <= 12 {
        Some(v as u8)
    } else if cur is Some && v == 7 {
        None
    } else {
        cur
    }
}

impl TableState {
    /// The point, when on, is a legal point value, and the last roll, when
    /// there is one, is a legal roll.
    pub open spec fn wf(self) -> bool {
        &&& self.point matches Some(p) ==> valid_point(p)
        &&& self.last_roll matches Some(r) ==> r.wf()
    }

    /// A fresh table: come-out phase, no roll yet.
    pub fn new() -> (s: Self)
        ensures
            s.point is None,
            s.last_roll is None,
            s.wf(),
    {
        TableState { point: None, last_roll: None }
    }

    /// Record a roll and step the point state machine.
    pub fn apply_roll(&mut self, r: Roll)
        requires
            r.wf(),
            old(self).wf(),
        ensures
            final(self).last_roll == Some(r),
            final(self).point == next_point(old(self).point, r.spec_value()),
            final(self).wf(),
    {
        self.last_roll = Some(r);
        let v = r.value();
        if self.point.is_none() && crate::bet::is_valid_point(v) {
            self.point = Some(v);
        } else if self.point.is_some() && v == 7 {
            self.point = None;
        }
    }
}

} // verus!
