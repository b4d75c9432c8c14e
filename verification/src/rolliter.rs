use vstd::prelude::*;

use crate::roll::Roll;

verus! {

/// The die faces a stream of bytes names: each ASCII digit from 1 to 6
/// (bytes 49 through 54) counts as a face, in order; every other byte is
/// skipped.
pub open spec fn die_faces(s: Seq<u8>) -> Seq<u8>
    decreases s.len(),
{
    if s.len() == 0 {
        Seq::empty()
    } else {
        die_faces(s.drop_last()) + if 49 <= s.last() <= 54 {
            seq![(s.last() - 48) as u8]
        } else {
            Seq::empty()
        }
    }
}

proof fn lemma_die_faces_push(s: Seq<u8>, b: u8)
    ensures
        die_faces(s.push(b)) == die_faces(s) + if 49 <= b <= 54 {
            seq![(b - 48) as u8]
        } else {
            Seq::<u8>::empty()
        },
{
    assert(s.push(b).drop_last() =~= s);
    assert(s.push(b).last() == b);
}

/// Reads rolls spelled out as text: every digit from 1 to 6 is a die
/// face, anything else is skipped, and each consecutive pair of faces is
/// one roll. A trailing unpaired face yields nothing.
pub struct RollIter {
    pub faces: Vec<u8>,
    pub pos: usize,
}

impl RollIter {
    /// Every parsed face is a legal die face, and the cursor is inside
    /// the face list.
    pub open spec fn wf(self) -> bool {
        &&& forall|i: int| 0 <= i < self.faces@.len() ==> 1 <= #[trigger] self.faces@[i] <= 6
        &&& self.pos <= self.faces@.len()
    }

    /// Parse the input's digits into die faces, ready to be paired.
    pub fn new(input: Vec<u8>) -> (it: Self)
        ensures
            it.faces@ == die_faces(input@),
            it.pos == 0,
            it.wf(),
    {
        let mut faces: Vec<u8> = Vec::new();
        let n = input.len();
        let mut i: usize = 0;
        while i < n
            invariant
                0 <= i <= n,
                n == input@.len(),
                faces@ == die_faces(input@.subrange(0, i as int)),
                forall|k: int| 0 <= k < faces@.len() ==> 1 <= #[trigger] faces@[k] <= 6,
            decreases n - i,
        {
            let b = input[i];
            proof {
                assert(input@.subrange(0, i as int + 1) =~= input@.subrange(0, i as int).push(
                    input@[i as int],
                ));
                lemma_die_faces_push(input@.subrange(0, i as int), input@[i as int]);
            }
            if 49 <= b && b <= 54 {
                faces.push(b - 48);
            }
            i += 1;
        }
        proof {
            assert(input@.subrange(0, n as int) =~= input@);
        }
        RollIter { faces, pos: 0 }
    }

    /// The next roll: the pair of faces at the cursor, or nothing when
    /// fewer than two faces remain.
    pub fn next_roll(&mut self) -> (r: Option<Roll>)
        requires
            old(self).wf(),
        ensures
            final(self).wf(),
            final(self).faces@ == old(self).faces@,
            old(self).pos + 2 <= old(self).faces@.len() ==> {
                &&& final(self).pos == old(self).pos + 2
                &&& r matches Some(roll) && roll.0[0] == old(self).faces@[old(self).pos as int]
                    && roll.0[1] == old(self).faces@[old(self).pos + 1] && roll.wf()
            },
            old(self).pos + 2 > old(self).faces@.len() ==> r is None && final(self).pos == old(
                self,
            ).pos,
    {
        if self.faces.len() - self.pos >= 2 {
            let d1 = self.faces[self.pos];
            let d2 = self.faces[self.pos + 1];
            self.pos = self.pos + 2;
            match Roll::new([d1, d2]) {
                Ok(roll) => Some(roll),
                Err(_) => {
                    proof {
                        assert(false);
                    }
                    None
                },
            }
        } else {
            None
        }
    }
}

/// How often `face` shows on die `which` (0 or 1) across a list of rolls.
pub open spec fn die_count(s: Seq<Roll>, which: int, face: int) -> int
    decreases s.len(),
{
    if s.len() == 0 {
        0
    } else {
        die_count(s.drop_last(), which, face) + if s.last().0[which] == face {
            1int
        } else {
            0int
        }
    }
}

/// How often a list of rolls totals `v`.
pub open spec fn value_count(s: Seq<Roll>, v: int) -> int
    decreases s.len(),
{
    if s.len() == 0 {
        0
    } else {
        value_count(s.drop_last(), v) + if s.last().spec_value() == v {
            1int
        } else {
            0int
        }
    }
}

proof fn lemma_counts_push(s: Seq<Roll>, r: Roll, which: int, face: int, v: int)
    ensures
        die_count(s.push(r), which, face) == die_count(s, which, face) + if r.0[which] == face {
            1int
        } else {
            0int
        },
        value_count(s.push(r), v) == value_count(s, v) + if r.spec_value() == v {
            1int
        } else {
            0int
        },
{
    assert(s.push(r).drop_last() =~= s);
    assert(s.push(r).last() == r);
}

/// Tally each die's faces over a list of rolls: entry `f - 1` of each
/// array says how often face `f` showed on that die.
pub fn die_weights_from_iter(rolls: &Vec<Roll>) -> (d: ([u64; 6], [u64; 6]))
    requires
        forall|i: int| 0 <= i < rolls@.len() ==> (#[trigger] rolls@[i]).wf(),
    ensures
        forall|f: int| 1 <= f <= 6 ==> #[trigger] d.0@[f - 1] == die_count(rolls@, 0, f),
        forall|f: int| 1 <= f <= 6 ==> #[trigger] d.1@[f - 1] == die_count(rolls@, 1, f),
{
    let mut d1: [u64; 6] = [0;6];
    let mut d2: [u64; 6] = [0;6];
    let n = rolls.len();
    let mut i: usize = 0;
    while i < n
        invariant
            0 <= i <= n,
            n == rolls@.len(),
            forall|k: int| 0 <= k < rolls@.len() ==> (#[trigger] rolls@[k]).wf(),
            forall|f: int| 1 <= f <= 6 ==> #[trigger] d1@[f - 1] == die_count(
                rolls@.subrange(0, i as int),
                0,
                f,
            ),
            forall|f: int| 1 <= f <= 6 ==> #[trigger] d2@[f - 1] == die_count(
                rolls@.subrange(0, i as int),
                1,
                f,
            ),
            forall|j: int| 0 <= j < 6 ==> #[trigger] d1@[j] <= i,
            forall|j: int| 0 <= j < 6 ==> #[trigger] d2@[j] <= i,
        decreases n - i,
    {
        let r = rolls[i];
        proof {
            assert(rolls@.subrange(0, i as int + 1) =~= rolls@.subrange(0, i as int).push(
                rolls@[i as int],
            ));
            assert forall|f: int| 1 <= f <= 6 implies die_count(
                rolls@.subrange(0, i as int + 1),
                0,
                f,
            ) == die_count(rolls@.subrange(0, i as int), 0, f) + (if rolls@[i as int].0[0] == f {
                1int
            } else {
                0int
            }) && die_count(rolls@.subrange(0, i as int + 1), 1, f) == die_count(
                rolls@.subrange(0, i as int),
                1,
                f,
            ) + (if rolls@[i as int].0[1] == f {
                1int
            } else {
                0int
            }) by {
                lemma_counts_push(rolls@.subrange(0, i as int), rolls@[i as int], 0, f, 0);
                lemma_counts_push(rolls@.subrange(0, i as int), rolls@[i as int], 1, f, 0);
            }
        }
        let f0 = r.0[0];
        let f1 = r.0[1];
        d1[(f0 - 1) as usize] = d1[(f0 - 1) as usize] + 1;
        d2[(f1 - 1) as usize] = d2[(f1 - 1) as usize] + 1;
        i += 1;
    }
    proof {
        assert(rolls@.subrange(0, n as int) =~= rolls@);
    }
    (d1, d2)
}

/// Tally roll totals over a list of rolls: entry `v - 2` says how often
/// the total `v` was rolled.
pub fn roll_weights_from_iter(rolls: &Vec<Roll>) -> (d: [u64; 11])
    requires
        forall|i: int| 0 <= i < rolls@.len() ==> (#[trigger] rolls@[i]).wf(),
    ensures
        forall|v: int| 2 <= v <= 12 ==> #[trigger] d@[v - 2] == value_count(rolls@, v),
{
    let mut d: [u64; 11] = [0;11];
    let n = rolls.len();
    let mut i: usize = 0;
    while i < n
        invariant
            0 <= i <= n,
            n == rolls@.len(),
            forall|k: int| 0 <= k < rolls@.len() ==> (#[trigger] rolls@[k]).wf(),
            forall|v: int| 2 <= v <= 12 ==> #[trigger] d@[v - 2] == value_count(
                rolls@.subrange(0, i as int),
                v,
            ),
            forall|j: int| 0 <= j < 11 ==> #[trigger] d@[j] <= i,
        decreases n - i,
    {
        let r = rolls[i];
        proof {
            assert(rolls@.subrange(0, i as int + 1) =~= rolls@.subrange(0, i as int).push(
                rolls@[i as int],
            ));
            assert forall|v: int| 2 <= v <= 12 implies value_count(
                rolls@.subrange(0, i as int + 1),
                v,
            ) == value_count(rolls@.subrange(0, i as int), v) + (if rolls@[i as int].spec_value()
                == v {
                1int
            } else {
                0int
            }) by {
                lemma_counts_push(rolls@.subrange(0, i as int), rolls@[i as int], 0, 1, v);
            }
        }
        let v = r.value();
        d[(v - 2) as usize] = d[(v - 2) as usize] + 1;
        i += 1;
    }
    proof {
        assert(rolls@.subrange(0, n as int) =~= rolls@);
    }
    d
}

} // verus!
