use vstd::prelude::*;

use crate::roll::Roll;
use rand::distributions::Distribution;
use rand::Rng;

verus! {

/// A source of rolls. `None` means the source is exhausted; the game
/// using it ends early.
pub trait RollGen {
    fn gen(&mut self) -> (r: Option<Roll>)
        ensures
            r matches Some(x) ==> x.wf(),
    ;
}

/// Holds rand's WeightedIndex over u64 weights, the table for sampling an
/// index with probability proportional to its weight. Verus refuses the
/// type's own declaration (its trait bounds), so the holder is opaque.
#[verifier::external_body]
#[derive(Debug)]
pub struct WeightedTable {
    dist: rand::distributions::WeightedIndex<u64>,
}

/// The weights a `WeightedTable` was built from.
pub uninterp spec fn wi_weights(d: WeightedTable) -> Seq<u64>;

/// Sum of a list of weights.
pub open spec fn weight_sum(s: Seq<u64>) -> int
    decreases s.len(),
{
    if s.len() == 0 {
        0
    } else {
        weight_sum(s.drop_last()) + s.last()
    }
}

/// Relies on rand's WeightedIndex::new: given at least one weight and a
/// positive total that its summation does not overflow, it builds the
/// sampling table for exactly these weights (for u64 weights no weight
/// can be negative, the remaining error case).
#[verifier::external_body]
fn wi_new(weights: &Vec<u64>) -> (d: WeightedTable)
    requires
        weights@.len() > 0,
        0 < weight_sum(weights@) <= u64::MAX,
    ensures
        wi_weights(d) == weights@,
{
    WeightedTable { dist: rand::distributions::WeightedIndex::new(weights).unwrap() }
}

/// Relies on rand's WeightedIndex::sample: it returns the index of one of
/// the table's weights, each with probability proportional to its weight,
/// so never an index whose weight is zero.
#[verifier::external_body]
fn wi_sample(d: &WeightedTable) -> (i: usize)
    ensures
        i < wi_weights(*d).len(),
        wi_weights(*d)[i as int] > 0,
{
    d.dist.sample(&mut rand::thread_rng())
}

/// Relies on rand's Rng::gen_range on a half-open range: a uniform value
/// in [lo, hi), panicking only on an empty range.
#[verifier::external_body]
fn gen_die_range(lo: u8, hi: u8) -> (d: u8)
    requires
        lo < hi,
    ensures
        lo <= d < hi,
{
    rand::thread_rng().gen_range(lo..hi)
}

/// Rolls generated from one weight per face of each die.
#[derive(Debug)]
pub struct DieWeights {
    dist1: WeightedTable,
    dist2: WeightedTable,
    given1: [u64; 6],
    given2: [u64; 6],
}

impl DieWeights {
    /// The two weight lists the generator was built from.
    pub closed spec fn spec_given(self) -> (Seq<u64>, Seq<u64>) {
        (self.given1@, self.given2@)
    }

    #[verifier::type_invariant]
    spec fn type_inv(self) -> bool {
        wi_weights(self.dist1).len() == 6 && wi_weights(self.dist2).len() == 6
    }

    /// A fair pair of dice: every face carries the same weight.
    pub fn new_fair() -> (w: Self)
        ensures
            w.spec_given().0 =~= seq![1u64, 1u64, 1u64, 1u64, 1u64, 1u64],
            w.spec_given().1 =~= seq![1u64, 1u64, 1u64, 1u64, 1u64, 1u64],
    {
        let fair: [u64; 6] = [1;6];
        proof {
            reveal_with_fuel(weight_sum, 8);
            assert(fair@ =~= seq![1u64, 1u64, 1u64, 1u64, 1u64, 1u64]);
            assert(weight_sum(fair@) == 6);
        }
        Self::new_weights(fair)
    }

    /// Both dice weighted alike.
    pub fn new_weights(w: [u64; 6]) -> (r: Self)
        requires
            0 < weight_sum(w@) <= u64::MAX,
        ensures
            r.spec_given().0 == w@,
            r.spec_given().1 == w@,
    {
        Self::new_weights2(w, w)
    }

    /// Each die weighted on its own.
    pub fn new_weights2(w1: [u64; 6], w2: [u64; 6]) -> (r: Self)
        requires
            0 < weight_sum(w1@) <= u64::MAX,
            0 < weight_sum(w2@) <= u64::MAX,
        ensures
            r.spec_given().0 == w1@,
            r.spec_given().1 == w2@,
    {
        let v1 = array6_to_vec(w1);
        let v2 = array6_to_vec(w2);
        let dist1 = wi_new(&v1);
        let dist2 = wi_new(&v2);
        DieWeights { dist1, dist2, given1: w1, given2: w2 }
    }
}

impl RollGen for DieWeights {
    /// Sample each die from its weights; a zero-weight face never shows.
    fn gen(&mut self) -> (r: Option<Roll>) {
        proof {
            use_type_invariant(&*self);
        }
        let i1 = wi_sample(&self.dist1);
        let i2 = wi_sample(&self.dist2);
        let d1 = (i1 as u8) + 1;
        let d2 = (i2 as u8) + 1;
        match Roll::new([d1, d2]) {
            Ok(roll) => Some(roll),
            Err(_) => {
                proof {
                    assert(false);
                }
                None
            },
        }
    }
}

fn array6_to_vec(w: [u64; 6]) -> (v: Vec<u64>)
    ensures
        v@ == w@,
{
    let mut v: Vec<u64> = Vec::new();
    v.push(w[0]);
    v.push(w[1]);
    v.push(w[2]);
    v.push(w[3]);
    v.push(w[4]);
    v.push(w[5]);
    proof {
        assert(v@ =~= w@);
    }
    v
}

/// Rolls generated from one weight per total, 2 through 12; the two dice
/// are then split uniformly among the pairs making that total.
#[derive(Debug)]
pub struct RollWeights {
    dist: WeightedTable,
    given: [u64; 11],
}

impl RollWeights {
    /// The weight list the generator was built from.
    pub closed spec fn spec_given(self) -> Seq<u64> {
        self.given@
    }

    #[verifier::type_invariant]
    spec fn type_inv(self) -> bool {
        wi_weights(self.dist).len() == 11
    }

    /// Every total equally weighted (which is not a fair pair of dice).
    pub fn new_fair() -> (w: Self)
        ensures
            w.spec_given() =~= seq![
                1u64,
                1u64,
                1u64,
                1u64,
                1u64,
                1u64,
                1u64,
                1u64,
                1u64,
                1u64,
                1u64,
            ],
    {
        let fair: [u64; 11] = [1;11];
        proof {
            reveal_with_fuel(weight_sum, 13);
            assert(fair@ =~= seq![
                1u64,
                1u64,
                1u64,
                1u64,
                1u64,
                1u64,
                1u64,
                1u64,
                1u64,
                1u64,
                1u64,
            ]);
            assert(weight_sum(fair@) == 11);
        }
        Self::new_weights(fair)
    }

    pub fn new_weights(w: [u64; 11]) -> (r: Self)
        requires
            0 < weight_sum(w@) <= u64::MAX,
        ensures
            r.spec_given() == w@,
    {
        let v = array11_to_vec(w);
        let dist = wi_new(&v);
        RollWeights { dist, given: w }
    }
}

impl RollGen for RollWeights {
    /// Sample the total from the weights, then pick the first die
    /// uniformly among the pairs that make it.
    fn gen(&mut self) -> (r: Option<Roll>) {
        proof {
            use_type_invariant(&*self);
        }
        let i = wi_sample(&self.dist);
        let v = (i as u8) + 2;
        let d1 = if v <= 7 {
            gen_die_range(1, v)
        } else {
            gen_die_range(v - 6, 7)
        };
        let d2 = v - d1;
        match Roll::new([d1, d2]) {
            Ok(roll) => Some(roll),
            Err(_) => {
                proof {
                    assert(false);
                }
                None
            },
        }
    }
}

fn array11_to_vec(w: [u64; 11]) -> (v: Vec<u64>)
    ensures
        v@ == w@,
{
    let mut v: Vec<u64> = Vec::new();
    v.push(w[0]);
    v.push(w[1]);
    v.push(w[2]);
    v.push(w[3]);
    v.push(w[4]);
    v.push(w[5]);
    v.push(w[6]);
    v.push(w[7]);
    v.push(w[8]);
    v.push(w[9]);
    v.push(w[10]);
    proof {
        assert(v@ =~= w@);
    }
    v
}

/// Replays a recorded list of rolls in order, then reports exhaustion.
#[derive(Debug)]
pub struct GivenRolls {
    rolls: Vec<Roll>,
    idx: usize,
}

impl GivenRolls {
    /// How many rolls are left to replay.
    pub closed spec fn spec_remaining(self) -> int {
        self.rolls@.len() - self.idx
    }

    #[verifier::type_invariant]
    spec fn type_inv(self) -> bool {
        &&& forall|i: int| 0 <= i < self.rolls@.len() ==> (#[trigger] self.rolls@[i]).wf()
        &&& self.idx <= self.rolls@.len()
    }

    pub fn new(rolls: Vec<Roll>) -> (g: Self)
        requires
            forall|i: int| 0 <= i < rolls@.len() ==> (#[trigger] rolls@[i]).wf(),
        ensures
            g.spec_remaining() == rolls@.len(),
    {
        GivenRolls { rolls, idx: 0 }
    }
}

impl RollGen for GivenRolls {
    /// The next recorded roll, or `None` once all are replayed.
    fn gen(&mut self) -> (r: Option<Roll>) {
        proof {
            use_type_invariant(&*self);
        }
        if self.idx >= self.rolls.len() {
            None
        } else {
            let r = self.rolls[self.idx];
            self.idx = self.idx + 1;
            Some(r)
        }
    }
}

} // verus!
