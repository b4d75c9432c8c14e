use vstd::prelude::*;

verus! {

/// Error produced when a die face lies outside 1..=6.
#[derive(Debug)]
pub enum RollError {
    OutOfRange(u8),
}

/// An immutable two-die outcome. `Roll::new` validates that both faces lie
/// in 1..=6; every roll the rest of the crate reasons about satisfies `wf`.
#[derive(Debug, Copy, Clone, PartialEq)]
pub struct Roll(pub [u8; 2]);

impl Roll {
    /// Both die faces lie in 1..=6.
    pub open spec fn wf(self) -> bool {
        1 <= self.0[0] <= 6 && 1 <= self.0[1] <= 6
    }

    /// The total shown by the two dice.
    pub open spec fn spec_value(self) -> int {
        self.0[0] + self.0[1]
    }

    /// A hard way: doubles other than 1-1 and 6-6.
    pub open spec fn spec_is_hard(self) -> bool {
        self.0[0] != 1 && self.0[0] != 6 && self.0[0] == self.0[1]
    }

    /// Validates the dice and builds the roll; rejects any face outside 1..=6.
    pub fn new(dice: [u8; 2]) -> (r: Result<Self, RollError>)
        ensures
            r is Ok <==> (1 <= dice[0] <= 6 && 1 <= dice[1] <= 6),
            r matches Ok(roll) ==> roll.0 == dice && roll.wf(),
            !(1 <= dice[0] <= 6) ==> r == Err::<Self, RollError>(RollError::OutOfRange(dice[0])),
            (1 <= dice[0] <= 6 && !(1 <= dice[1] <= 6)) ==> r == Err::<Self, RollError>(
                RollError::OutOfRange(dice[1]),
            ),
    {
        if dice[0] < 1 || dice[0] > 6 {
            Err(RollError::OutOfRange(dice[0]))
        } else if dice[1] < 1 || dice[1] > 6 {
            Err(RollError::OutOfRange(dice[1]))
        } else {
            Ok(Roll(dice))
        }
    }

    /// The roll's value: the sum of the two faces, in 2..=12 for a valid roll.
    pub fn value(self) -> (v: u8)
        requires
            self.wf(),
        ensures
            v == self.spec_value(),
            2 <= v <= 12,
    {
        self.0[0] + self.0[1]
    }

    /// The two die faces as rolled.
    pub fn dice(&self) -> (d: &[u8; 2])
        ensures
            *d == self.0,
    {
        &self.0
    }

    /// Whether the roll came as a hard way (doubles making 4, 6, 8 or 10).
    pub fn is_hard(self) -> (h: bool)
        ensures
            h == self.spec_is_hard(),
    {
        self.0[0] != 1 && self.0[0] != 6 && self.0[0] == self.0[1]
    }
}

} // verus!
