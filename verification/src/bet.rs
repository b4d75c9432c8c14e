use vstd::prelude::*;

use crate::roll::Roll;

verus! {

// Payout policy. The field bonus multipliers and the moment the buy/lay
// vigorish is charged are fixed for a whole simulation run.
pub const FIELD_TRIP_2: bool = false;

pub const FIELD_TRIP_12: bool = false;

pub const FIELD_DOUB_11: bool = false;

/// When true, the 5% buy vigorish is charged at placement; otherwise it is
/// deducted from the winnings.
pub const BUY_PAY_UPFRONT: bool = true;

/// When true, the 5% lay vigorish is charged at placement; otherwise it is
/// deducted from the winnings.
pub const LAY_PAY_UPFRONT: bool = true;

/// A point value a bet can be pegged to.
pub open spec fn valid_point(p: u8) -> bool {
    p == 4 || p == 5 || p == 6 || p == 8 || p == 9 || p == 10
}

/// A roll value on which a field bet wins.
pub open spec fn field_value(v: int) -> bool {
    v == 2 || v == 3 || v == 4 || v == 9 || v == 10 || v == 11 || v == 12
}

/// Runtime test for `valid_point`.
pub fn is_valid_point(p: u8) -> (b: bool)
    ensures
        b == valid_point(p),
{
    p == 4 || p == 5 || p == 6 || p == 8 || p == 9 || p == 10
}

#[derive(Debug, Copy, Clone, PartialEq, Eq, Structural)]
pub enum BetType {
    Pass,
    PassOdds,
    DontPass,
    DontPassOdds,
    Come,
    ComeOdds,
    DontCome,
    DontComeOdds,
    Place,
    Buy,
    Lay,
    Field,
}

impl BetType {
    /// Types that must carry a point from creation on.
    pub open spec fn point_bearing(self) -> bool {
        ||| self == BetType::PassOdds
        ||| self == BetType::ComeOdds
        ||| self == BetType::DontPassOdds
        ||| self == BetType::DontComeOdds
        ||| self == BetType::Place
        ||| self == BetType::Buy
        ||| self == BetType::Lay
    }

    /// The flat line bets, created without a point; they may acquire one later.
    pub open spec fn flat(self) -> bool {
        ||| self == BetType::Pass
        ||| self == BetType::Come
        ||| self == BetType::DontPass
        ||| self == BetType::DontCome
    }

    /// Whether a bet of this type pays its vigorish when it is placed.
    pub open spec fn has_upfront_vig(self) -> bool {
        ||| (self == BetType::Buy && BUY_PAY_UPFRONT)
        ||| (self == BetType::Lay && LAY_PAY_UPFRONT)
    }
}

/// A wager: a type, an amount in currency units, the working flag, and the
/// point if one is set. Immutable but for the one-time point assignment and
/// the working toggle on place bets.
#[derive(Debug, Copy, Clone, PartialEq)]
pub struct Bet {
    pub bet_type: BetType,
    pub amount: u32,
    pub working: bool,
    pub point: Option<u8>,
}

#[derive(Debug, Copy, Clone, PartialEq)]
pub enum BetError {
    Working(BetType, bool),
    DoesntWin(Bet, Roll),
    CantSetPoint(Bet),
}

/// The 5% vigorish on an amount, truncated.
pub open spec fn vig_of(amount: u32) -> int {
    amount * 5 / 100
}

impl Bet {
    /// The shape the data model promises: point-bearing types carry a valid
    /// point, flat types carry none or a valid one, field bets carry none,
    /// and only place bets can be switched off.
    pub open spec fn wf(self) -> bool {
        &&& self.bet_type.point_bearing() ==> (self.point matches Some(p) && valid_point(p))
        &&& self.bet_type.flat() ==> (self.point matches Some(p) ==> valid_point(p))
        &&& self.bet_type == BetType::Field ==> self.point is None
        &&& self.bet_type != BetType::Place ==> self.working
    }

    /// Whether the bet wins on roll `r` (a bet that is not working never wins).
    pub open spec fn spec_wins_with(self, r: Roll) -> bool {
        let v = r.spec_value();
        if !self.working {
            false
        } else {
            match self.bet_type {
                BetType::Pass | BetType::Come => match self.point {
                    None => v == 7 || v == 11,
                    Some(p) => v == p,
                },
                BetType::DontPass | BetType::DontCome => match self.point {
                    None => v == 2 || v == 3,
                    Some(p) => v == 7,
                },
                BetType::PassOdds | BetType::ComeOdds | BetType::Place | BetType::Buy => match self
                    .point {
                    None => false,
                    Some(p) => v == p,
                },
                BetType::DontPassOdds | BetType::DontComeOdds | BetType::Lay => match self.point {
                    None => false,
                    Some(p) => v == 7,
                },
                BetType::Field => field_value(v),
            }
        }
    }

    /// Whether the bet loses on roll `r` (a bet that is not working never loses).
    pub open spec fn spec_loses_with(self, r: Roll) -> bool {
        let v = r.spec_value();
        if !self.working {
            false
        } else {
            match self.bet_type {
                BetType::Pass | BetType::Come => match self.point {
                    None => v == 2 || v == 3 || v == 12,
                    Some(p) => v == 7,
                },
                BetType::DontPass | BetType::DontCome => match self.point {
                    None => v == 7 || v == 11,
                    Some(p) => v == p,
                },
                BetType::PassOdds | BetType::ComeOdds | BetType::Place | BetType::Buy => match self
                    .point {
                    None => false,
                    Some(p) => v == 7,
                },
                BetType::DontPassOdds | BetType::DontComeOdds | BetType::Lay => match self.point {
                    None => false,
                    Some(p) => v == p,
                },
                BetType::Field => !field_value(v),
            }
        }
    }

    /// The condition under which `win_amount` pays. It mirrors the payout
    /// table and ignores the working flag.
    pub open spec fn pays_on(self, r: Roll) -> bool {
        let v = r.spec_value();
        match self.bet_type {
            BetType::Pass | BetType::Come => match self.point {
                None => v == 7 || v == 11,
                Some(p) => v == p,
            },
            BetType::DontPass | BetType::DontCome => match self.point {
                None => v == 2 || v == 3,
                Some(p) => v == 7,
            },
            BetType::PassOdds | BetType::ComeOdds | BetType::Place | BetType::Buy => match self
                .point {
                None => false,
                Some(p) => v == p,
            },
            BetType::DontPassOdds | BetType::DontComeOdds | BetType::Lay => v == 7,
            BetType::Field => field_value(v),
        }
    }

    /// The amount a winning bet pays (the stake itself is returned
    /// separately by the ledger).
    pub open spec fn spec_payout(self, r: Roll) -> int {
        let a = self.amount as int;
        let v = r.spec_value();
        match self.bet_type {
            BetType::Pass | BetType::Come | BetType::DontPass | BetType::DontCome => a,
            BetType::Field => if v == 2 {
                a * (if FIELD_TRIP_2 {
                    3int
                } else {
                    2int
                })
            } else if v == 11 {
                a * (if FIELD_DOUB_11 {
                    2int
                } else {
                    1int
                })
            } else if v == 12 {
                a * (if FIELD_TRIP_12 {
                    3int
                } else {
                    2int
                })
            } else {
                a
            },
            BetType::PassOdds | BetType::ComeOdds => Self::true_odds_for(a, self.point),
            BetType::DontPassOdds | BetType::DontComeOdds => Self::odds_against(a, self.point),
            BetType::Place => match self.point {
                Some(p) => if p == 4 || p == 10 {
                    a * 9 / 5
                } else if p == 5 || p == 9 {
                    a * 7 / 5
                } else {
                    a * 7 / 6
                },
                None => 0,
            },
            BetType::Buy => Self::true_odds_for(a, self.point) - (if BUY_PAY_UPFRONT {
                0int
            } else {
                vig_of(self.amount)
            }),
            BetType::Lay => {
                let w = Self::odds_against(a, self.point);
                w - (if LAY_PAY_UPFRONT {
                    0int
                } else {
                    w * 5 / 100
                })
            },
        }
    }

    /// True odds on the point: 2:1 on 4 and 10, 3:2 on 5 and 9, 6:5 on 6 and 8.
    pub open spec fn true_odds_for(a: int, point: Option<u8>) -> int {
        match point {
            Some(p) => if p == 4 || p == 10 {
                a * 2
            } else if p == 5 || p == 9 {
                a * 3 / 2
            } else {
                a * 6 / 5
            },
            None => 0,
        }
    }

    /// Odds laid against the point: 1:2 on 4 and 10, 2:3 on 5 and 9, 5:6 on 6 and 8.
    pub open spec fn odds_against(a: int, point: Option<u8>) -> int {
        match point {
            Some(p) => if p == 4 || p == 10 {
                a / 2
            } else if p == 5 || p == 9 {
                a * 2 / 3
            } else {
                a * 5 / 6
            },
            None => 0,
        }
    }

    /// The result of asking a bet to take a point: only a flat bet without
    /// one may, and only once.
    pub open spec fn spec_set_point(self, point: u8) -> Result<Bet, BetError> {
        if self.point is Some || !self.bet_type.flat() {
            Err(BetError::CantSetPoint(self))
        } else {
            Ok(
                Bet {
                    bet_type: self.bet_type,
                    amount: self.amount,
                    working: self.working,
                    point: Some(point),
                },
            )
        }
    }

    pub fn new(bet_type: BetType, working: bool, amount: u32, point: Option<u8>) -> (b: Bet)
        ensures
            b == (Bet { bet_type, amount, working, point }),
    {
        Bet { bet_type, amount, working, point }
    }

    pub fn amount(self) -> (a: u32)
        ensures
            a == self.amount,
    {
        self.amount
    }

    pub fn point(self) -> (p: Option<u8>)
        ensures
            p == self.point,
    {
        self.point
    }

    pub fn working(self) -> (w: bool)
        ensures
            w == self.working,
    {
        self.working
    }

    /// The 5% commission the house takes on buy and lay bets.
    pub fn vig_amount(self) -> (v: u32)
        ensures
            v == vig_of(self.amount),
            v <= self.amount,
    {
        let w: u64 = (self.amount as u64) * 5 / 100;
        w as u32
    }

    pub fn new_pass(amount: u32) -> (b: Bet)
        ensures
            b == (Bet { bet_type: BetType::Pass, amount, working: true, point: None }),
            b.wf(),
    {
        Bet::new(BetType::Pass, true, amount, None)
    }

    pub fn new_passodds(amount: u32, point: u8) -> (b: Bet)
        requires
            valid_point(point),
        ensures
            b == (Bet { bet_type: BetType::PassOdds, amount, working: true, point: Some(point) }),
            b.wf(),
    {
        Bet::new(BetType::PassOdds, true, amount, Some(point))
    }

    pub fn new_dontpass(amount: u32) -> (b: Bet)
        ensures
            b == (Bet { bet_type: BetType::DontPass, amount, working: true, point: None }),
            b.wf(),
    {
        Bet::new(BetType::DontPass, true, amount, None)
    }

    pub fn new_dontpassodds(amount: u32, point: u8) -> (b: Bet)
        requires
            valid_point(point),
        ensures
            b == (
            Bet { bet_type: BetType::DontPassOdds, amount, working: true, point: Some(point) }),
            b.wf(),
    {
        Bet::new(BetType::DontPassOdds, true, amount, Some(point))
    }

    pub fn new_come(amount: u32) -> (b: Bet)
        ensures
            b == (Bet { bet_type: BetType::Come, amount, working: true, point: None }),
            b.wf(),
    {
        Bet::new(BetType::Come, true, amount, None)
    }

    pub fn new_comeodds(amount: u32, point: u8) -> (b: Bet)
        requires
            valid_point(point),
        ensures
            b == (Bet { bet_type: BetType::ComeOdds, amount, working: true, point: Some(point) }),
            b.wf(),
    {
        Bet::new(BetType::ComeOdds, true, amount, Some(point))
    }

    pub fn new_dontcome(amount: u32) -> (b: Bet)
        ensures
            b == (Bet { bet_type: BetType::DontCome, amount, working: true, point: None }),
            b.wf(),
    {
        Bet::new(BetType::DontCome, true, amount, None)
    }

    pub fn new_dontcomeodds(amount: u32, point: u8) -> (b: Bet)
        requires
            valid_point(point),
        ensures
            b == (
            Bet { bet_type: BetType::DontComeOdds, amount, working: true, point: Some(point) }),
            b.wf(),
    {
        Bet::new(BetType::DontComeOdds, true, amount, Some(point))
    }

    pub fn new_place(amount: u32, point: u8) -> (b: Bet)
        requires
            valid_point(point),
        ensures
            b == (Bet { bet_type: BetType::Place, amount, working: true, point: Some(point) }),
            b.wf(),
    {
        Bet::new(BetType::Place, true, amount, Some(point))
    }

    pub fn new_buy(amount: u32, point: u8) -> (b: Bet)
        requires
            valid_point(point),
        ensures
            b == (Bet { bet_type: BetType::Buy, amount, working: true, point: Some(point) }),
            b.wf(),
    {
        Bet::new(BetType::Buy, true, amount, Some(point))
    }

    pub fn new_lay(amount: u32, point: u8) -> (b: Bet)
        requires
            valid_point(point),
        ensures
            b == (Bet { bet_type: BetType::Lay, amount, working: true, point: Some(point) }),
            b.wf(),
    {
        Bet::new(BetType::Lay, true, amount, Some(point))
    }

    pub fn new_field(amount: u32) -> (b: Bet)
        ensures
            b == (Bet { bet_type: BetType::Field, amount, working: true, point: None }),
            b.wf(),
    {
        Bet::new(BetType::Field, true, amount, None)
    }

    /// Toggle the working flag: allowed for place bets only.
    pub fn set_working(bet: Bet, working: bool) -> (r: Result<Bet, BetError>)
        ensures
            r is Ok <==> bet.bet_type == BetType::Place,
            r matches Ok(b2) ==> b2 == (
            Bet { bet_type: bet.bet_type, amount: bet.amount, working, point: bet.point }),
            r is Err ==> r == Err::<Bet, BetError>(BetError::Working(bet.bet_type, working)),
    {
        match bet.bet_type {
            BetType::Place => {
                let mut b = bet;
                b.working = working;
                Ok(b)
            },
            _ => Err(BetError::Working(bet.bet_type, working)),
        }
    }

    fn _set_point(bet: Bet, point: u8) -> (b: Bet)
        requires
            bet.point is None,
            valid_point(point),
        ensures
            b == (
            Bet {
                bet_type: bet.bet_type,
                amount: bet.amount,
                working: bet.working,
                point: Some(point),
            }),
    {
        let mut b = bet;
        b.point = Some(point);
        b
    }

    /// Give a flat bet its point, once. Asking a second time, or asking for
    /// any other type, fails with `CantSetPoint`.
    pub fn set_point(bet: Bet, point: u8) -> (r: Result<Bet, BetError>)
        requires
            bet.point is None && bet.bet_type.flat() ==> valid_point(point),
        ensures
            r == bet.spec_set_point(point),
            r is Ok <==> bet.point is None && bet.bet_type.flat(),
            r is Err ==> r == Err::<Bet, BetError>(BetError::CantSetPoint(bet)),
    {
        if bet.point.is_some() {
            return Err(BetError::CantSetPoint(bet));
        }
        match bet.bet_type {
            BetType::Pass | BetType::Come | BetType::DontPass | BetType::DontCome => Ok(
                Bet::_set_point(bet, point),
            ),
            _ => Err(BetError::CantSetPoint(bet)),
        }
    }

    /// Whether the bet wins on `r`.
    pub fn wins_with(self, r: Roll) -> (b: bool)
        requires
            r.wf(),
            self.working && self.bet_type.point_bearing() ==> self.point is Some,
        ensures
            b == self.spec_wins_with(r),
    {
        if !self.working {
            return false;
        }
        let v = r.value();
        match self.bet_type {
            BetType::Pass | BetType::Come => match self.point {
                None => v == 7 || v == 11,
                Some(p) => v == p,
            },
            BetType::DontPass | BetType::DontCome => match self.point {
                None => v == 2 || v == 3,
                Some(_) => v == 7,
            },
            BetType::PassOdds | BetType::ComeOdds | BetType::Place | BetType::Buy => {
                let p = self.point.unwrap();
                v == p
            },
            BetType::DontPassOdds | BetType::DontComeOdds | BetType::Lay => {
                let _p = self.point.unwrap();
                v == 7
            },
            BetType::Field => v == 2 || v == 3 || v == 4 || v == 9 || v == 10 || v == 11 || v
                == 12,
        }
    }

    /// Whether the bet loses on `r`.
    pub fn loses_with(self, r: Roll) -> (b: bool)
        requires
            r.wf(),
            self.working && self.bet_type.point_bearing() ==> self.point is Some,
        ensures
            b == self.spec_loses_with(r),
    {
        if !self.working {
            return false;
        }
        let v = r.value();
        match self.bet_type {
            BetType::Pass | BetType::Come => match self.point {
                None => v == 2 || v == 3 || v == 12,
                Some(_) => v == 7,
            },
            BetType::DontPass | BetType::DontCome => match self.point {
                None => v == 7 || v == 11,
                Some(p) => v == p,
            },
            BetType::PassOdds | BetType::ComeOdds | BetType::Place | BetType::Buy => {
                let _p = self.point.unwrap();
                v == 7
            },
            BetType::DontPassOdds | BetType::DontComeOdds | BetType::Lay => {
                let p = self.point.unwrap();
                v == p
            },
            BetType::Field => !(v == 2 || v == 3 || v == 4 || v == 9 || v == 10 || v == 11 || v
                == 12),
        }
    }

    /// The winnings for roll `r`, or `DoesntWin` when `r` does not satisfy the
    /// bet's win condition. The payout follows the odds table; buy and lay
    /// winnings are cut by the vigorish when it was not charged up front.
    pub fn win_amount(self, r: Roll) -> (res: Result<u32, BetError>)
        requires
            r.wf(),
            self.bet_type.point_bearing() ==> self.point is Some,
            self.pays_on(r) ==> {
                &&& (self.bet_type.point_bearing() ==> valid_point(self.point->0))
                &&& self.spec_payout(r) <= u32::MAX
            },
        ensures
            res is Ok <==> self.pays_on(r),
            res matches Ok(w) ==> w == self.spec_payout(r),
            res is Err ==> res == Err::<u32, BetError>(BetError::DoesntWin(self, r)),
    {
        let v = r.value();
        let a64 = self.amount as u64;
        match self.bet_type {
            BetType::Pass | BetType::Come => {
                let won = match self.point {
                    None => v == 7 || v == 11,
                    Some(p) => v == p,
                };
                if !won {
                    return Err(BetError::DoesntWin(self, r));
                }
                Ok(self.amount)
            },
            BetType::DontPass | BetType::DontCome => {
                let won = match self.point {
                    None => v == 2 || v == 3,
                    Some(_) => v == 7,
                };
                if !won {
                    return Err(BetError::DoesntWin(self, r));
                }
                Ok(self.amount)
            },
            BetType::Field => {
                let mult: u64 = if v == 2 {
                    if FIELD_TRIP_2 {
                        3
                    } else {
                        2
                    }
                } else if v == 11 {
                    if FIELD_DOUB_11 {
                        2
                    } else {
                        1
                    }
                } else if v == 12 {
                    if FIELD_TRIP_12 {
                        3
                    } else {
                        2
                    }
                } else if v == 3 || v == 4 || v == 9 || v == 10 {
                    1
                } else {
                    return Err(BetError::DoesntWin(self, r));
                };
                let w = a64 * mult;
                Ok(w as u32)
            },
            BetType::PassOdds | BetType::ComeOdds => {
                let p = self.point.unwrap();
                if v != p {
                    return Err(BetError::DoesntWin(self, r));
                }
                let w: u64 = if p == 4 || p == 10 {
                    a64 * 2
                } else if p == 5 || p == 9 {
                    a64 * 3 / 2
                } else {
                    a64 * 6 / 5
                };
                Ok(w as u32)
            },
            BetType::DontPassOdds | BetType::DontComeOdds => {
                let p = self.point.unwrap();
                if v != 7 {
                    return Err(BetError::DoesntWin(self, r));
                }
                let w: u64 = if p == 4 || p == 10 {
                    a64 / 2
                } else if p == 5 || p == 9 {
                    a64 * 2 / 3
                } else {
                    a64 * 5 / 6
                };
                Ok(w as u32)
            },
            BetType::Place => {
                let p = self.point.unwrap();
                if v != p {
                    return Err(BetError::DoesntWin(self, r));
                }
                let w: u64 = if p == 4 || p == 10 {
                    a64 * 9 / 5
                } else if p == 5 || p == 9 {
                    a64 * 7 / 5
                } else {
                    a64 * 7 / 6
                };
                Ok(w as u32)
            },
            BetType::Buy => {
                let p = self.point.unwrap();
                if v != p {
                    return Err(BetError::DoesntWin(self, r));
                }
                let vig: u64 = if BUY_PAY_UPFRONT {
                    0
                } else {
                    a64 * 5 / 100
                };
                let base: u64 = if p == 4 || p == 10 {
                    a64 * 2
                } else if p == 5 || p == 9 {
                    a64 * 3 / 2
                } else {
                    a64 * 6 / 5
                };
                let w = base - vig;
                Ok(w as u32)
            },
            BetType::Lay => {
                let p = self.point.unwrap();
                if v != 7 {
                    return Err(BetError::DoesntWin(self, r));
                }
                let win: u64 = if p == 4 || p == 10 {
                    a64 / 2
                } else if p == 5 || p == 9 {
                    a64 * 2 / 3
                } else {
                    a64 * 5 / 6
                };
                let w = win - (if LAY_PAY_UPFRONT {
                    0
                } else {
                    win * 5 / 100
                });
                Ok(w as u32)
            },
        }
    }
}

/// A winning well-formed bet satisfies the payout condition, and its
/// payout is never negative.
pub proof fn lemma_win_pays(b: Bet, r: Roll)
    requires
        b.wf(),
    ensures
        b.spec_wins_with(r) ==> b.pays_on(r),
        b.spec_payout(r) >= 0,
{
}

/// No bet both wins and loses on one roll: the win and lose conditions of
/// every well-formed bet are mutually exclusive.
pub proof fn lemma_wins_loses_exclusive(b: Bet, r: Roll)
    requires
        b.wf(),
    ensures
        !(b.spec_wins_with(r) && b.spec_loses_with(r)),
{
}

/// A bet that is not working neither wins nor loses, whatever the roll.
pub proof fn lemma_not_working_never_resolves(b: Bet, r: Roll)
    ensures
        !b.working ==> !b.spec_wins_with(r) && !b.spec_loses_with(r),
{
}

/// Once a point is set it cannot be set again, and a point can never be set
/// on a type outside the four flat line bets.
pub proof fn lemma_point_immutable(b: Bet, p: u8, q: u8)
    ensures
        b.spec_set_point(p) matches Ok(b2) ==> b2.spec_set_point(q) == Err::<Bet, BetError>(
            BetError::CantSetPoint(b2),
        ),
        !b.bet_type.flat() ==> b.spec_set_point(p) == Err::<Bet, BetError>(
            BetError::CantSetPoint(b),
        ),
{
}

/// The odds payout ratios, spelled out: true odds pay 2:1, 3:2 and 6:5;
/// don't odds pay the inverse ratios; place pays 9:5, 7:5 and 7:6.
pub proof fn lemma_odds_payout_ratios(b: Bet, r: Roll)
    requires
        b.wf(),
        b.point matches Some(p),
        b.pays_on(r),
    ensures
        b.bet_type == BetType::PassOdds || b.bet_type == BetType::ComeOdds ==> b.spec_payout(r)
            == (if b.point->0 == 4 || b.point->0 == 10 {
            b.amount * 2
        } else if b.point->0 == 5 || b.point->0 == 9 {
            b.amount * 3 / 2
        } else {
            b.amount * 6 / 5
        }),
        b.bet_type == BetType::DontPassOdds || b.bet_type == BetType::DontComeOdds
            ==> b.spec_payout(r) == (if b.point->0 == 4 || b.point->0 == 10 {
            b.amount as int / 2
        } else if b.point->0 == 5 || b.point->0 == 9 {
            b.amount * 2 / 3
        } else {
            b.amount * 5 / 6
        }),
        b.bet_type == BetType::Place ==> b.spec_payout(r) == (if b.point->0 == 4 || b.point->0
            == 10 {
            b.amount * 9 / 5
        } else if b.point->0 == 5 || b.point->0 == 9 {
            b.amount * 7 / 5
        } else {
            b.amount * 7 / 6
        }),
{
}

} // verus!
