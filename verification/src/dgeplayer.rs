use vstd::prelude::*;

use crate::bet::{valid_point, Bet, BetType};
use crate::player::{
    money_total, spec_add_bet, spec_remove, LedgerModel, PlayerCommon, PlayerError,
};
use crate::roll::Roll;
use crate::table::TableState;

verus! {

// Lay against 4 and 10, raising the stake as more of them are rolled
// between sevens. A come-out seven counts like any other; the puck is
// ignored. The vigorish is paid up front, as most houses ask.

/// The lay stake after `count` fours (or tens) since the last seven:
/// nothing before the fourth, then 50, 150, 500, and 3000 from the
/// seventh on.
pub open spec fn lay_martingale(count: u8) -> int {
    if count <= 3 {
        0
    } else if count == 4 {
        50
    } else if count == 5 {
        150
    } else if count == 6 {
        500
    } else {
        3000
    }
}

/// The stake actually laid: the martingale stake when the bankroll covers
/// it together with its vigorish, else almost the whole bankroll, leaving
/// room for the vigorish.
pub open spec fn dge_lay_amount(bankroll: int, tbl: int) -> int {
    if tbl + tbl * 5 / 100 <= bankroll {
        tbl
    } else {
        bankroll * 39 / 40
    }
}

/// The counters after a roll worth counting: a seven resets both, a four
/// or a ten advances its own.
pub open spec fn dge_counters(fours: u8, tens: u8, v: int) -> (u8, u8) {
    if v == 7 {
        (0u8, 0u8)
    } else if v == 4 {
        (((fours + 1) as u8), tens)
    } else {
        (fours, ((tens + 1) as u8))
    }
}

/// Lay against one point, when the martingale calls for a stake there.
pub open spec fn dge_lay_step(m: LedgerModel, count: u8, point: u8) -> (
    LedgerModel,
    Result<(), PlayerError>,
) {
    let a = lay_martingale(count);
    if a > 0 {
        spec_add_bet(
            m,
            Bet {
                bet_type: BetType::Lay,
                amount: dge_lay_amount(m.bankroll, a) as u32,
                working: true,
                point: Some(point),
            },
        )
    } else {
        (m, Ok(()))
    }
}

/// What one strategy step does: on a four, seven or ten, advance the
/// counters, take down the lay bets on 4 and 10, and lay the new stakes;
/// on anything else, nothing. A failed placement stops the step there.
pub open spec fn dge_step(m: LedgerModel, fours: u8, tens: u8, roll: Option<Roll>) -> (
    LedgerModel,
    u8,
    u8,
    Result<(), PlayerError>,
) {
    match roll {
        None => (m, fours, tens, Ok(())),
        Some(r) => {
            let v = r.spec_value();
            if v != 4 && v != 7 && v != 10 {
                (m, fours, tens, Ok(()))
            } else {
                let c = dge_counters(fours, tens, v);
                let m1 = spec_remove(m, BetType::Lay, Some(4u8)).0;
                let m2 = spec_remove(m1, BetType::Lay, Some(10u8)).0;
                let s4 = dge_lay_step(m2, c.0, 4u8);
                if s4.1 is Err {
                    (s4.0, c.0, c.1, s4.1)
                } else {
                    let s10 = dge_lay_step(s4.0, c.1, 10u8);
                    (s10.0, c.0, c.1, s10.1)
                }
            }
        },
    }
}

/// A player running the lay martingale against 4 and 10.
pub struct DGELay410MartingalePlayer {
    pub common: PlayerCommon,
    pub num_fours: u8,
    pub num_tens: u8,
}

impl DGELay410MartingalePlayer {
    pub fn new(bankroll: u32) -> (p: Self)
        ensures
            p.common.model() == (LedgerModel {
                bets: Seq::<Bet>::empty(),
                bankroll: bankroll as int,
                wagered: 0int,
            }),
            p.common.inv(),
            p.num_fours == 0,
            p.num_tens == 0,
    {
        DGELay410MartingalePlayer { common: PlayerCommon::new(bankroll), num_fours: 0, num_tens: 0 }
    }

    /// The martingale table, as executable code.
    fn lay_amount(count: u8) -> (a: u32)
        ensures
            a == lay_martingale(count),
    {
        if count <= 3 {
            0
        } else if count == 4 {
            50
        } else if count == 5 {
            150
        } else if count == 6 {
            500
        } else {
            3000
        }
    }

    /// Lay against one point per `dge_lay_step`.
    fn place_lay(common: &mut PlayerCommon, count: u8, point: u8) -> (r: Result<(), PlayerError>)
        requires
            old(common).inv(),
            valid_point(point),
        ensures
            final(common).inv(),
            (final(common).model(), r) == dge_lay_step(old(common).model(), count, point),
            money_total(final(common).model()) == money_total(old(common).model()),
    {
        let tbl = Self::lay_amount(count);
        if tbl == 0 {
            return Ok(());
        }
        let b0 = common.bankroll;
        let vig64: u64 = (tbl as u64) * 5 / 100;
        let amt: u32 = if (tbl as u64) + vig64 <= (b0 as u64) {
            tbl
        } else {
            (((b0 as u64) * 39) / 40) as u32
        };
        proof {
            assert(amt == dge_lay_amount(b0 as int, tbl as int) as u32);
        }
        common.add_bet(Bet::new_lay(amt, point))
    }

    /// One strategy step; see `dge_step` for exactly what it does.
    pub fn make_bets(&mut self, state: &TableState) -> (r: Result<(), PlayerError>)
        requires
            old(self).common.inv(),
            state.last_roll matches Some(lr) ==> lr.wf(),
            (state.last_roll matches Some(lr) && lr.spec_value() == 4) ==> old(self).num_fours
                < 255,
            (state.last_roll matches Some(lr) && lr.spec_value() == 10) ==> old(self).num_tens
                < 255,
        ensures
            final(self).common.inv(),
            (final(self).common.model(), final(self).num_fours, final(self).num_tens, r)
                == dge_step(
                old(self).common.model(),
                old(self).num_fours,
                old(self).num_tens,
                state.last_roll,
            ),
            money_total(final(self).common.model()) == money_total(old(self).common.model()),
    {
        if state.last_roll.is_none() {
            return Ok(());
        }
        let lr = state.last_roll.unwrap();
        let v = lr.value();
        if v != 4 && v != 7 && v != 10 {
            return Ok(());
        }
        if v == 7 {
            self.num_fours = 0;
            self.num_tens = 0;
        } else if v == 4 {
            self.num_fours = self.num_fours + 1;
        } else {
            self.num_tens = self.num_tens + 1;
        }
        // take down the lay bets before laying the new stakes
        match self.common.remove_bets_with_type_point(BetType::Lay, Some(4)) {
            Ok(_) => (),
            Err(e) => {
                proof {
                    crate::player::lemma_remove_always_ok(
                        old(self).common.model(),
                        BetType::Lay,
                        Some(4u8),
                    );
                    assert(false);
                }
                return Err(e);
            },
        }
        match self.common.remove_bets_with_type_point(BetType::Lay, Some(10)) {
            Ok(_) => (),
            Err(e) => {
                proof {
                    crate::player::lemma_remove_always_ok(
                        self.common.model(),
                        BetType::Lay,
                        Some(10u8),
                    );
                    assert(false);
                }
                return Err(e);
            },
        }
        let f = self.num_fours;
        match Self::place_lay(&mut self.common, f, 4) {
            Ok(_) => (),
            Err(e) => {
                return Err(e);
            },
        }
        let t = self.num_tens;
        Self::place_lay(&mut self.common, t, 10)
    }
}

} // verus!
