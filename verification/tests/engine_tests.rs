use cdc2::bet::{Bet, BetError, BetType};
use cdc2::dgeplayer::DGELay410MartingalePlayer;
use cdc2::player::{FieldMartingalePlayer, FieldPlayer, PassPlayer, PlayerCommon, PlayerError};
use cdc2::randroll::{GivenRolls, RollGen};
use cdc2::roll::Roll;
use cdc2::rollcounts::RollCounts;
use cdc2::rolliter::{die_weights_from_iter, roll_weights_from_iter, RollIter};
use cdc2::table::TableState;

fn roll(d1: u8, d2: u8) -> Roll {
    Roll::new([d1, d2]).unwrap()
}

fn state_with(r: Roll) -> TableState {
    TableState {
        point: None,
        last_roll: Some(r),
    }
}

// the money a ledger is answerable for: bankroll, stakes, and the 5% the
// house holds up front on buy and lay bets
fn held_total(p: &PlayerCommon) -> u64 {
    let mut vig: u64 = 0;
    for b in p.bets.iter() {
        if b.bet_type == BetType::Buy || b.bet_type == BetType::Lay {
            vig += b.vig_amount() as u64;
        }
    }
    p.bankroll as u64 + p.wagered as u64 + vig
}

#[test]
fn pass_line_comeout_win() {
    let b = Bet::new_pass(500);
    let r = roll(3, 4);
    assert_eq!(r.value(), 7);
    assert!(b.wins_with(r));
    assert_eq!(b.win_amount(r), Ok(500));
}

#[test]
fn pass_line_point_made() {
    let mut p = PlayerCommon::new(1000);
    p.add_bet(Bet::new_pass(500)).unwrap();
    assert_eq!(p.bankroll, 500);
    // the come-out roll is a 4: the pass bet takes the point
    p.react_to_roll(&state_with(roll(1, 3)));
    assert_eq!(p.bets.len(), 1);
    assert_eq!(p.bets[0].point, Some(4));
    // direct check as well: a pass bet on the point wins even money
    let b = p.bets[0];
    assert!(b.wins_with(roll(2, 2)));
    assert_eq!(b.win_amount(roll(2, 2)), Ok(500));
    // the point is made: stake returned plus even money
    p.react_to_roll(&state_with(roll(2, 2)));
    assert_eq!(p.bets.len(), 0);
    assert_eq!(p.bankroll, 1500);
    assert_eq!(p.wagered, 0);
}

#[test]
fn place_bet_payout() {
    let b = Bet::new_place(500, 6);
    let r = roll(2, 4);
    assert_eq!(b.win_amount(r), Ok(583));
}

#[test]
fn insufficient_funds() {
    let mut p = PlayerCommon::new(100);
    let res = p.add_bet(Bet::new_buy(500, 4));
    assert!(matches!(res, Err(PlayerError::NotEnoughBankroll())));
    assert_eq!(p.bankroll, 100);
    assert_eq!(p.wagered, 0);
    assert_eq!(p.bets.len(), 0);
}

#[test]
fn removal_blocked_by_odds() {
    let mut p = PlayerCommon::new(10_000);
    p.add_bet(Bet::new_dontpass(500)).unwrap();
    // the come-out roll is a 4: the don't-pass bet is now behind the point
    p.react_to_roll(&state_with(roll(1, 3)));
    assert_eq!(p.bets[0].point, Some(4));
    p.add_bet(Bet::new_dontpassodds(600, 4)).unwrap();
    let res = p.remove_bets_with_type_point(BetType::DontPass, Some(4));
    assert!(matches!(res, Err(PlayerError::CantRemoveBet(_))));
    // all-or-nothing: nothing was taken down
    assert_eq!(p.bets.len(), 2);
    // with the odds gone, the don't-pass bet can come down
    p.remove_bets_with_type_point(BetType::DontPassOdds, Some(4))
        .unwrap();
    p.remove_bets_with_type_point(BetType::DontPass, Some(4))
        .unwrap();
    assert_eq!(p.bets.len(), 0);
    assert_eq!(p.bankroll, 10_000);
}

#[test]
fn money_is_only_moved() {
    let mut p = PlayerCommon::new(2_000);
    assert_eq!(held_total(&p), 2_000);
    p.add_bet(Bet::new_buy(500, 4)).unwrap();
    assert_eq!(held_total(&p), 2_000);
    p.add_bet(Bet::new_field(100)).unwrap();
    assert_eq!(held_total(&p), 2_000);
    p.remove_bets_with_type_point(BetType::Field, None).unwrap();
    assert_eq!(held_total(&p), 2_000);
    // a 10 resolves nothing here: totals stay put
    p.react_to_roll(&state_with(roll(4, 6)));
    assert_eq!(held_total(&p), 2_000);
    // the buy bet wins 2:1 on its point; the held vigorish stays with the
    // house, so the total grows by the payout and shrinks by the vigorish
    p.react_to_roll(&state_with(roll(1, 3)));
    assert_eq!(held_total(&p), 2_000 + 1000 - 25);
    assert_eq!(p.bankroll, 2_000 - 25 + 1000);
}

#[test]
fn losing_forfeits_stake_and_vig() {
    let mut p = PlayerCommon::new(1_000);
    p.add_bet(Bet::new_buy(200, 4)).unwrap();
    assert_eq!(p.bankroll, 1_000 - 200 - 10);
    // a seven takes the buy bet down; stake and vigorish are gone
    p.react_to_roll(&state_with(roll(3, 4)));
    assert_eq!(p.bets.len(), 0);
    assert_eq!(p.bankroll, 790);
    assert_eq!(p.wagered, 0);
}

#[test]
fn duplicate_bet_refused() {
    let mut p = PlayerCommon::new(1_000);
    p.add_bet(Bet::new_place(100, 6)).unwrap();
    let res = p.add_bet(Bet::new_place(200, 6));
    assert!(matches!(res, Err(PlayerError::DuplicateBet(_))));
    // same type on another point is another slot
    p.add_bet(Bet::new_place(100, 8)).unwrap();
    assert_eq!(p.bets.len(), 2);
}

#[test]
fn cant_set_point_twice() {
    let b = Bet::new_come(50);
    let b = Bet::set_point(b, 5).unwrap();
    assert_eq!(b.point, Some(5));
    let res = Bet::set_point(b, 6);
    assert!(matches!(res, Err(BetError::CantSetPoint(_))));
    // non-flat types never take a point this way
    let lay = Bet::new_lay(50, 4);
    assert!(matches!(
        Bet::set_point(lay, 4),
        Err(BetError::CantSetPoint(_))
    ));
}

#[test]
fn does_not_win_is_an_error() {
    let b = Bet::new_place(500, 6);
    let r = roll(3, 4);
    match b.win_amount(r) {
        Err(BetError::DoesntWin(bb, rr)) => {
            assert_eq!(bb, b);
            assert_eq!(rr, r);
        }
        other => panic!("expected DoesntWin, got {:?}", other),
    }
}

#[test]
fn vig_is_five_percent_truncated() {
    assert_eq!(Bet::new_buy(500, 4).vig_amount(), 25);
    assert_eq!(Bet::new_lay(19, 4).vig_amount(), 0);
    assert_eq!(Bet::new_lay(20, 4).vig_amount(), 1);
    assert_eq!(Bet::new_buy(39, 4).vig_amount(), 1);
}

#[test]
fn field_pays_double_on_two_and_twelve() {
    let b = Bet::new_field(100);
    assert_eq!(b.win_amount(roll(1, 1)), Ok(200));
    assert_eq!(b.win_amount(roll(6, 6)), Ok(200));
    assert_eq!(b.win_amount(roll(5, 6)), Ok(100));
    assert_eq!(b.win_amount(roll(1, 2)), Ok(100));
    assert!(b.win_amount(roll(3, 4)).is_err());
}

#[test]
fn working_toggle_only_for_place() {
    let b = Bet::new_place(100, 6);
    let off = Bet::set_working(b, false).unwrap();
    assert!(!off.working());
    // a place bet turned off neither wins nor loses
    assert!(!off.wins_with(roll(2, 4)));
    assert!(!off.loses_with(roll(3, 4)));
    let back_on = Bet::set_working(off, true).unwrap();
    assert!(back_on.working());
    assert!(matches!(
        Bet::set_working(Bet::new_pass(5), false),
        Err(BetError::Working(BetType::Pass, false))
    ));
}

#[test]
fn table_point_state_machine() {
    let mut ts = TableState::new();
    assert_eq!(ts.point, None);
    // a come-out 3 changes nothing
    ts.apply_roll(roll(1, 2));
    assert_eq!(ts.point, None);
    // a come-out 4 puts the point on
    ts.apply_roll(roll(1, 3));
    assert_eq!(ts.point, Some(4));
    // another point number leaves the point alone
    ts.apply_roll(roll(4, 5));
    assert_eq!(ts.point, Some(4));
    // a seven takes it off
    ts.apply_roll(roll(3, 4));
    assert_eq!(ts.point, None);
    assert_eq!(ts.last_roll, Some(roll(3, 4)));
}

#[test]
fn resolve_refused_for_dont_bet_on_twelve() {
    let mut p = PlayerCommon::new(1_000);
    p.add_bet(Bet::new_dontpass(100)).unwrap();
    // a twelve pushes the don't-pass bet, and twelve is no legal point, so
    // resolution must be refused rather than corrupt the bet
    assert!(!p.can_resolve(roll(6, 6)));
    // any point roll is fine
    assert!(p.can_resolve(roll(1, 3)));
}

#[test]
fn given_rolls_replay_then_end() {
    let rolls = vec![roll(1, 2), roll(3, 4)];
    let mut g = GivenRolls::new(rolls);
    assert_eq!(g.gen(), Some(roll(1, 2)));
    assert_eq!(g.gen(), Some(roll(3, 4)));
    assert_eq!(g.gen(), None);
    assert_eq!(g.gen(), None);
}

#[test]
fn roll_iter_pairs_digits() {
    // digits outside 1..=6 and other bytes are skipped; the odd trailing
    // face is dropped
    let mut it = RollIter::new(b"14 2x39 5".to_vec());
    assert_eq!(it.next_roll(), Some(roll(1, 4)));
    assert_eq!(it.next_roll(), Some(roll(2, 3)));
    assert_eq!(it.next_roll(), None);
}

#[test]
fn weights_from_rolls() {
    let rolls = vec![roll(1, 2), roll(1, 5), roll(3, 2), roll(1, 2)];
    let (d1, d2) = die_weights_from_iter(&rolls);
    assert_eq!(d1, [3, 0, 1, 0, 0, 0]);
    assert_eq!(d2, [0, 3, 0, 0, 1, 0]);
    let w = roll_weights_from_iter(&rolls);
    // totals: 3, 6, 5, 3
    assert_eq!(w, [0, 2, 0, 1, 1, 0, 0, 0, 0, 0, 0]);
}

#[test]
fn roll_counts_tally() {
    let mut c = RollCounts::default();
    c.add(roll(2, 2)); // hard four
    c.add(roll(1, 3)); // easy four
    c.add(roll(5, 5)); // hard ten
    c.add(roll(6, 6)); // twelve, no hard tally (6-6 is not a hard way here)
    assert_eq!(c.all, [0, 0, 2, 0, 0, 0, 0, 0, 1, 0, 1]);
    assert_eq!(c.hard, [1, 0, 0, 1]);
}

#[test]
fn pass_player_lays_odds() {
    let mut p = PassPlayer::new(1_000);
    let ts = TableState::new();
    p.make_bets(&ts).unwrap();
    assert_eq!(p.common.bets.len(), 1);
    assert_eq!(p.common.bets[0].bet_type, BetType::Pass);
    // the come-out roll is a 5: the pass bet takes the point
    p.common.react_to_roll(&state_with(roll(2, 3)));
    p.make_bets(&ts).unwrap();
    assert_eq!(p.common.bets.len(), 2);
    assert_eq!(p.common.bets[1].bet_type, BetType::PassOdds);
    // six times the flat stake behind a 5
    assert_eq!(p.common.bets[1].amount, 30);
    // a third call changes nothing
    p.make_bets(&ts).unwrap();
    assert_eq!(p.common.bets.len(), 2);
}

#[test]
fn field_player_keeps_one_bet() {
    let mut p = FieldPlayer::new(100);
    let ts = TableState::new();
    p.make_bets(&ts).unwrap();
    assert_eq!(p.common.bets.len(), 1);
    p.make_bets(&ts).unwrap();
    assert_eq!(p.common.bets.len(), 1);
    assert_eq!(p.common.bankroll, 95);
}

#[test]
fn field_martingale_doubles_after_losses() {
    let mut p = FieldMartingalePlayer::new(10_000, 1_000);
    let ts = TableState::new();
    // no roll yet: the base unit goes up
    p.make_bets(&ts).unwrap();
    assert_eq!(p.common.bets[0].amount, 5);
    p.common.react_to_roll(&state_with(roll(3, 4)));
    // the seven lost the field bet: double to 10
    p.make_bets(&state_with(roll(3, 4))).unwrap();
    assert_eq!(p.num_lost, 1);
    assert_eq!(p.common.bets[0].amount, 10);
    p.common.react_to_roll(&state_with(roll(2, 4)));
    // lost again: double to 20
    p.make_bets(&state_with(roll(2, 4))).unwrap();
    assert_eq!(p.num_lost, 2);
    assert_eq!(p.common.bets[0].amount, 20);
    p.common.react_to_roll(&state_with(roll(1, 1)));
    // a field win resets the streak
    p.make_bets(&state_with(roll(1, 1))).unwrap();
    assert_eq!(p.num_lost, 0);
    assert_eq!(p.common.bets[0].amount, 5);
}

#[test]
fn dge_lays_against_fours() {
    let mut p = DGELay410MartingalePlayer::new(100_000);
    let four = state_with(roll(1, 3));
    // three fours: still nothing laid
    p.make_bets(&four).unwrap();
    p.make_bets(&four).unwrap();
    p.make_bets(&four).unwrap();
    assert_eq!(p.num_fours, 3);
    assert_eq!(p.common.bets.len(), 0);
    // the fourth four calls for a 50 lay against the 4
    p.make_bets(&four).unwrap();
    assert_eq!(p.num_fours, 4);
    assert_eq!(p.common.bets.len(), 1);
    assert_eq!(p.common.bets[0].bet_type, BetType::Lay);
    assert_eq!(p.common.bets[0].point, Some(4));
    assert_eq!(p.common.bets[0].amount, 50);
    // the fifth raises it to 150, replacing the old bet
    p.make_bets(&four).unwrap();
    assert_eq!(p.common.bets.len(), 1);
    assert_eq!(p.common.bets[0].amount, 150);
    // a roll that is neither 4, 7 nor 10 changes nothing
    p.make_bets(&state_with(roll(4, 5))).unwrap();
    assert_eq!(p.num_fours, 5);
    assert_eq!(p.common.bets[0].amount, 150);
    // a seven resets both counters and takes the lays down
    p.make_bets(&state_with(roll(3, 4))).unwrap();
    assert_eq!(p.num_fours, 0);
    assert_eq!(p.num_tens, 0);
    assert_eq!(p.common.bets.len(), 0);
    assert_eq!(p.common.bankroll, 100_000);
}

#[test]
fn come_bet_travels_and_dont_come_wins() {
    let mut p = PlayerCommon::new(1_000);
    p.add_bet(Bet::new_come(100)).unwrap();
    p.add_bet(Bet::new_dontcome(100)).unwrap();
    // a 9 gives both their point
    p.react_to_roll(&state_with(roll(4, 5)));
    assert_eq!(p.bets[0].point, Some(9));
    assert_eq!(p.bets[1].point, Some(9));
    // the seven: come loses its stake, don't-come wins even money
    p.react_to_roll(&state_with(roll(3, 4)));
    assert_eq!(p.bets.len(), 0);
    assert_eq!(p.bankroll, 800 + 200);
    assert_eq!(p.wagered, 0);
}
