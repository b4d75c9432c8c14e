use cdc2::bet::{Bet, BetError, BetType, BUY_PAY_UPFRONT, LAY_PAY_UPFRONT};
use cdc2::roll::Roll;

fn all_bet_types() -> Vec<BetType> {
    vec![
        BetType::Pass,
        BetType::PassOdds,
        BetType::DontPass,
        BetType::DontPassOdds,
        BetType::Come,
        BetType::ComeOdds,
        BetType::DontCome,
        BetType::DontComeOdds,
        BetType::Place,
        BetType::Buy,
        BetType::Lay,
        BetType::Field,
    ]
}

fn all_rolls() -> Vec<Roll> {
    let mut v = vec![];
    for d1 in [1, 2, 3, 4, 5, 6].iter() {
        for d2 in [1, 2, 3, 4, 5, 6].iter() {
            v.push(Roll::new([*d1, *d2]).unwrap());
        }
    }
    v
}

fn points() -> Vec<u8> {
    vec![4, 5, 6, 8, 9, 10]
}

fn field_values() -> Vec<u8> {
    vec![2, 3, 4, 9, 10, 11, 12]
}

#[test]
fn set_working() {
    for bet_type in all_bet_types() {
        // some of these will be nonsense bets (like Pass that isn't working or DC Odds without
        // a point) but the important part is testing if we can set the point to true.
        for already_working in [true, false].iter() {
            for to_working in [true, false].iter() {
                let b = Bet::new(bet_type, *already_working, 30, None);
                let res = Bet::set_working(b, *to_working);
                if res.is_ok() && bet_type != BetType::Place {
                    panic!(
                        "Only Place bets can be set to {}working",
                        if *to_working { "" } else { "not " }
                    );
                } else if res.is_err() && bet_type == BetType::Place {
                    panic!(
                        "Should always be able to turn Place bets {}",
                        if *to_working { "on" } else { "off" }
                    );
                } else if res.is_ok() {
                    assert_eq!(bet_type, BetType::Place);
                    assert_eq!(res.unwrap(), Bet::new(bet_type, *to_working, 30, None));
                } else {
                    assert_ne!(bet_type, BetType::Place);
                    assert_eq!(res.unwrap_err(), BetError::Working(bet_type, *to_working));
                }
            }
        }
    }
}

#[test]
fn wins_with_not_working() {
    // can't win a bet that isn't working. Some of these bets will be nonsense, but this should
    // still hold true
    for bet_type in all_bet_types() {
        let b = Bet::new(bet_type, false, 5, None);
        for roll in all_rolls() {
            assert_eq!(b.wins_with(roll), false);
        }
    }
}

#[test]
fn wins_with() {
    for bet_type in all_bet_types() {
        for roll in all_rolls() {
            let amt = 500;
            match bet_type {
                BetType::Pass | BetType::Come => {
                    let b = if bet_type == BetType::Pass {
                        Bet::new_pass(amt)
                    } else {
                        Bet::new_come(amt)
                    };
                    let expect = roll.value() == 7 || roll.value() == 11;
                    assert_eq!(b.wins_with(roll), expect);
                    if !points().contains(&roll.value()) {
                        continue;
                    }
                    let b = Bet::set_point(b, roll.value()).unwrap();
                    assert!(b.wins_with(roll));
                }
                BetType::DontPass | BetType::DontCome => {
                    let b = if bet_type == BetType::DontPass {
                        Bet::new_dontpass(amt)
                    } else {
                        Bet::new_dontcome(amt)
                    };
                    let expect = roll.value() == 2 || roll.value() == 3;
                    assert_eq!(b.wins_with(roll), expect);
                    if !points().contains(&roll.value()) {
                        continue;
                    }
                    let b = Bet::set_point(b, roll.value()).unwrap();
                    assert!(b.wins_with(Roll::new([3, 4]).unwrap()));
                }
                BetType::PassOdds | BetType::ComeOdds | BetType::Place | BetType::Buy => {
                    let point = if points().contains(&roll.value()) {
                        roll.value()
                    } else {
                        4
                    };
                    let b = if bet_type == BetType::PassOdds {
                        Bet::new_passodds(amt, point)
                    } else if bet_type == BetType::ComeOdds {
                        Bet::new_comeodds(amt, point)
                    } else if bet_type == BetType::Place {
                        Bet::new_place(amt, point)
                    } else {
                        Bet::new_buy(amt, point)
                    };
                    assert!(b.point.is_some());
                    let expect = roll.value() == b.point.unwrap();
                    assert_eq!(b.wins_with(roll), expect);
                }
                BetType::DontPassOdds | BetType::DontComeOdds | BetType::Lay => {
                    let point = if points().contains(&roll.value()) {
                        roll.value()
                    } else {
                        4
                    };
                    let b = if bet_type == BetType::DontPassOdds {
                        Bet::new_dontpassodds(amt, point)
                    } else if bet_type == BetType::DontComeOdds {
                        Bet::new_dontcomeodds(amt, point)
                    } else {
                        Bet::new_lay(amt, point)
                    };
                    assert!(b.point.is_some());
                    let expect = roll.value() == 7;
                    assert_eq!(b.wins_with(roll), expect);
                }
                BetType::Field => {
                    let b = Bet::new_field(amt);
                    let expect = field_values().contains(&roll.value());
                    assert_eq!(b.wins_with(roll), expect);
                }
            }
        }
    }
}

#[test]
fn loses_with_not_working() {
    // can't lose a bet that isn't working. Some of these bets will be nonsense, but this
    // should still hold true
    for bet_type in all_bet_types() {
        let b = Bet::new(bet_type, false, 5, None);
        for roll in all_rolls() {
            assert_eq!(b.loses_with(roll), false);
        }
    }
}

#[test]
fn win_amount() {
    for bet_type in all_bet_types() {
        match bet_type {
            BetType::Pass | BetType::Come => {
                let b = if bet_type == BetType::Pass {
                    Bet::new_pass(500)
                } else {
                    Bet::new_come(500)
                };
                assert_eq!(b.win_amount(Roll::new([3, 4]).unwrap()), Ok(500));
                assert_eq!(b.win_amount(Roll::new([5, 6]).unwrap()), Ok(500));
                let b = Bet::set_point(b, 4).unwrap();
                assert_eq!(b.win_amount(Roll::new([1, 3]).unwrap()), Ok(500));
            }
            BetType::DontPass | BetType::DontCome => {
                let b = if bet_type == BetType::DontPass {
                    Bet::new_dontpass(500)
                } else {
                    Bet::new_dontcome(500)
                };
                assert_eq!(b.win_amount(Roll::new([1, 1]).unwrap()), Ok(500));
                assert_eq!(b.win_amount(Roll::new([1, 2]).unwrap()), Ok(500));
                let b = Bet::set_point(b, 4).unwrap();
                assert_eq!(b.win_amount(Roll::new([3, 4]).unwrap()), Ok(500));
            }
            BetType::DontPassOdds | BetType::DontComeOdds => {
                for (point, roll) in [
                    (4, Roll::new([1, 6]).unwrap()),
                    (5, Roll::new([1, 6]).unwrap()),
                    (6, Roll::new([1, 6]).unwrap()),
                    (8, Roll::new([1, 6]).unwrap()),
                    (9, Roll::new([1, 6]).unwrap()),
                    (10, Roll::new([1, 6]).unwrap()),
                ]
                .iter()
                {
                    let amt = 600;
                    let b = if bet_type == BetType::DontPass {
                        Bet::new_dontpassodds(amt, *point)
                    } else {
                        Bet::new_dontcomeodds(amt, *point)
                    };
                    let win = match *point {
                        4 | 10 => amt * 1 / 2,
                        5 | 9 => amt * 2 / 3,
                        6 | 8 => amt * 5 / 6,
                        _ => panic!(),
                    };
                    assert_eq!(b.win_amount(*roll), Ok(win));
                }
            }
            BetType::PassOdds | BetType::ComeOdds => {
                for (point, roll) in [
                    (4, Roll::new([1, 3]).unwrap()),
                    (5, Roll::new([1, 4]).unwrap()),
                    (6, Roll::new([1, 5]).unwrap()),
                    (8, Roll::new([2, 6]).unwrap()),
                    (9, Roll::new([3, 6]).unwrap()),
                    (10, Roll::new([4, 6]).unwrap()),
                ]
                .iter()
                {
                    let amt = 500;
                    let b = if bet_type == BetType::Pass {
                        Bet::new_passodds(amt, *point)
                    } else {
                        Bet::new_comeodds(amt, *point)
                    };
                    let win = match *point {
                        4 | 10 => amt * 2,
                        5 | 9 => amt * 3 / 2,
                        6 | 8 => amt * 6 / 5,
                        _ => panic!(),
                    };
                    assert_eq!(b.win_amount(*roll), Ok(win));
                }
            }
            BetType::Field => {
                let b = Bet::new_field(500);
                assert_eq!(b.win_amount(Roll::new([4, 5]).unwrap()), Ok(500));
                assert_eq!(b.win_amount(Roll::new([1, 1]).unwrap()), Ok(1000));
                assert_eq!(b.win_amount(Roll::new([6, 6]).unwrap()), Ok(1000));
                assert_eq!(b.win_amount(Roll::new([5, 6]).unwrap()), Ok(500));
            }
            BetType::Place => {
                for roll in [
                    Roll::new([1, 3]).unwrap(),
                    Roll::new([1, 4]).unwrap(),
                    Roll::new([1, 5]).unwrap(),
                    Roll::new([2, 6]).unwrap(),
                    Roll::new([3, 6]).unwrap(),
                    Roll::new([4, 6]).unwrap(),
                ]
                .iter()
                {
                    let amt = 500;
                    let b = Bet::new_place(amt, roll.value());
                    let win = match roll.value() {
                        4 | 10 => amt * 9 / 5,
                        5 | 9 => amt * 7 / 5,
                        6 | 8 => amt * 7 / 6,
                        _ => panic!(),
                    };
                    assert_eq!(b.win_amount(*roll), Ok(win));
                }
            }
            BetType::Buy => {
                for roll in [
                    Roll::new([1, 3]).unwrap(),
                    Roll::new([1, 4]).unwrap(),
                    Roll::new([1, 5]).unwrap(),
                    Roll::new([2, 6]).unwrap(),
                    Roll::new([3, 6]).unwrap(),
                    Roll::new([4, 6]).unwrap(),
                ]
                .iter()
                {
                    let amt = 500;
                    let vig = if BUY_PAY_UPFRONT { 0 } else { amt * 5 / 100 };
                    let b = Bet::new_buy(amt, roll.value());
                    let win = match roll.value() {
                        4 | 10 => amt * 2,
                        5 | 9 => amt * 3 / 2,
                        6 | 8 => amt * 6 / 5,
                        _ => panic!(),
                    };
                    assert_eq!(b.win_amount(*roll), Ok(win - vig));
                }
            }
            BetType::Lay => {
                for point in [4, 5, 6, 8, 9, 10].iter() {
                    let amt = 500;
                    let b = Bet::new_lay(amt, *point);
                    let win = match *point {
                        4 | 10 => amt / 2,
                        5 | 9 => amt * 2 / 3,
                        6 | 8 => amt * 5 / 6,
                        _ => panic!(),
                    };
                    let vig = if LAY_PAY_UPFRONT { 0 } else { win * 5 / 100 };
                    assert_eq!(b.win_amount(Roll::new([3, 4]).unwrap()), Ok(win - vig));
                }
            }
        }
    }
}
