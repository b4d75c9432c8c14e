use cdc2::roll::{Roll, RollError};

fn all_pairs() -> Vec<(u8, u8)> {
    let mut v = vec![];
    for d1 in [1, 2, 3, 4, 5, 6].iter() {
        for d2 in [1, 2, 3, 4, 5, 6].iter() {
            v.push((*d1, *d2));
        }
    }
    v
}

#[test]
fn new_ok() {
    for (d1, d2) in all_pairs() {
        let r = Roll::new([d1, d2]);
        assert!(r.is_ok());
        let r = r.unwrap();
        assert_eq!(r.0[0], d1);
        assert_eq!(r.0[1], d2);
    }
}

#[test]
fn new_err_oor() {
    for d1 in [0, 7, 10, 100, 255].iter() {
        // bad die is first
        let r = Roll::new([*d1, 1]);
        assert!(r.is_err());
        let r = r.unwrap_err();
        match r {
            RollError::OutOfRange(_) => {}
        }
        // bad die is second
        let r = Roll::new([1, *d1]);
        assert!(r.is_err());
        let r = r.unwrap_err();
        match r {
            RollError::OutOfRange(_) => {}
        }
    }
}

#[test]
fn hard() {
    for (d1, d2) in all_pairs() {
        let hard = d1 == d2 && d1 != 1 && d1 != 6;
        let r = Roll::new([d1, d2]).unwrap();
        assert_eq!(r.is_hard(), hard);
    }
}

#[test]
fn value() {
    for (d1, d2) in all_pairs() {
        let r = Roll::new([d1, d2]).unwrap();
        assert_eq!(r.value(), d1 + d2);
    }
}
