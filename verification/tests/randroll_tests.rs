use cdc2::randroll::{DieWeights, RollGen, RollWeights};
use cdc2::roll::Roll;

#[test]
fn always_same() {
    let mut w = DieWeights::new_weights([1, 0, 0, 0, 0, 0]);
    for _ in 0..1000 {
        assert_eq!(w.gen(), Some(Roll::new([1, 1]).unwrap()));
    }
}

#[test]
fn always_valid() {
    let mut w = DieWeights::new_fair();
    for _ in 0..1000 {
        assert!(w.gen().is_some());
    }
}

#[test]
fn randroll_always_same() {
    let mut w = RollWeights::new_weights([1, 0, 0, 0, 0, 0, 0, 0, 0, 0, 0]);
    for _ in 0..1000 {
        assert_eq!(w.gen(), Some(Roll::new([1, 1]).unwrap()));
    }
}

#[test]
fn randroll_always_valid() {
    let mut w = RollWeights::new_fair();
    for _ in 0..1000 {
        assert!(w.gen().is_some());
    }
}
