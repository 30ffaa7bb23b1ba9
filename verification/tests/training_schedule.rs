use neural_net::trainer::{TrainAction, Trainer};

fn b(x: f64) -> u64 {
    x.to_bits()
}

fn four_examples() -> Vec<(Vec<u64>, Vec<u64>)> {
    vec![
        (vec![b(0.0), b(0.0)], vec![b(0.0)]),
        (vec![b(0.0), b(1.0)], vec![b(1.0)]),
        (vec![b(1.0), b(0.0)], vec![b(1.0)]),
        (vec![b(1.0), b(1.0)], vec![b(0.0)]),
    ]
}

fn sorted(data: &[(Vec<u64>, Vec<u64>)]) -> Vec<(Vec<u64>, Vec<u64>)> {
    let mut v = data.to_vec();
    v.sort();
    v
}

#[test]
fn reported_run_evaluates_each_epoch() {
    let mut t = Trainer::new(four_examples(), 2, 2, true, 7);
    assert_eq!(t.next_step(), TrainAction::ShuffleEpoch);
    assert_eq!(t.next_step(), TrainAction::TrainBatch(0, 2));
    assert_eq!(t.next_step(), TrainAction::TrainBatch(2, 4));
    assert_eq!(t.next_step(), TrainAction::Evaluate(1));
    assert_eq!(t.next_step(), TrainAction::ShuffleEpoch);
    assert_eq!(t.next_step(), TrainAction::TrainBatch(0, 2));
    assert_eq!(t.next_step(), TrainAction::TrainBatch(2, 4));
    assert_eq!(t.next_step(), TrainAction::Evaluate(2));
    assert_eq!(t.next_step(), TrainAction::Done);
    assert_eq!(t.next_step(), TrainAction::Done);
}

#[test]
fn unreported_run_evaluates_once_at_the_end() {
    let mut t = Trainer::new(four_examples(), 4, 2, false, 7);
    assert_eq!(t.next_step(), TrainAction::ShuffleEpoch);
    assert_eq!(t.next_step(), TrainAction::TrainBatch(0, 4));
    assert_eq!(t.next_step(), TrainAction::ShuffleEpoch);
    assert_eq!(t.next_step(), TrainAction::TrainBatch(0, 4));
    assert_eq!(t.next_step(), TrainAction::Evaluate(2));
    assert_eq!(t.next_step(), TrainAction::Done);
}

#[test]
fn last_batch_may_be_shorter() {
    let mut t = Trainer::new(four_examples(), 3, 1, true, 7);
    assert_eq!(t.next_step(), TrainAction::ShuffleEpoch);
    assert_eq!(t.next_step(), TrainAction::TrainBatch(0, 3));
    assert_eq!(t.next_step(), TrainAction::TrainBatch(3, 4));
    assert_eq!(t.next_step(), TrainAction::Evaluate(1));
    assert_eq!(t.next_step(), TrainAction::Done);
}

#[test]
fn zero_epochs_unreported_still_evaluates() {
    let mut t = Trainer::new(four_examples(), 2, 0, false, 7);
    assert_eq!(t.next_step(), TrainAction::Evaluate(0));
    assert_eq!(t.next_step(), TrainAction::Done);
}

#[test]
fn zero_epochs_reported_does_nothing() {
    let mut t = Trainer::new(four_examples(), 2, 0, true, 7);
    assert_eq!(t.next_step(), TrainAction::Done);
}

#[test]
fn empty_training_set_spins_through_epochs() {
    let mut t = Trainer::new(Vec::new(), 2, 2, false, 7);
    assert_eq!(t.next_step(), TrainAction::ShuffleEpoch);
    assert_eq!(t.next_step(), TrainAction::ShuffleEpoch);
    assert_eq!(t.next_step(), TrainAction::Evaluate(2));
    assert_eq!(t.next_step(), TrainAction::Done);
}

#[test]
fn shuffle_keeps_the_same_examples() {
    let data = four_examples();
    let before = sorted(&data);
    let mut t = Trainer::new(data, 2, 1, true, 42);
    assert_eq!(t.next_step(), TrainAction::ShuffleEpoch);
    assert_eq!(sorted(&t.data), before);
    assert_eq!(t.data.len(), 4);
}

#[test]
fn shuffle_actually_reorders() {
    // Eight distinct rows: for this seed the Fisher-Yates pass must move at
    // least one of them.
    let data: Vec<(Vec<u64>, Vec<u64>)> =
        (0..8u64).map(|i| (vec![i], vec![i + 100])).collect();
    let original = data.clone();
    let mut t = Trainer::new(data, 4, 1, true, 3);
    assert_eq!(t.next_step(), TrainAction::ShuffleEpoch);
    assert_eq!(sorted(&t.data), sorted(&original));
    assert_ne!(t.data, original);
}

#[test]
fn same_seed_shuffles_the_same_way() {
    let mut a = Trainer::new(four_examples(), 2, 1, true, 1234);
    let mut c = Trainer::new(four_examples(), 2, 1, true, 1234);
    a.next_step();
    c.next_step();
    assert_eq!(a.data, c.data);
}
