use neural_net::data::{batch_bounds, pair_examples, DataError};
use neural_net::evaluate::{arg_max, count_correct, ONE_WORD};

fn b(x: f64) -> u64 {
    x.to_bits()
}

#[test]
fn one_word_is_the_scalar_one() {
    assert_eq!(ONE_WORD, 1.0f64.to_bits());
}

#[test]
fn batch_bounds_covers_with_short_tail() {
    assert_eq!(batch_bounds(10, 3), vec![(0, 3), (3, 6), (6, 9), (9, 10)]);
    assert_eq!(batch_bounds(4, 2), vec![(0, 2), (2, 4)]);
    assert_eq!(batch_bounds(3, 5), vec![(0, 3)]);
    assert_eq!(batch_bounds(0, 4), Vec::<(usize, usize)>::new());
}

#[test]
fn pair_examples_slices_rows() {
    let inputs = vec![b(0.1), b(0.2), b(0.3), b(0.4), b(0.5), b(0.6)];
    let targets = vec![b(1.0), b(0.0), b(0.0), b(1.0)];
    let r = pair_examples(&inputs, &targets, 3, 2).unwrap();
    assert_eq!(r.len(), 2);
    assert_eq!(r[0].0, vec![b(0.1), b(0.2), b(0.3)]);
    assert_eq!(r[0].1, vec![b(1.0), b(0.0)]);
    assert_eq!(r[1].0, vec![b(0.4), b(0.5), b(0.6)]);
    assert_eq!(r[1].1, vec![b(0.0), b(1.0)]);
}

#[test]
fn pair_examples_rejects_zero_row_length() {
    let r = pair_examples(&vec![], &vec![], 0, 2);
    assert!(matches!(r, Err(DataError::ZeroRowLength)));
    let r = pair_examples(&vec![], &vec![], 2, 0);
    assert!(matches!(r, Err(DataError::ZeroRowLength)));
}

#[test]
fn pair_examples_rejects_ragged_streams() {
    let r = pair_examples(&vec![0u64; 5], &vec![0u64; 4], 3, 2);
    assert!(matches!(r, Err(DataError::LengthMismatch)));
    let r = pair_examples(&vec![0u64; 6], &vec![0u64; 3], 3, 2);
    assert!(matches!(r, Err(DataError::LengthMismatch)));
    let r = pair_examples(&vec![0u64; 6], &vec![0u64; 6], 3, 2);
    assert!(matches!(r, Err(DataError::LengthMismatch)));
}

#[test]
fn arg_max_picks_first_greatest() {
    assert_eq!(arg_max(&vec![b(0.1), b(0.9), b(0.5)]), 1);
    assert_eq!(arg_max(&vec![b(0.9), b(0.1), b(0.9)]), 0);
    assert_eq!(arg_max(&vec![b(0.0), b(0.0)]), 0);
    assert_eq!(arg_max(&Vec::new()), 0);
    assert_eq!(arg_max(&vec![b(0.25)]), 0);
}

#[test]
fn count_correct_matches_one_hot_targets() {
    let outputs = vec![
        vec![b(0.1), b(0.8), b(0.1)],
        vec![b(0.6), b(0.3), b(0.1)],
        vec![b(0.2), b(0.3), b(0.5)],
    ];
    let targets = vec![
        vec![b(0.0), b(1.0), b(0.0)],
        vec![b(0.0), b(1.0), b(0.0)],
        vec![b(0.0), b(0.0), b(1.0)],
    ];
    assert_eq!(count_correct(&outputs, &targets), 2);
}

#[test]
fn count_correct_on_empty_set_is_zero() {
    assert_eq!(count_correct(&Vec::new(), &Vec::new()), 0);
}
