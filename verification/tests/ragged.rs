//! Cutting ragged batch results.

use gigatoken_fastpath::ragged::{is_sound, split_ragged};

#[test]
fn sound_results_are_cut_in_order() {
    let rows = split_ragged(3, &vec![1, 2, 3, 4], &vec![1, 0, 3]);
    assert_eq!(rows, Some(vec![vec![1], vec![], vec![2, 3, 4]]));
    assert_eq!(split_ragged(0, &vec![], &vec![]), Some(vec![]));
    assert_eq!(split_ragged(2, &vec![], &vec![0, 0]), Some(vec![vec![], vec![]]));
}

#[test]
fn rows_put_together_are_the_flat_buffer() {
    let ids: Vec<u32> = (0..100).collect();
    let lens: Vec<i64> = vec![10, 0, 25, 1, 64];
    let rows = split_ragged(5, &ids, &lens).expect("sound");
    assert_eq!(rows.concat(), ids);
}

#[test]
fn cutting_gives_back_what_was_appended() {
    let singles: Vec<Vec<u32>> = vec![vec![7, 8], vec![], vec![9], vec![1, 2, 3]];
    let lens: Vec<i64> = singles.iter().map(|row| row.len() as i64).collect();
    assert_eq!(split_ragged(4, &singles.concat(), &lens), Some(singles));
}

#[test]
fn a_row_count_that_differs_from_the_inputs_is_rejected() {
    assert_eq!(split_ragged(3, &vec![1, 2], &vec![1, 1]), None);
    assert_eq!(split_ragged(1, &vec![1, 2], &vec![1, 1]), None);
}

#[test]
fn a_negative_length_is_rejected() {
    assert_eq!(split_ragged(3, &vec![1, 2], &vec![2, -1, 1]), None);
    assert_eq!(split_ragged(1, &vec![], &vec![i64::MIN]), None);
}

#[test]
fn lengths_that_do_not_add_up_are_rejected() {
    assert_eq!(split_ragged(2, &vec![1, 2, 3], &vec![1, 1]), None);
    assert_eq!(split_ragged(2, &vec![1, 2, 3], &vec![1, 3]), None);
    assert_eq!(split_ragged(2, &vec![1], &vec![0, 0]), None);
}

/// Added up in 64 bits, these lengths would come to zero.
#[test]
fn lengths_that_would_wrap_around_are_rejected() {
    let lens = vec![i64::MAX, i64::MAX, 2];
    assert!(!is_sound(3, &vec![], &lens));
    assert_eq!(split_ragged(3, &vec![], &lens), None);
}
