use mlp::training::batch::create_batches;

#[test]
fn batch_iterator_visits_all_rows_once_with_batch_size_1() {
    let indices: Vec<usize> = (0..4).collect();
    let mut iter = create_batches(&indices, 1);
    let mut count = 0;
    while iter.next_batch().is_some() {
        count += 1;
    }
    assert_eq!(count, 4);
}

#[test]
fn batch_iterator_groups_consecutive_indices_together() {
    let indices: Vec<usize> = (0..4).collect();
    let mut iter = create_batches(&indices, 2);
    assert_eq!(iter.next_batch(), Some(vec![0, 1]));
    assert_eq!(iter.next_batch(), Some(vec![2, 3]));
    assert!(iter.next_batch().is_none());
}

#[test]
fn batch_iterator_with_batch_size_larger_than_data() {
    let indices: Vec<usize> = (0..4).collect();
    let mut iter = create_batches(&indices, 100);
    let mut count = 0;
    while iter.next_batch().is_some() {
        count += 1;
    }
    assert_eq!(count, 1);
}

#[test]
fn batch_iterator_empty_indices_returns_none_immediately() {
    let indices: Vec<usize> = vec![];
    let mut iter = create_batches(&indices, 2);
    assert!(iter.next_batch().is_none());
}

#[test]
fn batch_iterator_respects_shuffled_indices() {
    let indices: Vec<usize> = (0..4).rev().collect();
    let mut iter = create_batches(&indices, 2);
    assert_eq!(iter.next_batch(), Some(vec![3, 2]));
}

#[test]
fn batches_rejoin_to_the_index_list() {
    let indices: Vec<usize> = vec![9, 4, 7, 1, 0, 3, 8];
    let mut iter = create_batches(&indices, 3);
    let mut joined = Vec::new();
    let mut sizes = Vec::new();
    while let Some(batch) = iter.next_batch() {
        sizes.push(batch.len());
        joined.extend(batch);
    }
    assert_eq!(joined, indices);
    assert_eq!(sizes, vec![3, 3, 1]);
}

#[test]
fn batch_iterator_stays_exhausted() {
    let indices: Vec<usize> = vec![5];
    let mut iter = create_batches(&indices, usize::MAX);
    assert_eq!(iter.next_batch(), Some(vec![5]));
    assert!(iter.next_batch().is_none());
    assert!(iter.next_batch().is_none());
}

#[test]
fn batch_iterator_sum_by_accumulates_all_rows() {
    let indices: Vec<usize> = (0..4).collect();
    let mut iter = create_batches(&indices, 2);
    let mut total = 0usize;
    while let Some(batch) = iter.next_batch() {
        total += batch.len();
    }
    assert_eq!(total, 4);
}

#[test]
fn batch_iterator_each_batch_has_correct_shape() {
    let indices: Vec<usize> = (0..4).collect();
    let mut iter = create_batches(&indices, 2);
    while let Some(batch) = iter.next_batch() {
        assert_eq!(batch.len(), 2);
        assert!(batch.iter().all(|row| *row < 4));
    }
}
