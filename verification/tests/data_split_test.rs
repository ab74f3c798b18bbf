use mlp::data::loader::encode_text_column;
use mlp::data::split::{group_rows_by_key, rng_from_seed, split_groups_by_ratio};

fn keys(values: &[&str]) -> Vec<String> {
    values.iter().map(|s| s.to_string()).collect()
}

#[test]
fn groups_follow_key_order_and_row_order() {
    let groups = group_rows_by_key(&keys(&["1", "0", "1", "10", "0", "1"]));
    assert_eq!(groups, vec![vec![1, 4], vec![0, 2, 5], vec![3]]);
}

#[test]
fn grouping_no_rows() {
    assert!(group_rows_by_key(&Vec::new()).is_empty());
}

#[test]
fn stratified_split_preserves_class_counts() {
    let labels: Vec<&str> = (0..100).map(|i| if i % 4 == 0 { "1" } else { "0" }).collect();
    let groups = group_rows_by_key(&keys(&labels));
    assert_eq!(groups.len(), 2);
    let sizes: Vec<usize> = groups.iter().map(|g| ((g.len() as f64) * 0.8).round() as usize).collect();
    let mut rng = rng_from_seed(Some(42));
    let (train, val) = split_groups_by_ratio(&groups, &sizes, &mut rng);
    assert_eq!(train.len(), 80);
    assert_eq!(val.len(), 20);
    let train_pos = train.iter().filter(|i| **i % 4 == 0).count();
    let val_pos = val.iter().filter(|i| **i % 4 == 0).count();
    assert_eq!(train_pos, 20);
    assert_eq!(val_pos, 5);
    let mut all: Vec<usize> = train.iter().chain(val.iter()).copied().collect();
    all.sort();
    assert_eq!(all, (0..100).collect::<Vec<usize>>());
}

#[test]
fn same_seed_same_split() {
    let groups = group_rows_by_key(&keys(&["a", "b", "a", "b", "a", "b", "a", "a"]));
    let sizes: Vec<usize> = groups.iter().map(|g| g.len() / 2).collect();
    let mut rng1 = rng_from_seed(Some(7));
    let mut rng2 = rng_from_seed(Some(7));
    let first = split_groups_by_ratio(&groups, &sizes, &mut rng1);
    let second = split_groups_by_ratio(&groups, &sizes, &mut rng2);
    assert_eq!(first, second);
}

#[test]
fn unseeded_split_is_still_a_partition() {
    let groups = vec![vec![0, 2, 4], vec![1, 3]];
    let mut rng = rng_from_seed(None);
    let (train, val) = split_groups_by_ratio(&groups, &vec![2, 0], &mut rng);
    assert_eq!(train.len(), 2);
    assert_eq!(val.len(), 3);
    assert!(train.iter().all(|i| i % 2 == 0));
}

#[test]
fn text_column_codes_follow_sorted_distinct_values() {
    let column: Vec<Option<String>> = vec![
        Some("M".to_string()),
        Some("B".to_string()),
        None,
        Some(String::new()),
        Some("M".to_string()),
        Some("A".to_string()),
    ];
    assert_eq!(encode_text_column(&column), vec![2, 1, 0, 0, 2, 0]);
}

#[test]
fn text_column_codes_use_code_point_order() {
    let column: Vec<Option<String>> = vec![
        Some("b".to_string()),
        Some("B".to_string()),
        Some("ab".to_string()),
        Some("a".to_string()),
        Some("é".to_string()),
    ];
    assert_eq!(encode_text_column(&column), vec![3, 0, 2, 1, 4]);
}

/// Rows per class that go to training: the class size times the ratio,
/// rounded, as the training pipeline computes it.
fn train_sizes(groups: &[Vec<usize>], ratio: f64) -> Vec<usize> {
    groups
        .iter()
        .map(|g| (g.len() as f64 * ratio).round() as usize)
        .collect()
}

#[test]
fn stratified_split_by_target_preserves_class_proportions() {
    let target = [0.0f64, 0.0, 0.0, 0.0, 0.0, 1.0, 1.0, 1.0, 1.0, 1.0];
    let keys: Vec<String> = target.iter().map(|v| v.to_string()).collect();
    let groups = group_rows_by_key(&keys);
    let sizes = train_sizes(&groups, 0.6);
    let mut rng = rng_from_seed(Some(13));
    let (train, test) = split_groups_by_ratio(&groups, &sizes, &mut rng);

    let class_one_in = |rows: &[usize]| rows.iter().filter(|r| target[**r] > 0.5).count();
    assert_eq!(train.len() + test.len(), 10);
    assert_eq!(class_one_in(&train), 3);
    assert_eq!(class_one_in(&test), 2);
    assert_eq!(train.len(), 6);
    assert_eq!(test.len(), 4);
}

#[test]
fn stratified_split_by_target_same_seed_same_split() {
    let target = [0.0f64, 0.0, 1.0, 1.0];
    let keys: Vec<String> = target.iter().map(|v| v.to_string()).collect();
    let groups = group_rows_by_key(&keys);
    let sizes = train_sizes(&groups, 0.5);

    let mut rng_a = rng_from_seed(Some(7));
    let (train_a, test_a) = split_groups_by_ratio(&groups, &sizes, &mut rng_a);
    let mut rng_b = rng_from_seed(Some(7));
    let (train_b, test_b) = split_groups_by_ratio(&groups, &sizes, &mut rng_b);

    assert_eq!(train_a, train_b);
    assert_eq!(test_a, test_b);
}
