use learning_rust::gather::{count_successes, split_joined, DownloadTally};

#[test]
fn joined_results_keep_input_order() {
    let outcomes: Vec<Result<(&str, usize), String>> = vec![
        Ok(("todos/1", 10)),
        Err("panicked".to_string()),
        Ok(("todos/3", 30)),
        Ok(("todos/4", 40)),
    ];
    let (done, failed) = split_joined(outcomes);
    assert_eq!(done, vec![("todos/1", 10), ("todos/3", 30), ("todos/4", 40)]);
    assert_eq!(failed, vec!["panicked".to_string()]);
}

#[test]
fn one_result_per_url_when_no_task_fails() {
    let urls = ["todos/1", "todos/2", "todos/3"];
    let outcomes: Vec<Result<&str, ()>> = urls.iter().map(|u| Ok(*u)).collect();
    let (done, failed) = split_joined(outcomes);
    assert_eq!(done.len(), urls.len());
    assert_eq!(done, urls.to_vec());
    assert!(failed.is_empty());
}

#[test]
fn counts_successful_entries() {
    let results: Vec<(&str, Result<String, String>)> = vec![
        ("a", Ok("x".to_string())),
        ("b", Err("timed out".to_string())),
        ("c", Ok("y".to_string())),
    ];
    assert_eq!(count_successes(&results), 2);
    let empty: Vec<(&str, Result<u8, u8>)> = Vec::new();
    assert_eq!(count_successes(&empty), 0);
}

#[test]
fn tally_sums_bytes_and_counts_failures() {
    let mut t = DownloadTally::new();
    for size in [10240usize, 20480, 51200] {
        assert!(t.can_add(size));
        t.add_success(size);
    }
    t.add_failure();
    assert_eq!(t.total_bytes, 81920);
    assert_eq!(t.errors, 1);
    t.add_success(usize::MAX - 81920);
    assert!(!t.can_add(1));
    assert!(t.can_add(0));
}
