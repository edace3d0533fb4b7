use fork::database::{file_name, Database};

#[test]
fn file_name_is_final_segment() {
    assert_eq!(file_name("a/b/c"), "c");
    assert_eq!(file_name("repo"), "repo");
    assert_eq!(file_name("/var/lib/mxcubecore"), "mxcubecore");
    assert_eq!(file_name("trailing/"), "");
}

#[test]
fn resolving_a_name_twice_gives_the_same_id() {
    let mut db = Database::connect(":memory:").unwrap();
    let id1 = db.get_repo_id_by_name("x").unwrap();
    let id2 = db.get_repo_id_by_name("x").unwrap();
    assert_eq!(id1, id2);
    let other = db.get_repo_id_by_name("y").unwrap();
    assert_ne!(other, id1);
    let id3 = db.get_repo_id_by_name("x").unwrap();
    assert_eq!(id3, id1);
}

#[test]
fn series_comes_back_ordered_regardless_of_insertion_order() {
    let mut db = Database::connect(":memory:").unwrap();
    db.add_fork_stats_entry(300, "p/repoa", 3, 30, 33).unwrap();
    db.add_fork_stats_entry(100, "p/repoa", 1, 10, 11).unwrap();
    db.add_fork_stats_entry(200, "p/repoa", 2, 20, 22).unwrap();
    let fs = db.get_fork_stats("repoa").unwrap();
    assert_eq!(fs.timestamps, vec![100, 200, 300]);
    assert_eq!(fs.commits, vec![1, 2, 3]);
    assert_eq!(fs.insertions, vec![10, 20, 30]);
    assert_eq!(fs.deletions, vec![11, 22, 33]);
}

#[test]
fn appended_sample_is_read_back_at_its_ordinal_position() {
    let mut db = Database::connect(":memory:").unwrap();
    db.add_fork_stats_entry(100, "p/repob", 1, 1, 1).unwrap();
    db.add_fork_stats_entry(300, "p/repob", 3, 3, 3).unwrap();
    db.add_fork_stats_entry(200, "p/repob", 7, 8, 9).unwrap();
    let fs = db.get_fork_stats("repob").unwrap();
    assert_eq!(fs.timestamps[1], 200);
    assert_eq!(fs.commits[1], 7);
    assert_eq!(fs.insertions[1], 8);
    assert_eq!(fs.deletions[1], 9);
    assert_eq!(fs.timestamps.len(), 3);
}

#[test]
fn duplicate_timestamps_are_kept() {
    let mut db = Database::connect(":memory:").unwrap();
    db.add_fork_stats_entry(100, "p/repoc", 1, 1, 1).unwrap();
    db.add_fork_stats_entry(100, "p/repoc", 2, 2, 2).unwrap();
    let fs = db.get_fork_stats("repoc").unwrap();
    assert_eq!(fs.timestamps, vec![100, 100]);
}

#[test]
fn unseen_name_queries_empty() {
    let mut db = Database::connect(":memory:").unwrap();
    let fs = db.get_fork_stats("never-written").unwrap();
    assert_eq!(fs.timestamps.len(), 0);
    assert_eq!(fs.commits.len(), 0);
    assert_eq!(fs.insertions.len(), 0);
    assert_eq!(fs.deletions.len(), 0);
}

#[test]
fn series_of_different_repositories_stay_apart() {
    let mut db = Database::connect(":memory:").unwrap();
    db.add_fork_stats_entry(100, "p/one", 1, 1, 1).unwrap();
    db.add_fork_stats_entry(200, "p/two", 2, 2, 2).unwrap();
    let one = db.get_fork_stats("one").unwrap();
    let two = db.get_fork_stats("two").unwrap();
    assert_eq!(one.timestamps, vec![100]);
    assert_eq!(two.timestamps, vec![200]);
}

#[test]
fn out_of_range_values_are_storage_errors() {
    let mut db = Database::connect(":memory:").unwrap();
    let r = db.add_fork_stats_entry(1, "p/repod", usize::MAX, 0, 0);
    assert!(r.is_err());
    let r = db.add_fork_stats_entry(u64::MAX, "p/repod", 0, 0, 0);
    assert!(r.is_err());
    let r = db.add_fork_stats_entry(1, "ends-with-separator/", 0, 0, 0);
    assert!(r.is_err());
    // none of the failed appends left a sample behind
    let fs = db.get_fork_stats("repod").unwrap();
    assert_eq!(fs.timestamps.len(), 0);
}

#[test]
fn connect_to_an_impossible_path_fails() {
    let r = Database::connect("/nonexistent-directory-for-fork-tests/fork.db");
    assert!(r.is_err());
}
