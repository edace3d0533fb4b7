use fork::repo::{count_single_parent, get_fork_stats};

#[test]
fn merge_commits_are_not_counted() {
    // three single-parent commits and one merge commit ahead of the
    // merge-base: the divergence is three commits
    let counts: Vec<usize> = vec![1, 1, 2, 1];
    assert_eq!(count_single_parent(&counts), 3);
}

#[test]
fn root_commits_are_not_counted() {
    let counts: Vec<usize> = vec![0, 1, 3];
    assert_eq!(count_single_parent(&counts), 1);
}

#[test]
fn no_commits_means_no_divergence() {
    let counts: Vec<usize> = vec![];
    assert_eq!(count_single_parent(&counts), 0);
}

#[test]
fn missing_upstream_branch_is_an_error_and_stays_isolated() {
    // a real repository without the tracked remote branches: analysis fails
    // with a repository-access error and adds nothing anywhere
    let path = "/tmp/fork-divergence-test-repo";
    let repository = git2::Repository::init(path);
    assert!(repository.is_ok());
    let r = get_fork_stats(path, "upstream/develop", "maxiv/maxiv-develop");
    assert!(r.is_err());
    // the failure does not prevent the next repository's slot from being
    // processed: a following store write still succeeds
    let mut db = fork::database::Database::connect(":memory:").unwrap();
    db.add_fork_stats_entry(1, "p/next-repo", 1, 2, 3).unwrap();
    let fs = db.get_fork_stats("next-repo").unwrap();
    assert_eq!(fs.timestamps, vec![1]);
}

#[test]
fn unreadable_repository_is_an_error() {
    let r = get_fork_stats(
        "/nonexistent-repository-for-fork-tests",
        "upstream/develop",
        "maxiv/maxiv-develop",
    );
    assert!(r.is_err());
}
