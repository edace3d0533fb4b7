//! Divergence analysis of a fork branch against its upstream branch: how many
//! commits, and how many inserted and deleted lines, the fork carries beyond
//! the merge-base of the two branches. The commit graph itself lives in the
//! repository on disk and is reached through libgit2; the counting rule —
//! merge commits are integration noise and are excluded — is verified here.
//!
//! The repository's contents are modelled by uninterpreted functions over the
//! opened handle: what each remote branch points at, the merge-base of two
//! commits, the commit range a walk yields, each commit's parent count, and
//! the line counts of a tree diff. The model reads each handle as the sole
//! owner of the on-disk state it opens: a call that refreshes the repository
//! takes the handle exclusively, and nothing else is assumed to write the
//! repository while a handle lives. The collector opens one handle per run
//! and fetches before reading, so it keeps that reading.

use vstd::prelude::*;

verus! {

/// The divergence of a fork branch from the merge-base with its upstream.
pub struct ForkStats {
    pub commits_count: usize,
    pub insertions: usize,
    pub deletions: usize,
}

#[verifier::external_type_specification]
#[verifier::external_body]
pub struct ExRepository(git2::Repository);

#[verifier::external_type_specification]
#[verifier::external_body]
pub struct ExOid(git2::Oid);

#[verifier::external_type_specification]
#[verifier::external_body]
pub struct ExGitError(git2::Error);

/// The commit a remote branch of the repository points at: None when no such
/// branch exists or its reference resolves to no direct target.
pub uninterp spec fn remote_branch_target(repo: git2::Repository, name: Seq<char>) -> Option<
    git2::Oid,
>;

/// The merge-base (lowest common ancestor) of two commits in the
/// repository's commit graph: None when the commits share no ancestor.
pub uninterp spec fn merge_base_id(repo: git2::Repository, one: git2::Oid, two: git2::Oid) -> Option<
    git2::Oid,
>;

/// The commits reachable from `from` but not from `exclude`, in the order
/// the repository's revision walk yields them.
pub uninterp spec fn walked_range(repo: git2::Repository, from: git2::Oid, exclude: git2::Oid) -> Seq<
    git2::Oid,
>;

/// How many parents a commit of the repository has.
pub uninterp spec fn parent_count_of(repo: git2::Repository, id: git2::Oid) -> usize;

/// The summed per-file (added, removed) line counts of the diff from `old`'s
/// tree to `new`'s tree, in that orientation: additions are lines present on
/// the new side and absent from the old.
pub uninterp spec fn diff_counts(repo: git2::Repository, old: git2::Oid, new: git2::Oid) -> (
    usize,
    usize,
);

/// Relies on git2::Repository::open: opens the repository at `path`.
#[verifier::external_body]
fn open_repository(path: &str) -> (r: Result<git2::Repository, git2::Error>) {
    git2::Repository::open(path)
}

/// Relies on git2::Repository::remotes and git2::string_array::StringArray::iter:
/// the configured remote names, in the repository's order; a name that is not
/// valid UTF-8 ends the listing with an error. The item type also admits
/// None, for an out-of-range index, which an in-range walk never yields.
#[verifier::external_body]
fn remote_names(repository: &git2::Repository) -> (r: Result<
    Vec<Option<String>>,
    git2::Error,
>) {
    match repository.remotes() {
        Ok(names) => names.iter().map(|n| n.map(|o| o.map(|s| s.to_owned()))).collect(),
        Err(err) => Err(err),
    }
}

/// Relies on git2::Repository::find_remote and git2::Remote::fetch: downloads
/// the remote's configured refspecs, updating local remote-tracking
/// references. The handle is taken exclusively because the repository's
/// state, and with it every modelled reading, changes under the fetch.
#[verifier::external_body]
fn fetch_remote(repository: &mut git2::Repository, name: &str) -> (r: Result<(), git2::Error>) {
    let mut remote = repository.find_remote(name)?;
    remote.fetch::<&str>(&[], None, None)?;
    Ok(())
}

/// Relies on git2::Repository::find_branch, git2::Branch::get,
/// git2::Reference::resolve and git2::Reference::target: the commit id the
/// remote branch points at; a missing branch is an error, and a resolved
/// reference without a direct target is None.
#[verifier::external_body]
fn find_remote_branch_target(repository: &git2::Repository, name: &str) -> (r: Result<
    Option<git2::Oid>,
    git2::Error,
>)
    ensures
        r matches Ok(target) ==> target == remote_branch_target(*repository, name@),
{
    let branch = repository.find_branch(name, git2::BranchType::Remote)?;
    Ok(branch.get().resolve()?.target())
}

/// Relies on git2::Repository::merge_base: the lowest common ancestor of the
/// two commits in the commit graph; an error when there is none.
#[verifier::external_body]
fn merge_base_of(repository: &git2::Repository, one: git2::Oid, two: git2::Oid) -> (r: Result<
    git2::Oid,
    git2::Error,
>)
    ensures
        r matches Ok(base) ==> merge_base_id(*repository, one, two) == Some(base),
{
    repository.merge_base(one, two)
}

/// Relies on git2::Repository::revwalk, git2::Revwalk::push_range and
/// git2::Revwalk::next: the ids of the commits reachable from `from` but not
/// from `exclude` (the range `exclude..from`). A range from a commit to
/// itself holds nothing.
#[verifier::external_body]
fn walk_commit_ids(repository: &git2::Repository, from: git2::Oid, exclude: git2::Oid) -> (r:
    Result<Vec<git2::Oid>, git2::Error>)
    ensures
        r matches Ok(ids) ==> ids@ == walked_range(*repository, from, exclude),
        r matches Ok(ids) ==> (from == exclude ==> ids@.len() == 0),
{
    let mut revwalk = repository.revwalk()?;
    revwalk.push_range(&format!("{}..{}", exclude, from))?;
    revwalk.collect()
}

/// Relies on git2::Repository::find_commit and git2::Commit::parent_count:
/// how many parents the commit has in the graph.
#[verifier::external_body]
fn commit_parent_count(repository: &git2::Repository, id: &git2::Oid) -> (r: Result<
    usize,
    git2::Error,
>)
    ensures
        r matches Ok(n) ==> n == parent_count_of(*repository, *id),
{
    Ok(repository.find_commit(*id)?.parent_count())
}

/// Relies on git2::Repository::diff_tree_to_tree, git2::Commit::tree,
/// git2::Diff::stats and git2::DiffStats::insertions / deletions: the summed
/// per-file added and removed line counts of the diff from the tree of `to`
/// (old side) to the tree of `from` (new side), in that orientation.
#[verifier::external_body]
fn diff_stat_counts(repository: &git2::Repository, from: &git2::Oid, to: &git2::Oid) -> (r: Result<
    (usize, usize),
    git2::Error,
>)
    ensures
        r matches Ok(counts) ==> counts == diff_counts(*repository, *to, *from),
{
    let new_tree = repository.find_commit(*from)?.tree()?;
    let old_tree = repository.find_commit(*to)?.tree()?;
    let diff = repository.diff_tree_to_tree(Some(&old_tree), Some(&new_tree), None)?;
    let stats = diff.stats()?;
    Ok((stats.insertions(), stats.deletions()))
}

/// Relies on git2::Error::message: the human-readable description of the
/// failure.
#[verifier::external_body]
fn git_error_message(err: &git2::Error) -> (r: String) {
    err.message().to_owned()
}

/// How many of the given parent counts are exactly one.
pub open spec fn spec_single_parent_count(counts: Seq<usize>) -> int
    decreases counts.len(),
{
    if counts.len() == 0 {
        0
    } else {
        spec_single_parent_count(counts.drop_last()) + if counts.last() == 1 {
            1int
        } else {
            0int
        }
    }
}

/// Count the commits with exactly one parent: merge commits (more than one
/// parent) represent integration noise, not fork-original work, and root
/// commits have none.
pub fn count_single_parent(counts: &Vec<usize>) -> (n: usize)
    ensures
        n == spec_single_parent_count(counts@),
{
    let mut n: usize = 0;
    let mut i: usize = 0;
    while i < counts.len()
        invariant
            i <= counts@.len(),
            n == spec_single_parent_count(counts@.take(i as int)),
            n <= i,
        decreases counts@.len() - i,
    {
        proof {
            assert(counts@.take(i as int + 1).drop_last() =~= counts@.take(i as int));
        }
        if counts[i] == 1 {
            n = n + 1;
        }
        i = i + 1;
    }
    proof {
        assert(counts@.take(counts@.len() as int) =~= counts@);
    }
    n
}

/// The parent count of every commit of `ids`, in order, as the repository
/// has them.
pub open spec fn spec_parent_counts(repo: git2::Repository, ids: Seq<git2::Oid>) -> Seq<usize> {
    ids.map_values(|id: git2::Oid| parent_count_of(repo, id))
}

/// The commits the fork carries beyond the merge-base: among the commits
/// reachable from `fork` but not from `base`, those with exactly one parent.
pub open spec fn spec_commits_ahead(
    repo: git2::Repository,
    fork: git2::Oid,
    base: git2::Oid,
) -> int {
    spec_single_parent_count(spec_parent_counts(repo, walked_range(repo, fork, base)))
}

/// Refresh every configured remote of the repository, in order; the first
/// failure is reported. A remote whose name is not valid UTF-8 cannot be
/// refreshed and is an error.
fn fetch_all_remotes(repository: &mut git2::Repository) -> (r: Result<(), String>) {
    let names = match remote_names(&*repository) {
        Ok(names) => names,
        Err(err) => {
            return Err(git_error_message(&err));
        },
    };
    let mut i: usize = 0;
    while i < names.len()
        decreases names@.len() - i,
    {
        match &names[i] {
            Some(name) => {
                match fetch_remote(repository, name.as_str()) {
                    Ok(()) => {},
                    Err(err) => {
                        return Err(git_error_message(&err));
                    },
                }
            },
            None => {
                // the listing's item type admits an absent name, though an
                // in-range walk never yields one; refuse rather than skip
                return Err("remote name is unavailable".to_owned());
            },
        }
        i = i + 1;
    }
    Ok(())
}

/// Resolve a remote branch name to its tip commit id; a missing branch or a
/// branch without a direct target is an error.
fn get_branch_oid(repository: &git2::Repository, name: &str) -> (r: Result<git2::Oid, String>)
    ensures
        r matches Ok(oid) ==> remote_branch_target(*repository, name@) == Some(oid),
        remote_branch_target(*repository, name@) is None ==> r matches Err(_),
{
    match find_remote_branch_target(repository, name) {
        Ok(Some(oid)) => Ok(oid),
        Ok(None) => Err("branch does not point at a commit".to_owned()),
        Err(err) => Err(git_error_message(&err)),
    }
}

/// Count the commits reachable from `from` but not from `to` that have
/// exactly one parent.
fn count_commis(repository: &git2::Repository, from: &git2::Oid, to: &git2::Oid) -> (r: Result<
    usize,
    String,
>)
    ensures
        r matches Ok(n) ==> n == spec_commits_ahead(*repository, *from, *to),
{
    let ids = match walk_commit_ids(repository, *from, *to) {
        Ok(ids) => ids,
        Err(err) => {
            return Err(git_error_message(&err));
        },
    };
    let mut counts: Vec<usize> = Vec::new();
    let mut i: usize = 0;
    while i < ids.len()
        invariant
            i <= ids@.len(),
            ids@ == walked_range(*repository, *from, *to),
            counts@ == spec_parent_counts(*repository, ids@.take(i as int)),
        decreases ids@.len() - i,
    {
        match commit_parent_count(repository, &ids[i]) {
            Ok(count) => counts.push(count),
            Err(err) => {
                return Err(git_error_message(&err));
            },
        }
        proof {
            assert(spec_parent_counts(*repository, ids@.take(i as int + 1)) =~= spec_parent_counts(
                *repository,
                ids@.take(i as int),
            ).push(parent_count_of(*repository, ids@[i as int])));
        }
        i = i + 1;
    }
    proof {
        assert(ids@.take(ids@.len() as int) =~= ids@);
    }
    Ok(count_single_parent(&counts))
}

/// Measure how far the fork branch of an opened, refreshed repository has
/// drifted from the upstream branch: resolve both branch tips, find their
/// merge-base, then count the fork's own (single-parent) commits past the
/// merge-base and the line insertions and deletions of the diff oriented
/// from the merge-base tree to the fork tip tree. A missing branch is an
/// error, never a panic, so a caller can go on to its next repository.
pub fn analyze_repository(
    repository: &git2::Repository,
    upstream_branch: &str,
    fork_branch: &str,
) -> (r: Result<ForkStats, String>)
    ensures
        r matches Ok(s) ==> (remote_branch_target(*repository, upstream_branch@) matches Some(up)
            && remote_branch_target(*repository, fork_branch@) matches Some(fork)
            && merge_base_id(*repository, up, fork) matches Some(base) && s.commits_count
            == spec_commits_ahead(*repository, fork, base) && s.insertions == diff_counts(
            *repository,
            base,
            fork,
        ).0 && s.deletions == diff_counts(*repository, base, fork).1),
        remote_branch_target(*repository, upstream_branch@) is None ==> r matches Err(_),
        remote_branch_target(*repository, fork_branch@) is None ==> r matches Err(_),
{
    let upstream = get_branch_oid(repository, upstream_branch)?;
    let fork = get_branch_oid(repository, fork_branch)?;
    let merge_base = match merge_base_of(repository, upstream, fork) {
        Ok(oid) => oid,
        Err(err) => {
            return Err(git_error_message(&err));
        },
    };
    let (insertions, deletions) = match diff_stat_counts(repository, &fork, &merge_base) {
        Ok(counts) => counts,
        Err(err) => {
            return Err(git_error_message(&err));
        },
    };
    let commits_count = count_commis(repository, &fork, &merge_base)?;
    Ok(ForkStats { commits_count, insertions, deletions })
}

/// Measure the divergence of the repository at `repository_path`: open it,
/// refresh every remote, then analyze. The repository behind the path is a
/// hidden input here — `analyze_repository` carries the exact contract over
/// the opened handle.
pub fn get_fork_stats(repository_path: &str, upstream_branch: &str, fork_branch: &str) -> (r:
    Result<ForkStats, String>) {
    let mut repository = match open_repository(repository_path) {
        Ok(repository) => repository,
        Err(err) => {
            return Err(git_error_message(&err));
        },
    };
    fetch_all_remotes(&mut repository)?;
    analyze_repository(&repository, upstream_branch, fork_branch)
}

} // verus!
