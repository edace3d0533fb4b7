//! The metrics store: per-repository time series of divergence samples in an
//! embedded SQLite database. Repositories are rows keyed by a unique name;
//! samples are append-only rows read back ordered by ascending timestamp.
//!
//! The store's contents are modelled by two uninterpreted functions over the
//! connection value: `repo_table`, the map from repository name to id, and
//! `sample_table`, the multiset of sample rows of one repository. Every
//! statement the store executes is a trusted wrapper whose contract says how
//! it moves those two tables. The model reads each connection as the sole
//! writer of its database file while it lives: the framing clauses (what a
//! statement leaves untouched) speak of this handle's statements only, and
//! do not cover a second connection writing the same file concurrently. The
//! collector opens one short-lived connection per operation and never two at
//! once, so it keeps that reading.

use vstd::multiset::Multiset;
use vstd::prelude::*;

verus! {

broadcast use vstd::seq_lib::group_to_multiset_ensures, vstd::multiset::group_multiset_axioms;

/// One repository's divergence time series, read back from the store: the
/// four columns of its samples, co-indexed and ordered by ascending
/// timestamp.
pub struct ForkStats {
    pub timestamps: Vec<u64>,
    pub commits: Vec<u32>,
    pub insertions: Vec<u32>,
    pub deletions: Vec<u32>,
}

#[verifier::external_type_specification]
#[verifier::external_body]
pub struct ExConnection(rusqlite::Connection);

#[verifier::external_type_specification]
#[verifier::external_body]
pub struct ExSqliteError(rusqlite::Error);

/// The repository table of the database behind a connection: which names
/// exist, and the id each name is mapped to.
pub uninterp spec fn repo_table(c: rusqlite::Connection) -> Map<Seq<char>, u32>;

/// The sample rows stored for one repository id: (timestamp, commits,
/// insertions, deletions), with multiplicity and without order.
pub uninterp spec fn sample_table(c: rusqlite::Connection, repository_id: u32) -> Multiset<
    (u64, u32, u32, u32),
>;

/// The repository and sample tables exist behind the connection: created if
/// they were absent, kept as they stood if present.
pub uninterp spec fn schema_ready(c: rusqlite::Connection) -> bool;

/// Relies on rusqlite::Connection::open and execute: opens (creating the file
/// if absent) the database and creates the two tables if they do not yet
/// exist. What the file already held is unknown here.
#[verifier::external_body]
fn setup_db(db_file_path: &str) -> (r: Result<rusqlite::Connection, rusqlite::Error>)
    ensures
        r matches Ok(conn) ==> schema_ready(conn),
{
    let conn = rusqlite::Connection::open(db_file_path)?;
    conn.execute(
        "create table if not exists repository(id integer primary key, name text not null unique, unique(id, name))",
        (),
    )?;
    conn.execute(
        "create table if not exists fork_stats(repository integer, timestamp integer, commits integer, insertions integer, deletions integer, foreign key(repository) references repository(id))",
        (),
    )?;
    Ok(conn)
}

/// Relies on rusqlite::Connection::execute running `insert or ignore` on the
/// repository table's unique name column: on success the name exists, with
/// its old id if it was present and some id otherwise, all other rows
/// untouched; a newly created row's id is its integer primary key, so it
/// differs from every existing row's id; a failed statement changes nothing.
/// Samples are untouched either way.
#[verifier::external_body]
fn insert_repo_name(conn: &mut rusqlite::Connection, name: &str) -> (r: Result<
    usize,
    rusqlite::Error,
>)
    ensures
        r matches Ok(_) ==> repo_table(*final(conn)).dom() == repo_table(*old(conn)).dom().insert(
            name@,
        ),
        r matches Ok(_) ==> forall|k: Seq<char>|
            repo_table(*old(conn)).dom().contains(k) ==> repo_table(*final(conn))[k] == repo_table(
                *old(conn),
            )[k],
        r matches Ok(_) && !repo_table(*old(conn)).dom().contains(name@) ==> forall|k: Seq<char>|
            #[trigger] repo_table(*old(conn)).dom().contains(k) ==> repo_table(*final(conn))[name@]
                != repo_table(*old(conn))[k],
        r matches Err(_) ==> repo_table(*final(conn)) == repo_table(*old(conn)),
        forall|rid: u32| #[trigger]
            sample_table(*final(conn), rid) == sample_table(*old(conn), rid),
{
    conn.execute("insert or ignore into repository(name) values(?1)", (name,))
}

/// Relies on rusqlite::Connection::query_row running a select by name on the
/// repository table: on success the returned id is the name's row; a name
/// with no row yields an error (no rows returned). Nothing changes.
#[verifier::external_body]
fn get_repo_id(conn: &rusqlite::Connection, name: &str) -> (r: Result<u32, rusqlite::Error>)
    ensures
        r matches Ok(id) ==> repo_table(*conn).dom().contains(name@) && repo_table(*conn)[name@]
            == id,
{
    conn.query_row("select id from repository where name=?1", [name], |row| row.get(0))
}

/// Relies on rusqlite::Connection::execute running an unconditional insert
/// into the sample table: on success exactly the given row is added to the
/// given repository's samples; a failed statement changes nothing. The
/// repository table is untouched either way.
#[verifier::external_body]
fn insert_fork_stats(
    conn: &mut rusqlite::Connection,
    repository_id: u32,
    timestamp: i64,
    commits: u32,
    insertions: u32,
    deletions: u32,
) -> (r: Result<usize, rusqlite::Error>)
    requires
        timestamp >= 0,
    ensures
        r matches Ok(_) ==> sample_table(*final(conn), repository_id) == sample_table(
            *old(conn),
            repository_id,
        ).insert((timestamp as u64, commits, insertions, deletions)),
        r matches Ok(_) ==> forall|rid: u32|
            rid != repository_id ==> #[trigger] sample_table(*final(conn), rid) == sample_table(
                *old(conn),
                rid,
            ),
        r matches Err(_) ==> forall|rid: u32| #[trigger]
            sample_table(*final(conn), rid) == sample_table(*old(conn), rid),
        repo_table(*final(conn)) == repo_table(*old(conn)),
{
    conn.execute(
        "insert into fork_stats(repository, timestamp, commits, insertions, deletions) values(?1, ?2, ?3, ?4, ?5)",
        (repository_id, timestamp, commits, insertions, deletions),
    )
}

/// All pairs at earlier positions carry timestamps no larger than later ones.
pub open spec fn rows_sorted(rows: Seq<(u64, u32, u32, u32)>) -> bool {
    forall|i: int, j: int| 0 <= i <= j < rows.len() ==> rows[i].0 <= rows[j].0
}

/// Relies on rusqlite::Connection::prepare, rusqlite::Statement::query_map
/// and rusqlite::MappedRows::next running a select of one repository's sample
/// rows ordered by ascending timestamp: on success the returned rows are
/// exactly that repository's samples, sorted by timestamp.
#[verifier::external_body]
fn query_fork_stats(conn: &rusqlite::Connection, repository_id: u32) -> (r: Result<
    Vec<(u64, u32, u32, u32)>,
    rusqlite::Error,
>)
    ensures
        r matches Ok(rows) ==> rows@.to_multiset() == sample_table(*conn, repository_id),
        r matches Ok(rows) ==> rows_sorted(rows@),
{
    let mut stmt = conn.prepare(
        "select timestamp, commits, insertions, deletions from fork_stats where repository = ?1 order by timestamp",
    )?;
    let rows = stmt.query_map([repository_id], |row| {
        let t: i64 = row.get(0)?;
        let t = u64::try_from(t).map_err(|_| rusqlite::Error::IntegralValueOutOfRange(0, t))?;
        Ok((t, row.get(1)?, row.get(2)?, row.get(3)?))
    })?;
    rows.collect()
}

/// Relies on rusqlite::Error's Display implementation: the human-readable
/// description of the failure.
#[verifier::external_body]
fn sqlite_error_message(err: &rusqlite::Error) -> (r: String) {
    err.to_string()
}

/// The final path segment: the suffix after the last `/`.
pub open spec fn spec_file_name(s: Seq<char>) -> Seq<char>
    decreases s.len(),
{
    if s.len() == 0 {
        s
    } else if s.last() == '/' {
        Seq::empty()
    } else {
        spec_file_name(s.drop_last()).push(s.last())
    }
}

proof fn lemma_file_name_suffix(s: Seq<char>, cut: int)
    requires
        0 <= cut <= s.len(),
        cut == 0 || s[cut - 1] == '/',
        forall|j: int| cut <= j < s.len() ==> s[j] != '/',
    ensures
        spec_file_name(s) == s.subrange(cut, s.len() as int),
    decreases s.len(),
{
    if cut == s.len() {
        if cut == 0 {
            assert(s.subrange(0, 0) =~= s);
        } else {
            assert(s.subrange(cut, s.len() as int) =~= Seq::<char>::empty());
        }
    } else {
        lemma_file_name_suffix(s.drop_last(), cut);
        assert(s.drop_last().subrange(cut, s.len() - 1).push(s.last()) =~= s.subrange(
            cut,
            s.len() as int,
        ));
    }
}

/// The final path segment of `path`: everything after the last `/`, the whole
/// string when there is no `/`.
pub fn file_name(path: &str) -> (r: String)
    ensures
        r@ == spec_file_name(path@),
{
    let n = path.unicode_len();
    let mut cut = n;
    loop
        invariant
            cut <= n,
            n == path@.len(),
            forall|j: int| cut <= j < n ==> path@[j] != '/',
        ensures
            cut <= n,
            cut == 0 || path@[cut - 1] == '/',
            forall|j: int| cut <= j < n ==> path@[j] != '/',
        decreases cut,
    {
        if cut == 0 {
            break ;
        }
        let c = path.get_char(cut - 1);
        if c == '/' {
            break ;
        }
        cut = cut - 1;
    }
    let sub = path.substring_char(cut, n);
    proof {
        lemma_file_name_suffix(path@, cut as int);
    }
    sub.to_owned()
}

/// One resolution of `name`: afterwards the table maps exactly the old names
/// plus `name`, old rows keep their ids, `id` is `name`'s row, and a row
/// created by this resolution carries an id no other name had — distinct
/// names stay on distinct ids.
pub open spec fn resolve_step(
    before: Map<Seq<char>, u32>,
    after: Map<Seq<char>, u32>,
    name: Seq<char>,
    id: u32,
) -> bool {
    &&& after.dom() == before.dom().insert(name)
    &&& forall|k: Seq<char>| before.dom().contains(k) ==> after[k] == before[k]
    &&& after[name] == id
    &&& !before.dom().contains(name) ==> forall|k: Seq<char>|
        #[trigger] before.dom().contains(k) ==> id != before[k]
}

/// A repository table after a failed or partial operation on `name`: old rows
/// kept with their ids, at most `name` added.
pub open spec fn repos_preserved(
    before: Map<Seq<char>, u32>,
    after: Map<Seq<char>, u32>,
    name: Seq<char>,
) -> bool {
    &&& forall|k: Seq<char>|
        before.dom().contains(k) ==> after.dom().contains(k) && after[k] == before[k]
    &&& forall|k: Seq<char>| after.dom().contains(k) ==> before.dom().contains(k) || k == name
}

/// No repository's samples changed.
pub open spec fn samples_unchanged(before: Database, after: Database) -> bool {
    forall|rid: u32| #[trigger]
        sample_table(after.connection, rid) == sample_table(before.connection, rid)
}

/// The four column vectors have one entry per row.
pub open spec fn stats_wf(fs: ForkStats) -> bool {
    fs.commits@.len() == fs.timestamps@.len() && fs.insertions@.len() == fs.timestamps@.len()
        && fs.deletions@.len() == fs.timestamps@.len()
}

/// The rows a ForkStats encodes column-wise.
pub open spec fn stats_rows(fs: ForkStats) -> Seq<(u64, u32, u32, u32)> {
    Seq::new(
        fs.timestamps@.len(),
        |i: int| (fs.timestamps@[i], fs.commits@[i], fs.insertions@[i], fs.deletions@[i]),
    )
}

/// A handle on the metrics store.
pub struct Database {
    pub connection: rusqlite::Connection,
}

impl Database {
    /// Open the store, creating its schema if absent.
    pub fn connect(db_file_path: &str) -> (r: Result<Database, String>)
        ensures
            r matches Ok(db) ==> schema_ready(db.connection),
    {
        match setup_db(db_file_path) {
            Ok(connection) => Ok(Database { connection }),
            Err(err) => Err(sqlite_error_message(&err)),
        }
    }

    /// Resolve a repository name to its id, creating the row if the name was
    /// unseen. Resolving never touches any sample and never rewrites an
    /// existing row: the storage layer's unique name column does the work.
    pub fn get_repo_id_by_name(&mut self, name: &str) -> (r: Result<u32, String>)
        ensures
            r matches Ok(id) ==> resolve_step(
                repo_table(old(self).connection),
                repo_table(final(self).connection),
                name@,
                id,
            ),
            r matches Err(_) ==> repos_preserved(
                repo_table(old(self).connection),
                repo_table(final(self).connection),
                name@,
            ),
            samples_unchanged(*old(self), *final(self)),
    {
        match insert_repo_name(&mut self.connection, name) {
            Ok(_) => {},
            Err(err) => {
                return Err(sqlite_error_message(&err));
            },
        }
        match get_repo_id(&self.connection, name) {
            Ok(id) => Ok(id),
            Err(err) => Err(sqlite_error_message(&err)),
        }
    }

    /// Append one divergence sample for the repository whose local path is
    /// `repository`, keyed by the path's final segment; creates the
    /// repository row if needed, never rewrites or drops an existing sample.
    /// Counts beyond the stored column width, and a path with an empty final
    /// segment, are errors.
    pub fn add_fork_stats_entry(
        &mut self,
        timestamp: u64,
        repository: &str,
        commits_count: usize,
        insertions: usize,
        deletions: usize,
    ) -> (r: Result<(), String>)
        ensures
            r matches Ok(_) ==> ({
                let name = spec_file_name(repository@);
                let m1 = repo_table(final(self).connection);
                &&& name.len() != 0
                &&& commits_count <= u32::MAX && insertions <= u32::MAX && deletions <= u32::MAX
                &&& timestamp <= i64::MAX
                &&& resolve_step(repo_table(old(self).connection), m1, name, m1[name])
                &&& sample_table(final(self).connection, m1[name]) == sample_table(
                    old(self).connection,
                    m1[name],
                ).insert(
                    (timestamp, commits_count as u32, insertions as u32, deletions as u32),
                )
                &&& forall|rid: u32|
                    rid != m1[name] ==> #[trigger] sample_table(final(self).connection, rid)
                        == sample_table(old(self).connection, rid)
            }),
            r matches Err(_) ==> repos_preserved(
                repo_table(old(self).connection),
                repo_table(final(self).connection),
                spec_file_name(repository@),
            ) && samples_unchanged(*old(self), *final(self)),
            spec_file_name(repository@).len() == 0 ==> r matches Err(_),
            commits_count > u32::MAX ==> r matches Err(_),
            insertions > u32::MAX ==> r matches Err(_),
            deletions > u32::MAX ==> r matches Err(_),
            timestamp > i64::MAX ==> r matches Err(_),
    {
        let name = file_name(repository);
        if name.as_str().unicode_len() == 0 {
            return Err("repository path has no final segment".to_owned());
        }
        if commits_count > u32::MAX as usize || insertions > u32::MAX as usize || deletions
            > u32::MAX as usize {
            return Err("divergence counts do not fit the stored column width".to_owned());
        }
        if timestamp > i64::MAX as u64 {
            return Err("timestamp does not fit the stored column width".to_owned());
        }
        let repository_id = match self.get_repo_id_by_name(name.as_str()) {
            Ok(id) => id,
            Err(err) => {
                return Err(err);
            },
        };
        match insert_fork_stats(
            &mut self.connection,
            repository_id,
            timestamp as i64,
            commits_count as u32,
            insertions as u32,
            deletions as u32,
        ) {
            Ok(_) => Ok(()),
            Err(err) => Err(sqlite_error_message(&err)),
        }
    }

    /// Read one repository's series back, ordered by ascending timestamp. The
    /// name is resolved as in `get_repo_id_by_name`, so an unseen name gains
    /// an (empty) repository row; no sample is ever touched.
    pub fn get_fork_stats(&mut self, repository_name: &str) -> (r: Result<ForkStats, String>)
        ensures
            r matches Ok(fs) ==> ({
                let m1 = repo_table(final(self).connection);
                &&& resolve_step(
                    repo_table(old(self).connection),
                    m1,
                    repository_name@,
                    m1[repository_name@],
                )
                &&& stats_wf(fs)
                &&& stats_rows(fs).to_multiset() == sample_table(
                    final(self).connection,
                    m1[repository_name@],
                )
                &&& rows_sorted(stats_rows(fs))
            }),
            r matches Err(_) ==> repos_preserved(
                repo_table(old(self).connection),
                repo_table(final(self).connection),
                repository_name@,
            ),
            samples_unchanged(*old(self), *final(self)),
    {
        let repository_id = match self.get_repo_id_by_name(repository_name) {
            Ok(id) => id,
            Err(err) => {
                return Err(err);
            },
        };
        let rows = match query_fork_stats(&self.connection, repository_id) {
            Ok(rows) => rows,
            Err(err) => {
                return Err(sqlite_error_message(&err));
            },
        };
        let mut timestamps: Vec<u64> = Vec::new();
        let mut commits: Vec<u32> = Vec::new();
        let mut insertions: Vec<u32> = Vec::new();
        let mut deletions: Vec<u32> = Vec::new();
        let mut i: usize = 0;
        while i < rows.len()
            invariant
                i <= rows@.len(),
                timestamps@.len() == i,
                commits@.len() == i,
                insertions@.len() == i,
                deletions@.len() == i,
                forall|j: int|
                    0 <= j < i ==> timestamps@[j] == rows@[j].0 && commits@[j] == rows@[j].1
                        && insertions@[j] == rows@[j].2 && deletions@[j] == rows@[j].3,
            decreases rows@.len() - i,
        {
            let row = rows[i];
            timestamps.push(row.0);
            commits.push(row.1);
            insertions.push(row.2);
            deletions.push(row.3);
            i = i + 1;
        }
        let fs = ForkStats { timestamps, commits, insertions, deletions };
        proof {
            assert(stats_rows(fs) =~= rows@);
        }
        Ok(fs)
    }
}

/// LAW: resolving the same name twice yields the same id both times, and the
/// second resolution changes nothing — the table holds exactly one row per
/// name. Stated over the repository-table model that `get_repo_id_by_name`'s
/// contract uses for its two calls.
pub proof fn lemma_repo_resolution_stable(
    m0: Map<Seq<char>, u32>,
    m1: Map<Seq<char>, u32>,
    m2: Map<Seq<char>, u32>,
    name: Seq<char>,
    id1: u32,
    id2: u32,
)
    requires
        resolve_step(m0, m1, name, id1),
        resolve_step(m1, m2, name, id2),
    ensures
        id2 == id1,
        m2 == m1,
{
    assert(m1.dom().contains(name));
    assert(m2[name] == m1[name]);
    assert(m2.dom() =~= m1.dom());
    assert(m2 =~= m1);
}

/// LAW: a name resolved while absent gets an id of its own: it differs from
/// the id of every name already in the table, so one repository's series is
/// never read back under another's name.
pub proof fn lemma_new_name_new_id(
    m0: Map<Seq<char>, u32>,
    m1: Map<Seq<char>, u32>,
    m2: Map<Seq<char>, u32>,
    name1: Seq<char>,
    name2: Seq<char>,
    id1: u32,
    id2: u32,
)
    requires
        resolve_step(m0, m1, name1, id1),
        resolve_step(m1, m2, name2, id2),
        name1 != name2,
        !m1.dom().contains(name2),
    ensures
        id2 != id1,
{
    assert(m1.dom().contains(name1));
}

/// LAW: a series whose samples came back as the old samples plus one appended
/// row, sorted by timestamp, contains the appended row, and wherever it
/// stands every earlier row's timestamp is no larger and every later row's no
/// smaller — the appended sample sits at its ordinal position.
pub proof fn lemma_append_then_query(
    before: Multiset<(u64, u32, u32, u32)>,
    row: (u64, u32, u32, u32),
    rows: Seq<(u64, u32, u32, u32)>,
)
    requires
        rows.to_multiset() == before.insert(row),
        rows_sorted(rows),
    ensures
        exists|i: int| 0 <= i < rows.len() && rows[i] == row,
        forall|i: int, j: int|
            0 <= i < rows.len() && rows[i] == row && 0 <= j < rows.len() ==> (j < i ==> rows[j].0
                <= row.0) && (j > i ==> row.0 <= rows[j].0),
{
    assert(rows.to_multiset().count(row) > 0);
    assert(rows.contains(row));
}

/// LAW: when all timestamps of a sorted series are pairwise distinct, the
/// order is strict.
pub proof fn lemma_series_strictly_ordered(rows: Seq<(u64, u32, u32, u32)>)
    requires
        rows_sorted(rows),
        forall|i: int, j: int| 0 <= i < j < rows.len() ==> rows[i].0 != rows[j].0,
    ensures
        forall|i: int, j: int| 0 <= i < j < rows.len() ==> rows[i].0 < rows[j].0,
{
}

} // verus!
