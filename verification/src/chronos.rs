//! Orchestration decisions: which external program to launch with which
//! arguments, for the UI process and for each repository of a collection
//! tick. Executing the commands, sleeping, and capturing their output is the
//! caller's concern; nothing decided here depends on any command's outcome.

use vstd::prelude::*;

use crate::config::Config;

verus! {

/// A planned invocation of an external program: the program path and its
/// positional arguments, in order.
pub struct CommandPlan {
    pub program: String,
    pub args: Vec<String>,
}

/// The plan launches the statistics collector for `repo`, handing it the
/// repository path and the metrics-store path, positionally and in that
/// order.
pub open spec fn is_collector_command(c: CommandPlan, config: Config, repo: Seq<char>) -> bool {
    &&& c.program@ == config.stats_bin@
    &&& c.args@.len() == 2
    &&& c.args@[0]@ == repo
    &&& c.args@[1]@ == config.database_file@
}

/// The command that launches the UI server: the UI asset path and the
/// metrics-store path, positionally and in that order.
pub fn ueb_command(config: &Config) -> (c: CommandPlan)
    ensures
        c.program@ == config.ueb_bin@,
        c.args@.len() == 2,
        c.args@[0]@ == config.ueb_ui@,
        c.args@[1]@ == config.database_file@,
{
    let program = config.get_ueb_bin();
    let mut args: Vec<String> = Vec::new();
    args.push(config.get_ueb_ui());
    args.push(config.get_database_file());
    CommandPlan { program, args }
}

/// The command that collects statistics for one repository.
pub fn collector_command(config: &Config, repo: &str) -> (c: CommandPlan)
    ensures
        is_collector_command(c, *config, repo@),
{
    let program = config.get_stats_bin();
    let mut args: Vec<String> = Vec::new();
    args.push(repo.to_owned());
    args.push(config.get_database_file());
    CommandPlan { program, args }
}

/// One collection tick: a collector command for every configured repository,
/// in configuration order. The plan is fixed before anything runs, so no
/// repository's failure can drop or reorder a later repository's command.
pub fn tick_commands(config: &Config) -> (cs: Vec<CommandPlan>)
    ensures
        cs@.len() == config.repos@.len(),
        forall|i: int|
            0 <= i < cs@.len() ==> is_collector_command(cs@[i], *config, config.repos@[i]@),
{
    let mut cs: Vec<CommandPlan> = Vec::new();
    let n = config.repos.len();
    let mut i: usize = 0;
    while i < n
        invariant
            n == config.repos@.len(),
            i <= n,
            cs@.len() == i,
            forall|j: int|
                0 <= j < i ==> is_collector_command(cs@[j], *config, config.repos@[j]@),
        decreases n - i,
    {
        let c = collector_command(config, config.repos[i].as_str());
        cs.push(c);
        i = i + 1;
    }
    cs
}

} // verus!
