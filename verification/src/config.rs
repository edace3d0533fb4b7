//! The immutable configuration snapshot: plain values only, loaded once at
//! startup and shared read-only by every activity.

use vstd::prelude::*;

use crate::calendar::{time_valid, TimeOfDay};

verus! {

/// Everything the collector needs to run: where the metrics store lives,
/// which external programs to launch, when to collect each day, and which
/// repositories to measure, in order.
pub struct Config {
    pub database_file: String,
    pub ueb_bin: String,
    pub ueb_ui: String,
    pub stats_bin: String,
    pub stats_exec_time: TimeOfDay,
    pub repos: Vec<String>,
}

impl Config {
    /// A well-formed configuration carries a valid time of day.
    pub open spec fn wf(&self) -> bool {
        time_valid(self.stats_exec_time)
    }

    pub fn new(
        database_file: String,
        ueb_bin: String,
        ueb_ui: String,
        stats_bin: String,
        stats_exec_time: TimeOfDay,
        repos: Vec<String>,
    ) -> (r: Config)
        requires
            time_valid(stats_exec_time),
        ensures
            r.wf(),
            r.database_file == database_file,
            r.ueb_bin == ueb_bin,
            r.ueb_ui == ueb_ui,
            r.stats_bin == stats_bin,
            r.stats_exec_time == stats_exec_time,
            r.repos == repos,
    {
        Config { database_file, ueb_bin, ueb_ui, stats_bin, stats_exec_time, repos }
    }

    pub fn get_database_file(&self) -> (r: String)
        ensures
            r@ == self.database_file@,
    {
        self.database_file.clone()
    }

    pub fn get_ueb_bin(&self) -> (r: String)
        ensures
            r@ == self.ueb_bin@,
    {
        self.ueb_bin.clone()
    }

    pub fn get_ueb_ui(&self) -> (r: String)
        ensures
            r@ == self.ueb_ui@,
    {
        self.ueb_ui.clone()
    }

    pub fn get_stats_bin(&self) -> (r: String)
        ensures
            r@ == self.stats_bin@,
    {
        self.stats_bin.clone()
    }

    pub fn get_stats_exec_time(&self) -> (r: TimeOfDay)
        ensures
            r == self.stats_exec_time,
    {
        self.stats_exec_time
    }

    pub fn get_repos(&self) -> (r: &Vec<String>)
        ensures
            r == &self.repos,
    {
        &self.repos
    }
}

} // verus!
