//! State handed to the serving layer: where the dashboard's static files and
//! the metrics store live.

use vstd::prelude::*;

verus! {

/// Paths the serving layer reads: the dashboard page, the chart script, and
/// the metrics-store file.
pub struct AppState {
    pub index_path: String,
    pub chart_js_path: String,
    pub fork_database_path: String,
}

/// `base` with one more path segment `name` appended after a separator.
pub fn join_path(base: &str, name: &str) -> (r: String)
    ensures
        r@ == base@ + "/"@ + name@,
{
    let mut r = base.to_owned();
    r.append("/");
    r.append(name);
    r
}

impl AppState {
    pub fn new(static_path: &String, fork_database_path: String) -> (r: AppState)
        ensures
            r.index_path@ == static_path@ + "/"@ + "index.html"@,
            r.chart_js_path@ == static_path@ + "/"@ + "chart-v4.4.8.js"@,
            r.fork_database_path == fork_database_path,
    {
        let index_path = join_path(static_path.as_str(), "index.html");
        let chart_js_path = join_path(static_path.as_str(), "chart-v4.4.8.js");
        AppState { index_path, chart_js_path, fork_database_path }
    }
}

} // verus!
