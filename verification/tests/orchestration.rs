use fork::calendar::TimeOfDay;
use fork::chronos::{collector_command, tick_commands, ueb_command};
use fork::config::Config;
use fork::routes::AppState;

fn sample_config() -> Config {
    Config::new(
        String::from("/var/lib/fork.db"),
        String::from("/usr/bin/ueb"),
        String::from("/usr/share/ueb-ui"),
        String::from("/usr/bin/stats"),
        TimeOfDay { hour: 3, minute: 30, second: 0 },
        vec![String::from("/repos/mxcubecore"), String::from("/repos/mxcubeweb")],
    )
}

#[test]
fn config_getters_return_what_was_loaded() {
    let config = sample_config();
    assert_eq!(config.get_database_file(), "/var/lib/fork.db");
    assert_eq!(config.get_ueb_bin(), "/usr/bin/ueb");
    assert_eq!(config.get_ueb_ui(), "/usr/share/ueb-ui");
    assert_eq!(config.get_stats_bin(), "/usr/bin/stats");
    let t = config.get_stats_exec_time();
    assert_eq!((t.hour, t.minute, t.second), (3, 30, 0));
    assert_eq!(config.get_repos().len(), 2);
    assert_eq!(config.get_repos()[0], "/repos/mxcubecore");
}

#[test]
fn ueb_command_hands_ui_then_store() {
    let config = sample_config();
    let c = ueb_command(&config);
    assert_eq!(c.program, "/usr/bin/ueb");
    assert_eq!(c.args, vec!["/usr/share/ueb-ui", "/var/lib/fork.db"]);
}

#[test]
fn collector_command_hands_repo_then_store() {
    let config = sample_config();
    let c = collector_command(&config, "/repos/mxcubecore");
    assert_eq!(c.program, "/usr/bin/stats");
    assert_eq!(c.args, vec!["/repos/mxcubecore", "/var/lib/fork.db"]);
}

#[test]
fn a_tick_plans_every_repository_in_order() {
    // the plan is complete before anything runs: a failing repository
    // cannot drop or reorder the one after it
    let config = sample_config();
    let commands = tick_commands(&config);
    assert_eq!(commands.len(), 2);
    assert_eq!(commands[0].args[0], "/repos/mxcubecore");
    assert_eq!(commands[1].args[0], "/repos/mxcubeweb");
    for c in &commands {
        assert_eq!(c.program, "/usr/bin/stats");
        assert_eq!(c.args[1], "/var/lib/fork.db");
    }
}

#[test]
fn app_state_builds_asset_paths() {
    let state = AppState::new(&String::from("/srv/static"), String::from("/var/lib/fork.db"));
    assert_eq!(state.index_path, "/srv/static/index.html");
    assert_eq!(state.chart_js_path, "/srv/static/chart-v4.4.8.js");
    assert_eq!(state.fork_database_path, "/var/lib/fork.db");
}
