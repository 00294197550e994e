use rpg_raid_shop::dev_tasks::{
    after_step, db_generate_plan, first_run_action, GenerateStep, RunAction,
    dev_up, host_port_from_uri, parse_pid, run, run_client, run_db, DbStartup, DevStep,
    StartupVerdict, STARTUP_POLL_LIMIT,
};

fn args(words: &[&str]) -> Vec<String> {
    words.iter().map(|w| w.to_string()).collect()
}

fn describe(steps: &[DevStep]) -> Vec<String> {
    steps
        .iter()
        .map(|s| match s {
            DevStep::PrintUsage => "usage".to_string(),
            DevStep::PrintDbUsage => "db-usage".to_string(),
            DevStep::PrintClientUsage => "client-usage".to_string(),
            DevStep::LocateRepoRoot => "root".to_string(),
            DevStep::EnsureDbRunning => "ensure-db".to_string(),
            DevStep::DbStart => "db-start".to_string(),
            DevStep::DbPublish => "db-publish".to_string(),
            DevStep::DbGenerate => "db-generate".to_string(),
            DevStep::DbConfig => "db-config".to_string(),
            DevStep::DevDown => "dev-down".to_string(),
            DevStep::ClientRun(None) => "client".to_string(),
            DevStep::ClientRun(Some(g)) => format!("client:{g}"),
            DevStep::Fail(m) => format!("fail:{m}"),
        })
        .collect()
}

#[test]
fn no_arguments_prints_usage_only() {
    assert_eq!(describe(&run(&args(&[]))), vec!["usage"]);
}

#[test]
fn dev_up_ensures_db_then_publishes_and_generates() {
    assert_eq!(describe(&dev_up()), vec!["ensure-db", "db-publish", "db-generate"]);
    assert_eq!(
        describe(&run(&args(&["dev-up"]))),
        vec!["root", "ensure-db", "db-publish", "db-generate"]
    );
}

#[test]
fn dev_client_takes_optional_guest() {
    assert_eq!(describe(&run(&args(&["dev-client"]))), vec!["root", "client"]);
    assert_eq!(
        describe(&run(&args(&["dev-client", "Zed", "extra"]))),
        vec!["root", "client:Zed"]
    );
}

#[test]
fn db_subcommands() {
    assert_eq!(describe(&run_db(&args(&["start"]))), vec!["db-start"]);
    assert_eq!(describe(&run_db(&args(&["publish"]))), vec!["db-publish"]);
    assert_eq!(describe(&run_db(&args(&["generate"]))), vec!["db-generate"]);
    assert_eq!(describe(&run_db(&args(&["sync"]))), vec!["db-publish", "db-generate"]);
    assert_eq!(describe(&run_db(&args(&["config"]))), vec!["db-config"]);
    assert_eq!(describe(&run_db(&args(&[]))), vec!["db-usage"]);
    assert_eq!(describe(&run_db(&args(&["-h"]))), vec!["db-usage"]);
    assert_eq!(
        describe(&run_db(&args(&["drop"]))),
        vec!["fail:unknown db command: drop"]
    );
}

#[test]
fn client_subcommands() {
    assert_eq!(describe(&run_client(&args(&["run"]))), vec!["client"]);
    assert_eq!(describe(&run_client(&args(&["run", "Amy"]))), vec!["client:Amy"]);
    assert_eq!(describe(&run_client(&args(&["--help"]))), vec!["client-usage"]);
    assert_eq!(describe(&run_client(&args(&[]))), vec!["client-usage"]);
    assert_eq!(
        describe(&run_client(&args(&["walk"]))),
        vec!["fail:unknown client command: walk"]
    );
}

#[test]
fn top_level_dispatch() {
    assert_eq!(describe(&run(&args(&["dev-down"]))), vec!["root", "dev-down"]);
    assert_eq!(describe(&run(&args(&["db", "sync"]))), vec!["root", "db-publish", "db-generate"]);
    assert_eq!(describe(&run(&args(&["client", "run", "Q"]))), vec!["root", "client:Q"]);
    assert_eq!(describe(&run(&args(&["help"]))), vec!["root", "usage"]);
    assert_eq!(
        describe(&run(&args(&["fly"]))),
        vec!["root", "fail:unknown command: fly"]
    );
}

#[test]
fn uri_default_port() {
    assert_eq!(
        host_port_from_uri("http://127.0.0.1:3000"),
        Ok(("127.0.0.1".to_string(), 3000))
    );
    assert_eq!(host_port_from_uri("https://example.com"), Ok(("example.com".to_string(), 80)));
    assert_eq!(
        host_port_from_uri("https://example.com:8443/path:1/x"),
        Ok(("example.com".to_string(), 8443))
    );
    assert_eq!(host_port_from_uri("localhost:9000"), Ok(("localhost".to_string(), 9000)));
    assert_eq!(host_port_from_uri(""), Ok(("".to_string(), 80)));
}

#[test]
fn uri_last_colon_is_the_port() {
    assert_eq!(host_port_from_uri("http://[::1]:3000"), Ok(("[::1]".to_string(), 3000)));
    assert_eq!(host_port_from_uri("ftp://h"), Err("invalid port in SPACETIME_URI: cannot parse integer from empty string".to_string()));
}

#[test]
fn uri_bad_port_is_reported() {
    assert_eq!(
        host_port_from_uri("http://host:99999"),
        Err("invalid port in SPACETIME_URI: number too large to fit in target type".to_string())
    );
    assert_eq!(
        host_port_from_uri("http://host:3x"),
        Err("invalid port in SPACETIME_URI: invalid digit found in string".to_string())
    );
    assert_eq!(
        host_port_from_uri("http://host:"),
        Err("invalid port in SPACETIME_URI: cannot parse integer from empty string".to_string())
    );
}

#[test]
fn pid_file_parsing() {
    assert_eq!(parse_pid("1234\n"), Ok(1234));
    assert_eq!(parse_pid("  42 "), Ok(42));
    assert_eq!(
        parse_pid("abc"),
        Err("invalid pid file contents: invalid digit found in string".to_string())
    );
    assert_eq!(
        parse_pid(" \n"),
        Err("invalid pid file contents: cannot parse integer from empty string".to_string())
    );
}

#[test]
fn startup_already_running() {
    let mut s = DbStartup::new();
    assert_eq!(s.observe(true), StartupVerdict::AlreadyRunning);
    assert!(s.is_over());
}

#[test]
fn startup_launches_then_becomes_ready() {
    let mut s = DbStartup::new();
    assert_eq!(s.observe(false), StartupVerdict::Launch);
    assert_eq!(s.observe(false), StartupVerdict::WaitAndRetry);
    assert_eq!(s.observe(false), StartupVerdict::WaitAndRetry);
    assert_eq!(s.observe(true), StartupVerdict::Ready);
    assert!(s.is_over());
}

#[test]
fn startup_gives_up_after_forty_checks() {
    let mut s = DbStartup::new();
    assert_eq!(s.observe(false), StartupVerdict::Launch);
    let mut verdicts = Vec::new();
    while !s.is_over() {
        verdicts.push(s.observe(false));
    }
    assert_eq!(verdicts.len(), STARTUP_POLL_LIMIT as usize);
    assert_eq!(verdicts.len(), 40);
    assert!(verdicts[..39].iter().all(|v| *v == StartupVerdict::WaitAndRetry));
    assert_eq!(verdicts[39], StartupVerdict::WaitThenGiveUp);
}

#[test]
fn run_stops_at_first_failure() {
    assert!(matches!(first_run_action(0), RunAction::Finish(Ok(()))));
    assert!(matches!(first_run_action(3), RunAction::Perform(0)));
    assert!(matches!(after_step(0, 3, Ok(())), RunAction::Perform(1)));
    assert!(matches!(after_step(2, 3, Ok(())), RunAction::Finish(Ok(()))));
    match after_step(0, 3, Err("boom".to_string())) {
        RunAction::Finish(Err(m)) => assert_eq!(m, "boom"),
        _ => panic!("a failed step must end the run"),
    }
}

#[test]
fn generate_builds_module_only_when_missing() {
    assert_eq!(db_generate_plan(true), vec![GenerateStep::GenerateBindings]);
    assert_eq!(
        db_generate_plan(false),
        vec![GenerateStep::BuildModule, GenerateStep::GenerateBindings]
    );
}
