use sdtab::add::{run, service_config, timer_config, unit_name, AddError, AddOptions};
use sdtab::cron::error::ParseError;
use sdtab::cron::parse;
use sdtab::init::{
    config_dir, env_template, global_env_path, not_found, read_env_path, resolve_command, unit_dir,
    with_arguments, Lookup,
};
use sdtab::list::{column_width, format_next_run, parse_service_metadata};
use sdtab::parse_unit::UnitType;
use sdtab::status::{extract_exec_command, is_memory, is_time, shows_pid};
use sdtab::systemctl::{
    daemon_reload, enable_and_start, is_active, outcome, restart, says_active, show_property,
    stop_and_disable,
};

fn options(schedule: &str, command: &str) -> AddOptions {
    AddOptions {
        schedule: schedule.to_string(),
        command: command.to_string(),
        name: None,
        workdir: None,
        description: None,
        env_file: None,
        restart: None,
        memory_max: Some("1G".to_string()),
        cpu_quota: None,
        io_weight: None,
        timeout_stop: None,
        exec_start_pre: None,
        exec_stop_post: None,
        log_level_max: None,
        random_delay: Some("5m".to_string()),
        env: vec!["A=1".to_string()],
    }
}

#[test]
fn systemctl_arguments() {
    assert_eq!(daemon_reload(), vec!["daemon-reload"]);
    assert_eq!(enable_and_start("sdtab-a.timer"), vec!["enable", "--now", "sdtab-a.timer"]);
    assert_eq!(stop_and_disable("sdtab-a.timer"), vec!["disable", "--now", "sdtab-a.timer"]);
    assert_eq!(is_active("sdtab-a.service"), vec!["is-active", "sdtab-a.service"]);
    assert_eq!(restart("sdtab-a.service"), vec!["restart", "sdtab-a.service"]);
    assert_eq!(
        show_property("sdtab-a.service", "ActiveState"),
        vec!["show", "-p", "ActiveState", "--value", "sdtab-a.service"]
    );
}

#[test]
fn systemctl_outcomes() {
    let args = restart("sdtab-a.service");
    assert_eq!(outcome(&args, true, "  active\n", "ignored"), Ok("active".to_string()));
    assert_eq!(
        outcome(&args, false, "ignored", " Unit not found.\n"),
        Err("systemctl --user restart sdtab-a.service failed: Unit not found.".to_string())
    );
    assert_eq!(
        outcome(&Vec::new(), false, "", ""),
        Err("systemctl --user  failed: ".to_string())
    );
    assert!(says_active("active\n"));
    assert!(!says_active("inactive\n"));
    assert!(!says_active("Active"));
}

#[test]
fn directories_below_home() {
    assert_eq!(unit_dir("/home/u"), "/home/u/.config/systemd/user");
    assert_eq!(config_dir("/home/u"), "/home/u/.config/sdtab");
    assert_eq!(global_env_path("/home/u"), "/home/u/.config/sdtab/env");
    assert_eq!(global_env_path(""), "/.config/sdtab/env");
    assert!(env_template().lines().all(|line| line.starts_with('#')));
    assert_eq!(read_env_path(env_template()), Vec::<String>::new());
}

#[test]
fn search_path_of_the_environment_file() {
    assert_eq!(read_env_path(""), Vec::<String>::new());
    assert_eq!(read_env_path("# PATH=/x\nFOO=1\n"), Vec::<String>::new());
    assert_eq!(
        read_env_path("# comment\n\n  PATH=/a/bin:/b/bin::/c  \nPATH=/late\n"),
        vec!["/a/bin", "/b/bin", "", "/c"]
    );
    assert_eq!(read_env_path("PATH="), vec![""]);
}

#[test]
fn how_a_command_is_found() {
    assert_eq!(resolve_command("/usr/bin/echo hi"), Lookup::AsIs);
    assert_eq!(resolve_command("./start.sh"), Lookup::AsIs);
    assert_eq!(resolve_command("../start.sh now"), Lookup::AsIs);
    assert_eq!(
        resolve_command("uv run ./report.py"),
        Lookup::Search { program: "uv".to_string(), arguments: "run ./report.py".to_string() }
    );
    assert_eq!(
        resolve_command("node"),
        Lookup::Search { program: "node".to_string(), arguments: "".to_string() }
    );
    assert_eq!(
        resolve_command("node\t  a"),
        Lookup::Search { program: "node".to_string(), arguments: "  a".to_string() }
    );
    assert_eq!(
        resolve_command(" node"),
        Lookup::Search { program: "".to_string(), arguments: "node".to_string() }
    );
    assert_eq!(with_arguments("/usr/bin/uv", "run ./report.py"), "/usr/bin/uv run ./report.py");
    assert_eq!(with_arguments("/usr/bin/node", ""), "/usr/bin/node");
    assert_eq!(
        not_found("uv", "/home/u/.config/sdtab/env"),
        "Command 'uv' not found. Add its directory to PATH in /home/u/.config/sdtab/env"
    );
}

#[test]
fn what_the_list_shows() {
    let m = parse_service_metadata(
        "# sdtab:type=service\n# sdtab:cron=0 9 * * *\r\nExecStart=/bin/a\nExecStart=/bin/b \n",
    );
    assert_eq!(m.unit_type, UnitType::Service);
    assert_eq!(m.cron_expr, "0 9 * * *");
    assert_eq!(m.command, "/bin/b ");
    let m = parse_service_metadata("[Unit]\n # sdtab:type=service\n");
    assert_eq!(m.unit_type, UnitType::Timer);
    assert_eq!(m.cron_expr, "?");
    assert_eq!(m.command, "?");
    let m = parse_service_metadata("# sdtab:type=service\n# sdtab:type=timer and more\n");
    assert_eq!(m.unit_type, UnitType::Timer);
    assert_eq!(format_next_run(""), "-");
    assert_eq!(format_next_run("n/a"), "-");
    assert_eq!(format_next_run("Mon 2026-01-05 09:00:00 UTC"), "Mon 2026-01-05 09:00:00 UTC");
    assert_eq!(column_width(&vec![], 4), 4);
    assert_eq!(column_width(&vec![1, 9, 3], 4), 9);
    assert_eq!(column_width(&vec![1, 2, 3], 4), 4);
}

#[test]
fn what_the_status_shows() {
    assert_eq!(
        extract_exec_command("{ path=/usr/bin/foo ; argv[]=/usr/bin/foo arg1 arg2 ; ignore=no }"),
        "/usr/bin/foo arg1 arg2"
    );
    assert_eq!(extract_exec_command("{ argv[]= /usr/bin/foo a }} "), "/usr/bin/foo a");
    assert_eq!(extract_exec_command("argv[]="), "");
    assert_eq!(extract_exec_command("/usr/bin/foo"), "/usr/bin/foo");
    assert_eq!(extract_exec_command(""), "");
    assert!(shows_pid("active", "4711"));
    assert!(!shows_pid("active", "0"));
    assert!(!shows_pid("failed", "4711"));
    assert!(is_time("Mon"));
    assert!(!is_time("") && !is_time("n/a"));
    assert!(is_memory("1024"));
    assert!(!is_memory("[not set]") && !is_memory("infinity"));
}

#[test]
fn adding_a_timer() {
    let opts = options(" @Monday/9:00 ", "uv run ./report.py");
    let request = run(&opts).unwrap();
    assert_eq!(request.unit_type, UnitType::Timer);
    assert_eq!(unit_name(&opts), "report");
    assert_eq!(request.schedule, Some(parse("@mon/9").unwrap()));
    let name = unit_name(&opts);
    let config = timer_config(
        opts,
        name,
        request.schedule.unwrap(),
        "/work".to_string(),
        "/usr/bin/uv run ./report.py".to_string(),
    );
    assert_eq!(config.name, "report");
    assert_eq!(config.command, "/usr/bin/uv run ./report.py");
    assert_eq!(config.workdir, "/work");
    assert_eq!(config.description, "uv run ./report.py");
    assert_eq!(config.cron_expr, Some("@mon/9".to_string()));
    assert_eq!(config.memory_max, Some("1G".to_string()));
    assert_eq!(config.random_delay, Some("5m".to_string()));
    assert_eq!(config.env, vec!["A=1"]);
    assert!(config.restart_policy.is_none() && config.env_file.is_none());

    let mut opts = options("0 9 * * *", "echo");
    opts.name = Some("given".to_string());
    opts.description = Some("says nothing".to_string());
    let request = run(&opts).unwrap();
    let name = unit_name(&opts);
    assert_eq!(name, "given");
    let config =
        timer_config(opts, name, request.schedule.unwrap(), "/".to_string(), "e".to_string());
    assert_eq!(config.cron_expr, Some("0 9 * * *".to_string()));
    assert_eq!(config.description, "says nothing");
}

#[test]
fn adding_a_service() {
    let mut opts = options("@service", "python bot.py");
    opts.restart = Some("on-failure".to_string());
    opts.env_file = Some("/e".to_string());
    let request = run(&opts).unwrap();
    assert_eq!(request.unit_type, UnitType::Service);
    assert!(request.schedule.is_none());
    let name = unit_name(&opts);
    assert_eq!(name, "bot");
    let config = service_config(opts, name, "/w".to_string(), "/py bot.py".to_string());
    assert_eq!(config.restart_policy, Some("on-failure".to_string()));
    assert_eq!(config.env_file, Some("/e".to_string()));
    assert!(config.cron_expr.is_none() && config.schedule.is_none());
    assert!(config.random_delay.is_none());
    assert_eq!(config.description, "python bot.py");

    for policy in ["always", "on-failure", "no"] {
        let mut opts = options("@service", "x");
        opts.restart = Some(policy.to_string());
        assert!(run(&opts).is_ok());
    }
    let mut opts = options("@service", "x");
    opts.restart = Some("sometimes".to_string());
    let err = run(&opts).unwrap_err();
    assert_eq!(err, AddError::InvalidRestart { policy: "sometimes".to_string() });
    assert_eq!(
        err.message(),
        "Invalid restart policy 'sometimes'. Must be one of: always, on-failure, no"
    );
    let mut opts = options("@daily", "x");
    opts.restart = Some("sometimes".to_string());
    assert!(run(&opts).is_ok());
}

#[test]
fn a_refused_schedule_comes_before_the_name() {
    let err = run(&options("@monday", "   ")).unwrap_err();
    assert_eq!(err, AddError::Schedule(ParseError::MissingTime { keyword: "@monday".to_string() }));
    let mut opts = options("@service", "");
    opts.restart = Some("sometimes".to_string());
    assert_eq!(
        run(&opts).unwrap_err(),
        AddError::InvalidRestart { policy: "sometimes".to_string() }
    );
    assert_eq!(run(&options("@daily", "")).unwrap().unit_type, UnitType::Timer);
}

#[test]
fn adding_with_a_refused_schedule() {
    let err = run(&options("@monday", "x")).unwrap_err();
    assert_eq!(err, AddError::Schedule(ParseError::MissingTime { keyword: "@monday".to_string() }));
    assert_eq!(err.message(), "Missing time for '@monday'. Use: @monday/9 or @monday/9:30");
}
