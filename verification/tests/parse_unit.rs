use sdtab::cron::parse;
use sdtab::parse_unit::{parse_service_file, UnitType};
use sdtab::unit::{generate_daemon_service, generate_service, generate_timer, UnitConfig};

#[test]
fn parse_timer_service_file() {
    let service = "\
# sdtab:type=timer
# sdtab:cron=0 9 * * *
# sdtab:command=uv run ./report.py
[Unit]
Description=[sdtab] report: daily report

[Service]
Type=oneshot
ExecStart=/home/user/.local/share/mise/shims/uv run ./report.py
WorkingDirectory=/home/user/project
EnvironmentFile=-/home/user/.config/sdtab/env
MemoryMax=512M
CPUQuota=50%
";

    let parsed = parse_service_file("report", service, None, "/home/user/.config/sdtab/env");
    assert!(matches!(parsed.unit_type, UnitType::Timer));
    assert_eq!(parsed.command, "uv run ./report.py");
    assert_eq!(parsed.workdir, "/home/user/project");
    assert_eq!(parsed.description, "daily report");
    assert_eq!(parsed.cron_expr, Some("0 9 * * *".to_string()));
    assert_eq!(parsed.memory_max, Some("512M".to_string()));
    assert_eq!(parsed.cpu_quota, Some("50%".to_string()));
    assert!(parsed.env_file.is_none());
}

#[test]
fn parse_daemon_service_file() {
    let service = "\
# sdtab:type=service
# sdtab:restart=always
# sdtab:command=node --env-file=.env dist/index.js
[Unit]
Description=[sdtab] web: PSP OCR Web
After=network-online.target

[Service]
Type=simple
ExecStart=/home/user/.local/share/mise/shims/node --env-file=.env dist/index.js
WorkingDirectory=/home/user/project
Restart=always
RestartSec=5
EnvironmentFile=-/home/user/.config/sdtab/env
EnvironmentFile=/home/user/.env
MemoryMax=256M

[Install]
WantedBy=default.target
";

    let parsed = parse_service_file("web", service, None, "/home/user/.config/sdtab/env");
    assert!(matches!(parsed.unit_type, UnitType::Service));
    assert_eq!(parsed.command, "node --env-file=.env dist/index.js");
    assert_eq!(parsed.restart_policy, Some("always".to_string()));
    assert_eq!(parsed.env_file, Some("/home/user/.env".to_string()));
    assert_eq!(parsed.memory_max, Some("256M".to_string()));
}

#[test]
fn parse_fallback_to_exec_start() {
    let service = "\
# sdtab:type=timer
# sdtab:cron=@daily
[Unit]
Description=[sdtab] task: echo hello

[Service]
Type=oneshot
ExecStart=/usr/bin/echo hello
WorkingDirectory=/home/user
EnvironmentFile=-/home/user/.config/sdtab/env
";

    let parsed = parse_service_file("task", service, None, "/home/user/.config/sdtab/env");
    assert_eq!(parsed.command, "/usr/bin/echo hello");
}

#[test]
fn parse_timer_with_random_delay() {
    let service = "\
# sdtab:type=timer
# sdtab:cron=0 9 * * *
[Unit]
Description=[sdtab] task: test

[Service]
Type=oneshot
ExecStart=/usr/bin/test
WorkingDirectory=/home/user
";
    let timer = "\
[Unit]
Description=[sdtab] task timer

[Timer]
OnCalendar=*-*-* 09:00:00
Persistent=true
RandomizedDelaySec=5m

[Install]
WantedBy=timers.target
";

    let parsed = parse_service_file("task", service, Some(timer), "");
    assert_eq!(parsed.random_delay, Some("5m".to_string()));
}

#[test]
fn parse_environment_variables() {
    let service = "\
# sdtab:type=service
# sdtab:restart=always
[Unit]
Description=[sdtab] app: my app

[Service]
Type=simple
ExecStart=/usr/bin/app
WorkingDirectory=/home/user
Restart=always
RestartSec=5
Environment=FOO=bar
Environment=BAZ=qux
";

    let parsed = parse_service_file("app", service, None, "");
    assert_eq!(parsed.env, vec!["FOO=bar", "BAZ=qux"]);
}

#[test]
fn unit_type_labels() {
    assert_eq!(UnitType::Timer.label(), "timer");
    assert_eq!(UnitType::Service.label(), "service");
}

#[test]
fn the_last_of_several_lines_counts() {
    let service = "  # sdtab:type=service  \r\n# sdtab:type=timer\r\n\
ExecStart=first\nExecStart=second  \n\
WorkingDirectory=/a\n\tWorkingDirectory=/b\n\
Description=[sdtab] n: one: two\nDescription=[sdtab] plain\n\
EnvironmentFile=/own\nEnvironmentFile=-/global\nEnvironmentFile=-/other\nEnvironmentFile=-/global\n\
IOWeight=1\nIOWeight=2\nTimeoutStopSec=3s\nExecStartPre=/p\nExecStopPost=/q\nLogLevelMax=err\n\
# sdtab:restart=no\n# sdtab:cron=@daily/9";
    let parsed = parse_service_file("n", service, Some("RandomizedDelaySec=1\n  RandomizedDelaySec=2 "), "/global");
    assert_eq!(parsed.name, "n");
    assert!(matches!(parsed.unit_type, UnitType::Timer));
    assert_eq!(parsed.command, "second");
    assert_eq!(parsed.workdir, "/b");
    assert_eq!(parsed.description, "plain");
    assert_eq!(parsed.env_file, Some("/other".to_string()));
    assert_eq!(parsed.io_weight, Some("2".to_string()));
    assert_eq!(parsed.timeout_stop, Some("3s".to_string()));
    assert_eq!(parsed.exec_start_pre, Some("/p".to_string()));
    assert_eq!(parsed.exec_stop_post, Some("/q".to_string()));
    assert_eq!(parsed.log_level_max, Some("err".to_string()));
    assert_eq!(parsed.restart_policy, Some("no".to_string()));
    assert_eq!(parsed.cron_expr, Some("@daily/9".to_string()));
    assert_eq!(parsed.random_delay, Some("2".to_string()));
    assert!(parsed.env.is_empty());
}

#[test]
fn an_empty_file_gives_an_empty_timer() {
    let parsed = parse_service_file("x", "", None, "");
    assert!(matches!(parsed.unit_type, UnitType::Timer));
    assert_eq!(parsed.command, "");
    assert_eq!(parsed.workdir, "");
    assert_eq!(parsed.description, "");
    assert!(parsed.cron_expr.is_none() && parsed.restart_policy.is_none());
    assert!(parsed.env_file.is_none() && parsed.random_delay.is_none());
}

#[test]
fn description_after_the_first_colon_and_space() {
    let parsed = parse_service_file("x", "Description=[sdtab] a: b: c", None, "");
    assert_eq!(parsed.description, "b: c");
    let parsed = parse_service_file("x", "Description=[sdtab] a:b", None, "");
    assert_eq!(parsed.description, "a:b");
    let parsed = parse_service_file("x", "Description=[sdtab] a:", None, "");
    assert_eq!(parsed.description, "a:");
}

#[test]
fn what_is_written_is_read_back() {
    let config = UnitConfig {
        name: "job".to_string(),
        command: "/usr/bin/job --now".to_string(),
        workdir: "/srv/job".to_string(),
        description: "the job: nightly".to_string(),
        unit_type: UnitType::Timer,
        cron_expr: Some("@daily/9".to_string()),
        schedule: Some(parse("@daily/9").unwrap()),
        restart_policy: Some("on-failure".to_string()),
        env_file: Some("/srv/job/.env".to_string()),
        memory_max: Some("1G".to_string()),
        cpu_quota: Some("20%".to_string()),
        io_weight: Some("50".to_string()),
        timeout_stop: Some("10s".to_string()),
        exec_start_pre: Some("/bin/true".to_string()),
        exec_stop_post: Some("/bin/false".to_string()),
        log_level_max: Some("info".to_string()),
        random_delay: Some("1m".to_string()),
        env: vec!["A=1".to_string(), "B=2".to_string()],
    };
    let global = "/home/u/.config/sdtab/env";
    let service = generate_service(&config, Some(global));
    let timer = generate_timer(&config);
    let unit = parse_service_file("job", &service, Some(&timer), global);
    assert!(matches!(unit.unit_type, UnitType::Timer));
    assert_eq!(unit.command, config.command);
    assert_eq!(unit.workdir, config.workdir);
    assert_eq!(unit.description, config.description);
    assert_eq!(unit.cron_expr, config.cron_expr);
    assert_eq!(unit.env_file, None);
    assert_eq!(unit.memory_max, config.memory_max);
    assert_eq!(unit.random_delay, config.random_delay);
    assert_eq!(unit.env, config.env);

    let daemon = generate_daemon_service(&config, Some(global));
    let unit = parse_service_file("job", &daemon, None, global);
    assert!(matches!(unit.unit_type, UnitType::Service));
    assert_eq!(unit.restart_policy, config.restart_policy);
    assert_eq!(unit.env_file, config.env_file);
    assert_eq!(unit.exec_start_pre, config.exec_start_pre);
    assert_eq!(unit.exec_stop_post, config.exec_stop_post);
    assert_eq!(unit.log_level_max, config.log_level_max);
    assert_eq!(unit.timeout_stop, config.timeout_stop);
    assert_eq!(unit.cpu_quota, config.cpu_quota);
    assert_eq!(unit.io_weight, config.io_weight);
    assert_eq!(unit.random_delay, None);
}
