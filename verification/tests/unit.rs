use sdtab::cron::schedule::{CronSchedule, Trigger};
use sdtab::unit::{
    derive_name, generate_daemon_service, generate_service, generate_timer, service_filename,
    timer_filename, UnitConfig, UnitType,
};

const GLOBAL_ENV: &str = "/home/user/.config/sdtab/env";

fn calendar(expression: &str) -> Option<CronSchedule> {
    Some(CronSchedule { trigger: Trigger::Calendar(expression.to_string()), display: None })
}

#[test]
fn derive_name_uv_run() {
    assert_eq!(derive_name("uv run ./report.py"), "report");
}

#[test]
fn derive_name_python() {
    assert_eq!(derive_name("python script.py"), "script");
}

#[test]
fn derive_name_direct_command() {
    assert_eq!(derive_name("./my-tool --flag"), "my-tool");
}

#[test]
fn derive_name_simple_command() {
    assert_eq!(derive_name("echo hello"), "echo");
}

#[test]
fn test_service_generation() {
    let config = UnitConfig {
        name: "report".to_string(),
        command: "uv run ./report.py".to_string(),
        workdir: "/home/user/project".to_string(),
        description: "daily report".to_string(),
        unit_type: UnitType::Timer,
        cron_expr: Some("0 9 * * *".to_string()),
        schedule: calendar("*-*-* 09:00:00"),
        restart_policy: None,
        env_file: None,
        memory_max: None,
        cpu_quota: None,
        io_weight: None,
        timeout_stop: None,
        exec_start_pre: None,
        exec_stop_post: None,
        log_level_max: None,
        random_delay: None,
        env: vec![],
    };

    let service = generate_service(&config, Some(GLOBAL_ENV));
    assert!(service.contains("# sdtab:type=timer"));
    assert!(service.contains("# sdtab:cron=0 9 * * *"));
    assert!(service.contains("Description=[sdtab] report: daily report"));
    assert!(service.contains("ExecStart=uv run ./report.py"));
    assert!(service.contains("WorkingDirectory=/home/user/project"));
    assert!(service.contains("Type=oneshot"));
}

#[test]
fn test_timer_generation_calendar() {
    let config = UnitConfig {
        name: "report".to_string(),
        command: "uv run ./report.py".to_string(),
        workdir: "/home/user/project".to_string(),
        description: "daily report".to_string(),
        unit_type: UnitType::Timer,
        cron_expr: Some("0 9 * * *".to_string()),
        schedule: calendar("*-*-* 09:00:00"),
        restart_policy: None,
        env_file: None,
        memory_max: None,
        cpu_quota: None,
        io_weight: None,
        timeout_stop: None,
        exec_start_pre: None,
        exec_stop_post: None,
        log_level_max: None,
        random_delay: None,
        env: vec![],
    };

    let timer = generate_timer(&config);
    assert!(timer.contains("OnCalendar=*-*-* 09:00:00"));
    assert!(timer.contains("Persistent=true"));
    assert!(timer.contains("WantedBy=timers.target"));
}

#[test]
fn test_timer_generation_reboot() {
    let config = UnitConfig {
        name: "startup".to_string(),
        command: "./boot.sh".to_string(),
        workdir: "/home/user".to_string(),
        description: "run on boot".to_string(),
        unit_type: UnitType::Timer,
        cron_expr: Some("@reboot".to_string()),
        schedule: Some(CronSchedule {
            trigger: Trigger::BootDelay("1min".to_string()),
            display: None,
        }),
        restart_policy: None,
        env_file: None,
        memory_max: None,
        cpu_quota: None,
        io_weight: None,
        timeout_stop: None,
        exec_start_pre: None,
        exec_stop_post: None,
        log_level_max: None,
        random_delay: None,
        env: vec![],
    };

    let timer = generate_timer(&config);
    assert!(timer.contains("OnBootSec=1min"));
}

#[test]
fn test_daemon_service_generation() {
    let config = UnitConfig {
        name: "agent".to_string(),
        command: "ambient-task-agent serve --port 3000".to_string(),
        workdir: "/home/user/project".to_string(),
        description: "ambient-task-agent serve --port 3000".to_string(),
        unit_type: UnitType::Service,
        cron_expr: None,
        schedule: None,
        restart_policy: Some("on-failure".to_string()),
        env_file: Some("/home/user/.config/bot/.env".to_string()),
        memory_max: None,
        cpu_quota: None,
        io_weight: None,
        timeout_stop: None,
        exec_start_pre: None,
        exec_stop_post: None,
        log_level_max: None,
        random_delay: None,
        env: vec![],
    };

    let service = generate_daemon_service(&config, Some(GLOBAL_ENV));
    assert!(service.contains("# sdtab:type=service"));
    assert!(service.contains("# sdtab:restart=on-failure"));
    assert!(service.contains("Type=simple"));
    assert!(service.contains("ExecStart=ambient-task-agent serve --port 3000"));
    assert!(service.contains("Restart=on-failure"));
    assert!(service.contains("RestartSec=5"));
    assert!(service.contains("EnvironmentFile=/home/user/.config/bot/.env"));
    assert!(service.contains("WantedBy=default.target"));
}

#[test]
fn test_daemon_service_defaults() {
    let config = UnitConfig {
        name: "bot".to_string(),
        command: "python bot.py".to_string(),
        workdir: "/home/user".to_string(),
        description: "python bot.py".to_string(),
        unit_type: UnitType::Service,
        cron_expr: None,
        schedule: None,
        restart_policy: None,
        env_file: None,
        memory_max: None,
        cpu_quota: None,
        io_weight: None,
        timeout_stop: None,
        exec_start_pre: None,
        exec_stop_post: None,
        log_level_max: None,
        random_delay: None,
        env: vec![],
    };

    let service = generate_daemon_service(&config, Some(GLOBAL_ENV));
    assert!(service.contains("Restart=always"));
    assert!(service.contains("EnvironmentFile=-"));
    assert!(!service.contains("EnvironmentFile=/"));
}

#[test]
fn test_resource_limits_service() {
    let config = UnitConfig {
        name: "heavy".to_string(),
        command: "./heavy-task.sh".to_string(),
        workdir: "/home/user".to_string(),
        description: "heavy task".to_string(),
        unit_type: UnitType::Timer,
        cron_expr: Some("0 10 * * *".to_string()),
        schedule: calendar("*-*-* 10:00:00"),
        restart_policy: None,
        env_file: None,
        memory_max: Some("512M".to_string()),
        cpu_quota: Some("50%".to_string()),
        io_weight: Some("10".to_string()),
        timeout_stop: Some("30s".to_string()),
        exec_start_pre: None,
        exec_stop_post: None,
        log_level_max: Some("warning".to_string()),
        random_delay: Some("5m".to_string()),
        env: vec![],
    };

    let service = generate_service(&config, Some(GLOBAL_ENV));
    assert!(service.contains("MemoryMax=512M"));
    assert!(service.contains("CPUQuota=50%"));
    assert!(service.contains("IOWeight=10"));
    assert!(service.contains("TimeoutStopSec=30s"));
    assert!(service.contains("LogLevelMax=warning"));

    let timer = generate_timer(&config);
    assert!(timer.contains("RandomizedDelaySec=5m"));
}

#[test]
fn test_resource_limits_daemon() {
    let config = UnitConfig {
        name: "bot".to_string(),
        command: "python bot.py".to_string(),
        workdir: "/home/user".to_string(),
        description: "python bot.py".to_string(),
        unit_type: UnitType::Service,
        cron_expr: None,
        schedule: None,
        restart_policy: Some("always".to_string()),
        env_file: None,
        memory_max: Some("1G".to_string()),
        cpu_quota: None,
        io_weight: None,
        timeout_stop: None,
        exec_start_pre: Some("/usr/bin/test -f /tmp/ready".to_string()),
        exec_stop_post: Some("/usr/bin/curl -s http://notify/down".to_string()),
        log_level_max: None,
        random_delay: None,
        env: vec![],
    };

    let service = generate_daemon_service(&config, Some(GLOBAL_ENV));
    assert!(service.contains("MemoryMax=1G"));
    assert!(!service.contains("CPUQuota"));
    assert!(service.contains("ExecStartPre=/usr/bin/test -f /tmp/ready"));
    assert!(service.contains("ExecStopPost=/usr/bin/curl -s http://notify/down"));
}

#[test]
fn test_no_resource_limits() {
    let config = UnitConfig {
        name: "light".to_string(),
        command: "echo hello".to_string(),
        workdir: "/home/user".to_string(),
        description: "light task".to_string(),
        unit_type: UnitType::Timer,
        cron_expr: Some("@daily".to_string()),
        schedule: calendar("*-*-* 00:00:00"),
        restart_policy: None,
        env_file: None,
        memory_max: None,
        cpu_quota: None,
        io_weight: None,
        timeout_stop: None,
        exec_start_pre: None,
        exec_stop_post: None,
        log_level_max: None,
        random_delay: None,
        env: vec![],
    };

    let service = generate_service(&config, Some(GLOBAL_ENV));
    assert!(!service.contains("MemoryMax"));
    assert!(!service.contains("CPUQuota"));
}

fn full_config() -> UnitConfig {
    UnitConfig {
        name: "job".to_string(),
        command: "/usr/bin/job --now".to_string(),
        workdir: "/srv/job".to_string(),
        description: "the job".to_string(),
        unit_type: UnitType::Timer,
        cron_expr: Some("@daily/9".to_string()),
        schedule: calendar("*-*-* 09:00:00"),
        restart_policy: Some("no".to_string()),
        env_file: Some("/srv/job/.env".to_string()),
        memory_max: Some("1G".to_string()),
        cpu_quota: Some("20%".to_string()),
        io_weight: Some("50".to_string()),
        timeout_stop: Some("10s".to_string()),
        exec_start_pre: Some("/bin/true".to_string()),
        exec_stop_post: Some("/bin/false".to_string()),
        log_level_max: Some("info".to_string()),
        random_delay: Some("1m".to_string()),
        env: vec!["A=1".to_string(), "B=2".to_string()],
    }
}

#[test]
fn service_file_letter_for_letter() {
    let text = generate_service(&full_config(), Some(GLOBAL_ENV));
    let expected = "# sdtab:type=timer\n\
# sdtab:cron=@daily/9\n\
[Unit]\n\
Description=[sdtab] job: the job\n\
\n\
[Service]\n\
Type=oneshot\n\
ExecStart=/usr/bin/job --now\n\
WorkingDirectory=/srv/job\n\
EnvironmentFile=-/home/user/.config/sdtab/env\n\
ExecStartPre=/bin/true\n\
ExecStopPost=/bin/false\n\
TimeoutStopSec=10s\n\
MemoryMax=1G\n\
CPUQuota=20%\n\
IOWeight=50\n\
LogLevelMax=info\n\
Environment=A=1\n\
Environment=B=2\n";
    assert_eq!(text, expected);
}

#[test]
fn daemon_service_file_letter_for_letter() {
    let text = generate_daemon_service(&full_config(), None);
    let expected = "# sdtab:type=service\n\
# sdtab:restart=no\n\
[Unit]\n\
Description=[sdtab] job: the job\n\
After=network-online.target\n\
\n\
[Service]\n\
Type=simple\n\
ExecStart=/usr/bin/job --now\n\
WorkingDirectory=/srv/job\n\
Restart=no\n\
RestartSec=5\n\
EnvironmentFile=/srv/job/.env\n\
ExecStartPre=/bin/true\n\
ExecStopPost=/bin/false\n\
TimeoutStopSec=10s\n\
MemoryMax=1G\n\
CPUQuota=20%\n\
IOWeight=50\n\
LogLevelMax=info\n\
Environment=A=1\n\
Environment=B=2\n\
[Install]\n\
WantedBy=default.target\n";
    assert_eq!(text, expected);
}

#[test]
fn timer_file_letter_for_letter() {
    let text = generate_timer(&full_config());
    let expected = "[Unit]\n\
Description=[sdtab] job timer\n\
\n\
[Timer]\n\
OnCalendar=*-*-* 09:00:00\n\
Persistent=true\n\
RandomizedDelaySec=1m\n\
\n\
[Install]\n\
WantedBy=timers.target\n";
    assert_eq!(text, expected);
    let mut plain = full_config();
    plain.random_delay = None;
    plain.schedule =
        Some(CronSchedule { trigger: Trigger::BootDelay("1min".to_string()), display: None });
    assert_eq!(
        generate_timer(&plain),
        "[Unit]\nDescription=[sdtab] job timer\n\n[Timer]\nOnBootSec=1min\nPersistent=true\n\n[Install]\nWantedBy=timers.target\n"
    );
}

#[test]
fn file_names() {
    assert_eq!(service_filename("report"), "sdtab-report.service");
    assert_eq!(timer_filename("report"), "sdtab-report.timer");
    assert_eq!(service_filename(""), "sdtab-.service");
}

#[test]
fn derive_name_edge_cases() {
    assert_eq!(derive_name("/usr/bin/python3 /opt/app/run.py --fast"), "run");
    assert_eq!(derive_name("uv sync"), "sync");
    assert_eq!(derive_name("uv run"), "run");
    assert_eq!(derive_name("uv  run\t./a/b/tool.sh"), "tool");
    assert_eq!(derive_name("node server.js"), "server");
    assert_eq!(derive_name("bash ./--.sh"), "task");
    assert_eq!(derive_name("sh ..-x.ts"), "x");
    assert_eq!(derive_name("perl -.-x.rb"), ".-x");
    assert_eq!(derive_name("ruby"), "ruby");
    assert_eq!(derive_name("dir/"), "task");
    assert_eq!(derive_name("  tool.py  "), "tool");
    assert_eq!(derive_name("a.py.py"), "a.py");
    assert_eq!(derive_name("notes.txt"), "notes.txt");
}
