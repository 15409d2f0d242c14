use sdtab::apply::{service_matches, timer_matches};
use sdtab::parse_unit::{ParsedUnit, UnitType};
use sdtab::sdtabfile::{
    desc_matches, description_if_different, is_default_restart, ServiceEntry, TimerEntry,
};

#[test]
fn test_desc_matches() {
    assert!(desc_matches("echo hello", "echo hello", &None));
    assert!(desc_matches("daily report", "echo hello", &Some("daily report".to_string())));
    assert!(!desc_matches("wrong", "echo hello", &Some("daily report".to_string())));
    assert!(!desc_matches("different", "echo hello", &None));
}

#[test]
fn test_description_if_different() {
    assert_eq!(description_if_different("echo hello", "echo hello"), None);
    assert_eq!(
        description_if_different("daily report", "uv run ./report.py"),
        Some("daily report".to_string())
    );
}

#[test]
fn test_is_default_restart() {
    assert!(is_default_restart(&None));
    assert!(is_default_restart(&Some("always".to_string())));
    assert!(!is_default_restart(&Some("on-failure".to_string())));
    assert!(!is_default_restart(&Some("no".to_string())));
}

fn unit() -> ParsedUnit {
    ParsedUnit {
        name: "report".to_string(),
        unit_type: UnitType::Timer,
        command: "uv run ./report.py".to_string(),
        workdir: "/home/user/project".to_string(),
        description: "daily report".to_string(),
        cron_expr: Some("0 9 * * *".to_string()),
        restart_policy: None,
        env_file: None,
        memory_max: Some("512M".to_string()),
        cpu_quota: None,
        io_weight: None,
        timeout_stop: None,
        exec_start_pre: None,
        exec_stop_post: None,
        log_level_max: None,
        random_delay: Some("5m".to_string()),
        env: vec!["A=1".to_string()],
    }
}

fn timer() -> TimerEntry {
    TimerEntry {
        schedule: "0 9 * * *".to_string(),
        command: "uv run ./report.py".to_string(),
        workdir: "/home/user/project".to_string(),
        description: Some("daily report".to_string()),
        memory_max: Some("512M".to_string()),
        cpu_quota: None,
        io_weight: None,
        timeout_stop: None,
        exec_start_pre: None,
        exec_stop_post: None,
        log_level_max: None,
        random_delay: Some("5m".to_string()),
        env: vec!["A=1".to_string()],
    }
}

fn service() -> ServiceEntry {
    ServiceEntry {
        command: "uv run ./report.py".to_string(),
        workdir: "/home/user/project".to_string(),
        description: Some("daily report".to_string()),
        restart: None,
        env_file: None,
        memory_max: Some("512M".to_string()),
        cpu_quota: None,
        io_weight: None,
        timeout_stop: None,
        exec_start_pre: None,
        exec_stop_post: None,
        log_level_max: None,
        env: vec!["A=1".to_string()],
    }
}

#[test]
fn timer_matches_field_by_field() {
    assert!(timer_matches(&unit(), &timer()));
    let mut t = timer();
    t.schedule = "0 10 * * *".to_string();
    assert!(!timer_matches(&unit(), &t));
    let mut t = timer();
    t.command = "other".to_string();
    assert!(!timer_matches(&unit(), &t));
    let mut t = timer();
    t.workdir = "/".to_string();
    assert!(!timer_matches(&unit(), &t));
    let mut t = timer();
    t.description = None;
    assert!(!timer_matches(&unit(), &t));
    let mut t = timer();
    t.memory_max = None;
    assert!(!timer_matches(&unit(), &t));
    let mut t = timer();
    t.cpu_quota = Some("1%".to_string());
    assert!(!timer_matches(&unit(), &t));
    let mut t = timer();
    t.io_weight = Some("1".to_string());
    assert!(!timer_matches(&unit(), &t));
    let mut t = timer();
    t.timeout_stop = Some("1".to_string());
    assert!(!timer_matches(&unit(), &t));
    let mut t = timer();
    t.exec_start_pre = Some("1".to_string());
    assert!(!timer_matches(&unit(), &t));
    let mut t = timer();
    t.exec_stop_post = Some("1".to_string());
    assert!(!timer_matches(&unit(), &t));
    let mut t = timer();
    t.log_level_max = Some("1".to_string());
    assert!(!timer_matches(&unit(), &t));
    let mut t = timer();
    t.random_delay = None;
    assert!(!timer_matches(&unit(), &t));
    let mut t = timer();
    t.env = vec![];
    assert!(!timer_matches(&unit(), &t));
    let mut t = timer();
    t.env = vec!["A=2".to_string()];
    assert!(!timer_matches(&unit(), &t));
    let mut u = unit();
    u.cron_expr = None;
    let mut t = timer();
    t.schedule = "".to_string();
    assert!(timer_matches(&u, &t));
    let mut u = unit();
    u.description = u.command.clone();
    let mut t = timer();
    t.description = None;
    assert!(timer_matches(&u, &t));
}

#[test]
fn service_matches_field_by_field() {
    let mut u = unit();
    u.random_delay = None;
    assert!(service_matches(&u, &service()));
    let mut s = service();
    s.restart = Some("always".to_string());
    assert!(service_matches(&u, &s));
    s.restart = Some("no".to_string());
    assert!(!service_matches(&u, &s));
    u.restart_policy = Some("no".to_string());
    assert!(service_matches(&u, &s));
    let mut s = service();
    s.env_file = Some("/e".to_string());
    assert!(!service_matches(&unit(), &s));
    let mut s = service();
    s.command = "x".to_string();
    assert!(!service_matches(&unit(), &s));
    let mut s = service();
    s.env.push("B=2".to_string());
    assert!(!service_matches(&unit(), &s));
}
