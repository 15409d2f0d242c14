use sdtab::apply::{
    action_for, course, diff, service_options, summarize, timer_options, Action, Course,
    DiffStatus, Summary,
};
use sdtab::export::{declare, run, service_entry, timer_entry};
use sdtab::parse_unit::{ParsedUnit, UnitType};
use sdtab::sdtabfile::{Sdtabfile, ServiceEntry, TimerEntry};

fn unit(name: &str, unit_type: UnitType) -> ParsedUnit {
    ParsedUnit {
        name: name.to_string(),
        unit_type,
        command: "run it".to_string(),
        workdir: "/w".to_string(),
        description: "run it".to_string(),
        cron_expr: Some("@daily".to_string()),
        restart_policy: None,
        env_file: None,
        memory_max: None,
        cpu_quota: None,
        io_weight: None,
        timeout_stop: None,
        exec_start_pre: None,
        exec_stop_post: None,
        log_level_max: None,
        random_delay: None,
        env: vec![],
    }
}

fn timer(schedule: &str) -> TimerEntry {
    TimerEntry {
        schedule: schedule.to_string(),
        command: "run it".to_string(),
        workdir: "/w".to_string(),
        description: None,
        memory_max: None,
        cpu_quota: None,
        io_weight: None,
        timeout_stop: None,
        exec_start_pre: None,
        exec_stop_post: None,
        log_level_max: None,
        random_delay: None,
        env: vec![],
    }
}

fn service() -> ServiceEntry {
    ServiceEntry {
        command: "run it".to_string(),
        workdir: "/w".to_string(),
        description: None,
        restart: None,
        env_file: None,
        memory_max: None,
        cpu_quota: None,
        io_weight: None,
        timeout_stop: None,
        exec_start_pre: None,
        exec_stop_post: None,
        log_level_max: None,
        env: vec![],
    }
}

fn names<T>(entries: &[(String, T)]) -> Vec<&str> {
    entries.iter().map(|(name, _)| name.as_str()).collect()
}

#[test]
fn entries_stand_in_the_order_of_their_names() {
    let mut file = Sdtabfile::new();
    for name in ["m", "b", "z", "", "ab", "a", "B", "é", "b"] {
        file.insert_timer(name.to_string(), timer(name));
    }
    file.insert_service("s".to_string(), service());
    file.insert_service("a".to_string(), service());
    let mut sorted = vec!["m", "b", "z", "", "ab", "a", "B", "é"];
    sorted.sort();
    assert_eq!(names(&file.timers), sorted);
    assert_eq!(names(&file.services), vec!["a", "s"]);
    file.insert_timer("m".to_string(), timer("new"));
    assert_eq!(names(&file.timers), sorted);
    assert_eq!(file.timers.iter().find(|(n, _)| n == "m").unwrap().1.schedule, "new");
    assert_eq!(file.timers.iter().find(|(n, _)| n == "z").unwrap().1.schedule, "z");
}

#[test]
fn comparison_of_table_and_units() {
    let mut file = Sdtabfile::new();
    file.insert_timer("same".to_string(), timer("@daily"));
    file.insert_timer("changed".to_string(), timer("@hourly"));
    file.insert_timer("new".to_string(), timer("@daily"));
    file.insert_service("web".to_string(), service());
    file.insert_service("bot".to_string(), service());
    let mut old_web = unit("web", UnitType::Service);
    old_web.restart_policy = Some("no".to_string());
    let current = vec![
        unit("orphan", UnitType::Service),
        unit("same", UnitType::Timer),
        unit("changed", UnitType::Timer),
        old_web,
        unit("stray", UnitType::Timer),
    ];
    let entries = diff(&file, &current);
    let lines: Vec<(&str, UnitType, DiffStatus)> =
        entries.iter().map(|e| (e.name.as_str(), e.unit_type, e.status)).collect();
    assert_eq!(
        lines,
        vec![
            ("changed", UnitType::Timer, DiffStatus::Changed),
            ("new", UnitType::Timer, DiffStatus::Added),
            ("same", UnitType::Timer, DiffStatus::Unchanged),
            ("bot", UnitType::Service, DiffStatus::Added),
            ("web", UnitType::Service, DiffStatus::Changed),
            ("orphan", UnitType::Service, DiffStatus::Removed),
            ("stray", UnitType::Timer, DiffStatus::Removed),
        ]
    );
    assert_eq!(
        summarize(&entries, true),
        Summary { added: 2, changed: 2, unchanged: 1, removed: 2 }
    );
    assert_eq!(
        summarize(&entries, false),
        Summary { added: 2, changed: 2, unchanged: 1, removed: 0 }
    );
    assert!(!summarize(&entries, false).nothing_to_do());
}

#[test]
fn the_last_unit_of_a_name_counts() {
    let mut file = Sdtabfile::new();
    file.insert_timer("t".to_string(), timer("@daily"));
    let mut other = unit("t", UnitType::Timer);
    other.cron_expr = Some("@hourly".to_string());
    let entries = diff(&file, &vec![other, unit("t", UnitType::Timer)]);
    assert_eq!(entries.len(), 1);
    assert_eq!(entries[0].status, DiffStatus::Unchanged);
    let mut other = unit("t", UnitType::Timer);
    other.cron_expr = Some("@hourly".to_string());
    let entries = diff(&file, &vec![unit("t", UnitType::Timer), other]);
    assert_eq!(entries[0].status, DiffStatus::Changed);
}

#[test]
fn nothing_to_do_and_actions() {
    let mut file = Sdtabfile::new();
    file.insert_timer("t".to_string(), timer("@daily"));
    let current = vec![unit("t", UnitType::Timer), unit("x", UnitType::Timer)];
    let entries = diff(&file, &current);
    assert!(summarize(&entries, false).nothing_to_do());
    assert!(!summarize(&entries, true).nothing_to_do());
    assert!(summarize(&Vec::new(), true).nothing_to_do());
    for prune in [false, true] {
        assert_eq!(action_for(DiffStatus::Unchanged, prune), Action::Keep);
        assert_eq!(action_for(DiffStatus::Changed, prune), Action::Replace);
        assert_eq!(action_for(DiffStatus::Added, prune), Action::Add);
    }
    assert_eq!(action_for(DiffStatus::Removed, true), Action::Remove);
    assert_eq!(action_for(DiffStatus::Removed, false), Action::Keep);
}

#[test]
fn a_dry_run_changes_nothing() {
    let busy = Summary { added: 1, changed: 2, unchanged: 3, removed: 4 };
    let idle = Summary { added: 0, changed: 0, unchanged: 3, removed: 0 };
    assert_eq!(course(&busy, true), Course::DryRun);
    assert_eq!(course(&idle, true), Course::DryRun);
    assert_eq!(course(&busy, false), Course::Apply);
    assert_eq!(course(&idle, false), Course::NothingToDo);
    for (added, changed, removed) in [(1, 0, 0), (0, 1, 0), (0, 0, 1)] {
        let one = Summary { added, changed, unchanged: 0, removed };
        assert_eq!(course(&one, false), Course::Apply);
    }
}

#[test]
fn options_of_declared_entries() {
    let mut t = timer("0 9 * * *");
    t.description = Some("d".to_string());
    t.random_delay = Some("5m".to_string());
    t.env = vec!["A=1".to_string()];
    let opts = timer_options("report", &t);
    assert_eq!(opts.schedule, "0 9 * * *");
    assert_eq!(opts.name, Some("report".to_string()));
    assert_eq!(opts.workdir, Some("/w".to_string()));
    assert_eq!(opts.description, Some("d".to_string()));
    assert_eq!(opts.random_delay, Some("5m".to_string()));
    assert_eq!(opts.env, vec!["A=1"]);
    assert!(opts.env_file.is_none() && opts.restart.is_none());

    let mut s = service();
    s.restart = Some("no".to_string());
    s.env_file = Some("/e".to_string());
    let opts = service_options("web", &s);
    assert_eq!(opts.schedule, "@service");
    assert_eq!(opts.command, "run it");
    assert_eq!(opts.restart, Some("no".to_string()));
    assert_eq!(opts.env_file, Some("/e".to_string()));
    assert!(opts.random_delay.is_none());
}

#[test]
fn units_as_entries() {
    let mut u = unit("t", UnitType::Timer);
    u.cron_expr = None;
    u.description = "other".to_string();
    u.memory_max = Some("1G".to_string());
    let entry = timer_entry(u);
    assert_eq!(entry.schedule, "?");
    assert_eq!(entry.description, Some("other".to_string()));
    assert_eq!(entry.memory_max, Some("1G".to_string()));
    assert_eq!(timer_entry(unit("t", UnitType::Timer)).description, None);
    assert_eq!(timer_entry(unit("t", UnitType::Timer)).schedule, "@daily");
    let mut u = unit("s", UnitType::Service);
    u.restart_policy = Some("no".to_string());
    u.env_file = Some("/e".to_string());
    let entry = service_entry(u);
    assert_eq!(entry.restart, Some("no".to_string()));
    assert_eq!(entry.env_file, Some("/e".to_string()));
    assert_eq!(entry.description, None);
}

#[test]
fn exported_table_declares_every_unit() {
    let units = vec![
        unit("web", UnitType::Service),
        unit("b", UnitType::Timer),
        unit("a", UnitType::Timer),
        unit("api", UnitType::Service),
        unit("b", UnitType::Timer),
    ];
    let file = run(units);
    assert_eq!(names(&file.timers), vec!["a", "b"]);
    assert_eq!(names(&file.services), vec!["api", "web"]);
    let current = vec![
        unit("web", UnitType::Service),
        unit("b", UnitType::Timer),
        unit("a", UnitType::Timer),
        unit("api", UnitType::Service),
    ];
    let entries = diff(&file, &current);
    assert!(entries.iter().all(|e| e.status == DiffStatus::Unchanged));
    assert_eq!(entries.len(), 4);
    let mut file = Sdtabfile::new();
    declare(&mut file, unit("only", UnitType::Service));
    assert!(file.timers.is_empty());
    assert_eq!(names(&file.services), vec!["only"]);
}
