//! Comparing the table that a file declares with the units that exist.

use crate::parse_unit::{unit_models, ParsedUnit, ParsedUnitModel, UnitType};
use crate::add::AddOptions;
use crate::sdtabfile::{
    declared_description, default_restart, desc_matches, models_of, names_of, Sdtabfile,
    ServiceEntry, ServiceModel, TableModel, TimerEntry, TimerModel,
};
use crate::text::{
    copy, copy_text, copy_texts, or_else, same, same_text, same_texts, text_of, texts_of,
};
use vstd::prelude::*;

verus! {

/// Whether the unit `current` is the timer that the table declares. An
/// existing unit without a trigger expression counts as one with an empty
/// expression.
pub open spec fn timer_agrees(current: ParsedUnitModel, desired: TimerModel) -> bool {
    &&& or_else(current.cron_expr, Seq::empty()) == desired.schedule
    &&& current.command == desired.command
    &&& current.workdir == desired.workdir
    &&& declared_description(current.description, current.command) == desired.description
    &&& current.memory_max == desired.memory_max
    &&& current.cpu_quota == desired.cpu_quota
    &&& current.io_weight == desired.io_weight
    &&& current.timeout_stop == desired.timeout_stop
    &&& current.exec_start_pre == desired.exec_start_pre
    &&& current.exec_stop_post == desired.exec_stop_post
    &&& current.log_level_max == desired.log_level_max
    &&& current.random_delay == desired.random_delay
    &&& current.env == desired.env
}

/// Whether the unit `current` is the service that the table declares. A
/// restart policy that is not stated counts as `always` on either side.
pub open spec fn service_agrees(current: ParsedUnitModel, desired: ServiceModel) -> bool {
    &&& current.command == desired.command
    &&& current.workdir == desired.workdir
    &&& declared_description(current.description, current.command) == desired.description
    &&& or_else(current.restart_policy, default_restart()) == or_else(
        desired.restart,
        default_restart(),
    )
    &&& current.env_file == desired.env_file
    &&& current.memory_max == desired.memory_max
    &&& current.cpu_quota == desired.cpu_quota
    &&& current.io_weight == desired.io_weight
    &&& current.timeout_stop == desired.timeout_stop
    &&& current.exec_start_pre == desired.exec_start_pre
    &&& current.exec_stop_post == desired.exec_stop_post
    &&& current.log_level_max == desired.log_level_max
    &&& current.env == desired.env
}

fn text_or<'a>(value: &'a Option<String>, default: &'a str) -> (r: &'a str)
    ensures
        r@ == or_else(text_of(*value), default@),
{
    match value {
        Some(v) => v.as_str(),
        None => default,
    }
}

/// Whether the unit `current` is the timer that the table declares.
pub fn timer_matches(current: &ParsedUnit, desired: &TimerEntry) -> (r: bool)
    ensures
        r == timer_agrees(current@, desired@),
{
    proof {
        reveal_strlit("");
        assert(""@ == Seq::<char>::empty());
    }
    same(text_or(&current.cron_expr, ""), desired.schedule.as_str()) && same(
        current.command.as_str(),
        desired.command.as_str(),
    ) && same(current.workdir.as_str(), desired.workdir.as_str()) && desc_matches(
        current.description.as_str(),
        current.command.as_str(),
        &desired.description,
    ) && same_text(&current.memory_max, &desired.memory_max) && same_text(
        &current.cpu_quota,
        &desired.cpu_quota,
    ) && same_text(&current.io_weight, &desired.io_weight) && same_text(
        &current.timeout_stop,
        &desired.timeout_stop,
    ) && same_text(&current.exec_start_pre, &desired.exec_start_pre) && same_text(
        &current.exec_stop_post,
        &desired.exec_stop_post,
    ) && same_text(&current.log_level_max, &desired.log_level_max) && same_text(
        &current.random_delay,
        &desired.random_delay,
    ) && same_texts(&current.env, &desired.env)
}

/// Whether the unit `current` is the service that the table declares.
pub fn service_matches(current: &ParsedUnit, desired: &ServiceEntry) -> (r: bool)
    ensures
        r == service_agrees(current@, desired@),
{
    same(current.command.as_str(), desired.command.as_str()) && same(
        current.workdir.as_str(),
        desired.workdir.as_str(),
    ) && desc_matches(
        current.description.as_str(),
        current.command.as_str(),
        &desired.description,
    ) && same(text_or(&current.restart_policy, "always"), text_or(&desired.restart, "always"))
        && same_text(&current.env_file, &desired.env_file) && same_text(
        &current.memory_max,
        &desired.memory_max,
    ) && same_text(&current.cpu_quota, &desired.cpu_quota) && same_text(
        &current.io_weight,
        &desired.io_weight,
    ) && same_text(&current.timeout_stop, &desired.timeout_stop) && same_text(
        &current.exec_start_pre,
        &desired.exec_start_pre,
    ) && same_text(&current.exec_stop_post, &desired.exec_stop_post) && same_text(
        &current.log_level_max,
        &desired.log_level_max,
    ) && same_texts(&current.env, &desired.env)
}

/// How a unit of the table, or a unit that exists, stands to the other side.
#[derive(Clone, Copy, Debug, PartialEq, Eq, Structural)]
pub enum DiffStatus {
    /// Declared, and no unit of that name exists.
    Added,
    /// Declared, and the unit of that name differs.
    Changed,
    /// Declared, and the unit of that name is as declared.
    Unchanged,
    /// A unit exists that the table does not declare.
    Removed,
}

/// One line of the comparison.
#[derive(Debug)]
pub struct DiffEntry {
    pub name: String,
    pub unit_type: UnitType,
    pub status: DiffStatus,
}

/// One line of the comparison as contracts speak of it.
pub struct DiffModel {
    pub name: Seq<char>,
    pub unit_type: UnitType,
    pub status: DiffStatus,
}

impl View for DiffEntry {
    type V = DiffModel;

    open spec fn view(&self) -> DiffModel {
        DiffModel { name: self.name@, unit_type: self.unit_type, status: self.status }
    }
}

/// The lines as contracts speak of them.
pub open spec fn diff_models(entries: Seq<DiffEntry>) -> Seq<DiffModel> {
    Seq::new(entries.len(), |i: int| entries[i]@)
}

/// The unit with the name `name`: the last of that name.
pub open spec fn unit_named(units: Seq<ParsedUnitModel>, name: Seq<char>) -> Option<
    ParsedUnitModel,
>
    decreases units.len(),
{
    if units.len() == 0 {
        None
    } else if units.last().name == name {
        Some(units.last())
    } else {
        unit_named(units.drop_last(), name)
    }
}

/// How the timer `desired` that the table declares under `name` stands to
/// the units that exist.
pub open spec fn timer_status(
    units: Seq<ParsedUnitModel>,
    name: Seq<char>,
    desired: TimerModel,
) -> DiffStatus {
    match unit_named(units, name) {
        None => DiffStatus::Added,
        Some(current) => if timer_agrees(current, desired) {
            DiffStatus::Unchanged
        } else {
            DiffStatus::Changed
        },
    }
}

/// How the service `desired` that the table declares under `name` stands to
/// the units that exist.
pub open spec fn service_status(
    units: Seq<ParsedUnitModel>,
    name: Seq<char>,
    desired: ServiceModel,
) -> DiffStatus {
    match unit_named(units, name) {
        None => DiffStatus::Added,
        Some(current) => if service_agrees(current, desired) {
            DiffStatus::Unchanged
        } else {
            DiffStatus::Changed
        },
    }
}

/// One line for each timer of the table, in the order of the table.
pub open spec fn timer_diffs(
    units: Seq<ParsedUnitModel>,
    timers: Seq<(Seq<char>, TimerModel)>,
) -> Seq<DiffModel> {
    Seq::new(
        timers.len(),
        |i: int|
            DiffModel {
                name: timers[i].0,
                unit_type: UnitType::Timer,
                status: timer_status(units, timers[i].0, timers[i].1),
            },
    )
}

/// One line for each service of the table, in the order of the table.
pub open spec fn service_diffs(
    units: Seq<ParsedUnitModel>,
    services: Seq<(Seq<char>, ServiceModel)>,
) -> Seq<DiffModel> {
    Seq::new(
        services.len(),
        |i: int|
            DiffModel {
                name: services[i].0,
                unit_type: UnitType::Service,
                status: service_status(units, services[i].0, services[i].1),
            },
    )
}

/// One line for each unit that the table does not declare, in the order of
/// the units.
pub open spec fn removals(units: Seq<ParsedUnitModel>, table: TableModel) -> Seq<DiffModel>
    decreases units.len(),
{
    if units.len() == 0 {
        Seq::empty()
    } else if table.declares(units.last().name) {
        removals(units.drop_last(), table)
    } else {
        removals(units.drop_last(), table).push(
            DiffModel {
                name: units.last().name,
                unit_type: units.last().unit_type,
                status: DiffStatus::Removed,
            },
        )
    }
}

/// The comparison of the table with the units that exist: the timers of
/// the table, then its services, then the units that it does not declare.
pub open spec fn diff_of(table: TableModel, units: Seq<ParsedUnitModel>) -> Seq<DiffModel> {
    timer_diffs(units, table.timers) + service_diffs(units, table.services) + removals(
        units,
        table,
    )
}

/// The unit with the name `name`: the last of that name.
fn find_unit<'a>(units: &'a Vec<ParsedUnit>, name: &str) -> (r: Option<&'a ParsedUnit>)
    ensures
        match r {
            Some(unit) => unit_named(unit_models(units@), name@) == Some(unit@),
            None => unit_named(unit_models(units@), name@) is None,
        },
{
    let ghost all = unit_models(units@);
    let mut i: usize = units.len();
    assert(all.take(i as int) == all);
    while i > 0
        invariant
            i <= units@.len(),
            all == unit_models(units@),
            unit_named(all, name@) == unit_named(all.take(i as int), name@),
        decreases i,
    {
        assert(all.take(i as int).last() == units@[i - 1]@);
        assert(all.take(i as int).drop_last() == all.take(i as int - 1));
        if same(units[i - 1].name.as_str(), name) {
            return Some(&units[i - 1]);
        }
        i -= 1;
    }
    None
}

fn holds_name<T: View>(entries: &Vec<(String, T)>, name: &str) -> (r: bool)
    ensures
        r == names_of(models_of(entries@)).contains(name@),
{
    let ghost names = names_of(models_of(entries@));
    let mut i: usize = 0;
    while i < entries.len()
        invariant
            i <= entries@.len(),
            names == names_of(models_of(entries@)),
            forall|j: int| 0 <= j < i ==> names[j] != name@,
        decreases entries@.len() - i,
    {
        if same(entries[i].0.as_str(), name) {
            assert(names[i as int] == name@);
            return true;
        }
        i += 1;
    }
    false
}

/// Compares the table with the units that exist.
pub fn diff(file: &Sdtabfile, current: &Vec<ParsedUnit>) -> (entries: Vec<DiffEntry>)
    ensures
        diff_models(entries@) == diff_of(file@, unit_models(current@)),
{
    let ghost units = unit_models(current@);
    let ghost table = file@;
    let mut entries: Vec<DiffEntry> = Vec::new();

    let mut i: usize = 0;
    while i < file.timers.len()
        invariant
            i <= file.timers@.len(),
            units == unit_models(current@),
            table == file@,
            diff_models(entries@) == timer_diffs(units, table.timers).take(i as int),
        decreases file.timers@.len() - i,
    {
        let name = &file.timers[i].0;
        let desired = &file.timers[i].1;
        let status = match find_unit(current, name.as_str()) {
            None => DiffStatus::Added,
            Some(unit) => if timer_matches(unit, desired) {
                DiffStatus::Unchanged
            } else {
                DiffStatus::Changed
            },
        };
        let ghost before = diff_models(entries@);
        entries.push(DiffEntry { name: copy(name), unit_type: UnitType::Timer, status });
        assert(diff_models(entries@) =~= before.push(timer_diffs(units, table.timers)[i as int]));
        assert(timer_diffs(units, table.timers).take(i as int + 1) =~= timer_diffs(
            units,
            table.timers,
        ).take(i as int).push(timer_diffs(units, table.timers)[i as int]));
        i += 1;
    }
    assert(timer_diffs(units, table.timers).take(file.timers@.len() as int) =~= timer_diffs(
        units,
        table.timers,
    ));

    let ghost head = diff_models(entries@);
    let mut k: usize = 0;
    assert(head + service_diffs(units, table.services).take(0) =~= head);
    while k < file.services.len()
        invariant
            k <= file.services@.len(),
            units == unit_models(current@),
            table == file@,
            diff_models(entries@) == head + service_diffs(units, table.services).take(k as int),
        decreases file.services@.len() - k,
    {
        let name = &file.services[k].0;
        let desired = &file.services[k].1;
        let status = match find_unit(current, name.as_str()) {
            None => DiffStatus::Added,
            Some(unit) => if service_matches(unit, desired) {
                DiffStatus::Unchanged
            } else {
                DiffStatus::Changed
            },
        };
        let ghost before = diff_models(entries@);
        entries.push(DiffEntry { name: copy(name), unit_type: UnitType::Service, status });
        assert(diff_models(entries@) =~= before.push(
            service_diffs(units, table.services)[k as int],
        ));
        assert(head + service_diffs(units, table.services).take(k as int + 1) =~= (head
            + service_diffs(units, table.services).take(k as int)).push(
            service_diffs(units, table.services)[k as int],
        ));
        k += 1;
    }
    assert(service_diffs(units, table.services).take(file.services@.len() as int)
        =~= service_diffs(units, table.services));

    let ghost declared = diff_models(entries@);
    let mut u: usize = 0;
    assert(units.take(0).len() == 0);
    assert(declared + removals(units.take(0), table) =~= declared);
    while u < current.len()
        invariant
            u <= current@.len(),
            units == unit_models(current@),
            table == file@,
            diff_models(entries@) == declared + removals(units.take(u as int), table),
        decreases current@.len() - u,
    {
        let unit = &current[u];
        assert(units.take(u as int + 1).last() == unit@);
        assert(units.take(u as int + 1).drop_last() == units.take(u as int));
        let name = unit.name.as_str();
        if !(holds_name(&file.timers, name) || holds_name(&file.services, name)) {
            let ghost before = diff_models(entries@);
            let ghost line = DiffModel {
                name: unit@.name,
                unit_type: unit@.unit_type,
                status: DiffStatus::Removed,
            };
            entries.push(
                DiffEntry {
                    name: copy(&unit.name),
                    unit_type: unit.unit_type,
                    status: DiffStatus::Removed,
                },
            );
            assert(diff_models(entries@) =~= before.push(line));
            assert(declared + removals(units.take(u as int), table).push(line) =~= (declared
                + removals(units.take(u as int), table)).push(line));
        }
        u += 1;
    }
    assert(units.take(current@.len() as int) == units);
    entries
}

/// How many lines of each status a comparison has.
#[derive(Clone, Copy, Debug, PartialEq, Eq, Structural)]
pub struct Summary {
    pub added: usize,
    pub changed: usize,
    pub unchanged: usize,
    pub removed: usize,
}

/// How many of the lines have the status `status`.
pub open spec fn count(entries: Seq<DiffModel>, status: DiffStatus) -> nat
    decreases entries.len(),
{
    if entries.len() == 0 {
        0
    } else if entries.last().status == status {
        count(entries.drop_last(), status) + 1
    } else {
        count(entries.drop_last(), status)
    }
}

/// No more lines have a status than there are lines.
pub proof fn lemma_count_bound(entries: Seq<DiffModel>, status: DiffStatus)
    ensures
        count(entries, status) <= entries.len(),
    decreases entries.len(),
{
    if entries.len() > 0 {
        lemma_count_bound(entries.drop_last(), status);
    }
}

/// Counts the lines of each status. Units that the table does not declare
/// count only where they are to be removed, that is with `prune`.
pub fn summarize(entries: &Vec<DiffEntry>, prune: bool) -> (summary: Summary)
    ensures
        summary.added == count(diff_models(entries@), DiffStatus::Added),
        summary.changed == count(diff_models(entries@), DiffStatus::Changed),
        summary.unchanged == count(diff_models(entries@), DiffStatus::Unchanged),
        summary.removed == if prune {
            count(diff_models(entries@), DiffStatus::Removed)
        } else {
            0
        },
{
    let ghost all = diff_models(entries@);
    let mut added: usize = 0;
    let mut changed: usize = 0;
    let mut unchanged: usize = 0;
    let mut removed: usize = 0;
    let mut i: usize = 0;
    assert(all.take(0).len() == 0);
    while i < entries.len()
        invariant
            i <= entries@.len(),
            all == diff_models(entries@),
            added == count(all.take(i as int), DiffStatus::Added),
            changed == count(all.take(i as int), DiffStatus::Changed),
            unchanged == count(all.take(i as int), DiffStatus::Unchanged),
            removed == count(all.take(i as int), DiffStatus::Removed),
        decreases entries@.len() - i,
    {
        assert(all.take(i as int + 1).last() == entries@[i as int]@);
        assert(all.take(i as int + 1).drop_last() == all.take(i as int));
        proof {
            lemma_count_bound(all.take(i as int), DiffStatus::Added);
            lemma_count_bound(all.take(i as int), DiffStatus::Changed);
            lemma_count_bound(all.take(i as int), DiffStatus::Unchanged);
            lemma_count_bound(all.take(i as int), DiffStatus::Removed);
        }
        match entries[i].status {
            DiffStatus::Added => {
                added += 1;
            },
            DiffStatus::Changed => {
                changed += 1;
            },
            DiffStatus::Unchanged => {
                unchanged += 1;
            },
            DiffStatus::Removed => {
                removed += 1;
            },
        }
        i += 1;
    }
    assert(all.take(entries@.len() as int) == all);
    Summary {
        added,
        changed,
        unchanged,
        removed: if prune {
            removed
        } else {
            0
        },
    }
}

impl Summary {
    /// Whether nothing is to be added, changed or removed.
    pub fn nothing_to_do(&self) -> (r: bool)
        ensures
            r == (self.added == 0 && self.changed == 0 && self.removed == 0),
    {
        self.added == 0 && self.changed == 0 && self.removed == 0
    }
}

/// What follows a comparison.
#[derive(Clone, Copy, Debug, PartialEq, Eq, Structural)]
pub enum Course {
    /// The counts are reported and nothing is changed.
    DryRun,
    /// Every unit is as declared; nothing is changed.
    NothingToDo,
    /// The lines are gone through and acted on.
    Apply,
}

/// What follows a comparison with the counts `summary`. A dry run only
/// reports, whatever the counts; otherwise the units are changed unless
/// nothing is to be added, changed or removed.
pub open spec fn course_of(summary: Summary, dry_run: bool) -> Course {
    if dry_run {
        Course::DryRun
    } else if summary.added == 0 && summary.changed == 0 && summary.removed == 0 {
        Course::NothingToDo
    } else {
        Course::Apply
    }
}

/// What follows a comparison with the counts `summary`.
pub fn course(summary: &Summary, dry_run: bool) -> (r: Course)
    ensures
        r == course_of(*summary, dry_run),
        dry_run ==> r != Course::Apply,
{
    if dry_run {
        Course::DryRun
    } else if summary.nothing_to_do() {
        Course::NothingToDo
    } else {
        Course::Apply
    }
}

/// What is done about one line of the comparison.
#[derive(Clone, Copy, Debug, PartialEq, Eq, Structural)]
pub enum Action {
    /// Nothing.
    Keep,
    /// The unit is added as declared.
    Add,
    /// The unit is removed and added again as declared.
    Replace,
    /// The unit is removed.
    Remove,
}

/// What is done about a line of the status `status`. A unit that the table
/// does not declare is removed only with `prune`.
pub fn action_for(status: DiffStatus, prune: bool) -> (action: Action)
    ensures
        action == match status {
            DiffStatus::Unchanged => Action::Keep,
            DiffStatus::Changed => Action::Replace,
            DiffStatus::Added => Action::Add,
            DiffStatus::Removed => if prune {
                Action::Remove
            } else {
                Action::Keep
            },
        },
{
    match status {
        DiffStatus::Unchanged => Action::Keep,
        DiffStatus::Changed => Action::Replace,
        DiffStatus::Added => Action::Add,
        DiffStatus::Removed => if prune {
            Action::Remove
        } else {
            Action::Keep
        },
    }
}

/// The options that add the timer `entry` under `name`.
pub fn timer_options(name: &str, entry: &TimerEntry) -> (opts: AddOptions)
    ensures
        opts.schedule@ == entry@.schedule,
        opts.command@ == entry@.command,
        text_of(opts.name) == Some(name@),
        text_of(opts.workdir) == Some(entry@.workdir),
        text_of(opts.description) == entry@.description,
        opts.env_file is None,
        opts.restart is None,
        text_of(opts.memory_max) == entry@.memory_max,
        text_of(opts.cpu_quota) == entry@.cpu_quota,
        text_of(opts.io_weight) == entry@.io_weight,
        text_of(opts.timeout_stop) == entry@.timeout_stop,
        text_of(opts.exec_start_pre) == entry@.exec_start_pre,
        text_of(opts.exec_stop_post) == entry@.exec_stop_post,
        text_of(opts.log_level_max) == entry@.log_level_max,
        text_of(opts.random_delay) == entry@.random_delay,
        texts_of(opts.env@) == entry@.env,
{
    AddOptions {
        schedule: copy(&entry.schedule),
        command: copy(&entry.command),
        name: Some(String::from_str(name)),
        workdir: Some(copy(&entry.workdir)),
        description: copy_text(&entry.description),
        env_file: None,
        restart: None,
        memory_max: copy_text(&entry.memory_max),
        cpu_quota: copy_text(&entry.cpu_quota),
        io_weight: copy_text(&entry.io_weight),
        timeout_stop: copy_text(&entry.timeout_stop),
        exec_start_pre: copy_text(&entry.exec_start_pre),
        exec_stop_post: copy_text(&entry.exec_stop_post),
        log_level_max: copy_text(&entry.log_level_max),
        random_delay: copy_text(&entry.random_delay),
        env: copy_texts(&entry.env),
    }
}

/// The options that add the service `entry` under `name`.
pub fn service_options(name: &str, entry: &ServiceEntry) -> (opts: AddOptions)
    ensures
        opts.schedule@ == "@service"@,
        opts.command@ == entry@.command,
        text_of(opts.name) == Some(name@),
        text_of(opts.workdir) == Some(entry@.workdir),
        text_of(opts.description) == entry@.description,
        text_of(opts.env_file) == entry@.env_file,
        text_of(opts.restart) == entry@.restart,
        text_of(opts.memory_max) == entry@.memory_max,
        text_of(opts.cpu_quota) == entry@.cpu_quota,
        text_of(opts.io_weight) == entry@.io_weight,
        text_of(opts.timeout_stop) == entry@.timeout_stop,
        text_of(opts.exec_start_pre) == entry@.exec_start_pre,
        text_of(opts.exec_stop_post) == entry@.exec_stop_post,
        text_of(opts.log_level_max) == entry@.log_level_max,
        opts.random_delay is None,
        texts_of(opts.env@) == entry@.env,
{
    AddOptions {
        schedule: String::from_str("@service"),
        command: copy(&entry.command),
        name: Some(String::from_str(name)),
        workdir: Some(copy(&entry.workdir)),
        description: copy_text(&entry.description),
        env_file: copy_text(&entry.env_file),
        restart: copy_text(&entry.restart),
        memory_max: copy_text(&entry.memory_max),
        cpu_quota: copy_text(&entry.cpu_quota),
        io_weight: copy_text(&entry.io_weight),
        timeout_stop: copy_text(&entry.timeout_stop),
        exec_start_pre: copy_text(&entry.exec_start_pre),
        exec_stop_post: copy_text(&entry.exec_stop_post),
        log_level_max: copy_text(&entry.log_level_max),
        random_delay: None,
        env: copy_texts(&entry.env),
    }
}

} // verus!
