//! The table that declares the units that exist.

use crate::parse_unit::{unit_models, ParsedUnit, ParsedUnitModel, UnitType};
use crate::sdtabfile::{
    declared_description, description_if_different, Sdtabfile, ServiceEntry, ServiceModel,
    TableModel, TimerEntry, TimerModel,
};
use vstd::prelude::*;

verus! {

/// The timer that declares the unit `unit`. A unit without a trigger
/// expression gets a question mark for one, and the description is left out
/// where it is the command itself.
pub open spec fn timer_of(unit: ParsedUnitModel) -> TimerModel {
    TimerModel {
        schedule: match unit.cron_expr {
            Some(expression) => expression,
            None => "?"@,
        },
        command: unit.command,
        workdir: unit.workdir,
        description: declared_description(unit.description, unit.command),
        memory_max: unit.memory_max,
        cpu_quota: unit.cpu_quota,
        io_weight: unit.io_weight,
        timeout_stop: unit.timeout_stop,
        exec_start_pre: unit.exec_start_pre,
        exec_stop_post: unit.exec_stop_post,
        log_level_max: unit.log_level_max,
        random_delay: unit.random_delay,
        env: unit.env,
    }
}

/// The service that declares the unit `unit`. The description is left out
/// where it is the command itself.
pub open spec fn service_of(unit: ParsedUnitModel) -> ServiceModel {
    ServiceModel {
        command: unit.command,
        workdir: unit.workdir,
        description: declared_description(unit.description, unit.command),
        restart: unit.restart_policy,
        env_file: unit.env_file,
        memory_max: unit.memory_max,
        cpu_quota: unit.cpu_quota,
        io_weight: unit.io_weight,
        timeout_stop: unit.timeout_stop,
        exec_start_pre: unit.exec_start_pre,
        exec_stop_post: unit.exec_stop_post,
        log_level_max: unit.log_level_max,
        env: unit.env,
    }
}

/// The table with the unit `unit` declared in it, as a timer or as a
/// service according to its kind.
pub open spec fn with_unit(table: TableModel, unit: ParsedUnitModel) -> TableModel {
    match unit.unit_type {
        UnitType::Timer => table.with_timer(unit.name, timer_of(unit)),
        UnitType::Service => table.with_service(unit.name, service_of(unit)),
    }
}

/// The table that declares the units `units`, put into it one after the
/// other.
pub open spec fn exported(units: Seq<ParsedUnitModel>) -> TableModel
    decreases units.len(),
{
    if units.len() == 0 {
        TableModel { timers: Seq::empty(), services: Seq::empty() }
    } else {
        with_unit(exported(units.drop_last()), units.last())
    }
}

/// The timer that declares the unit `unit`.
pub fn timer_entry(unit: ParsedUnit) -> (entry: TimerEntry)
    ensures
        entry@ == timer_of(unit@),
{
    let description = description_if_different(unit.description.as_str(), unit.command.as_str());
    let schedule = match unit.cron_expr {
        Some(expression) => expression,
        None => String::from_str("?"),
    };
    TimerEntry {
        schedule,
        command: unit.command,
        workdir: unit.workdir,
        description,
        memory_max: unit.memory_max,
        cpu_quota: unit.cpu_quota,
        io_weight: unit.io_weight,
        timeout_stop: unit.timeout_stop,
        exec_start_pre: unit.exec_start_pre,
        exec_stop_post: unit.exec_stop_post,
        log_level_max: unit.log_level_max,
        random_delay: unit.random_delay,
        env: unit.env,
    }
}

/// The service that declares the unit `unit`.
pub fn service_entry(unit: ParsedUnit) -> (entry: ServiceEntry)
    ensures
        entry@ == service_of(unit@),
{
    let description = description_if_different(unit.description.as_str(), unit.command.as_str());
    ServiceEntry {
        command: unit.command,
        workdir: unit.workdir,
        description,
        restart: unit.restart_policy,
        env_file: unit.env_file,
        memory_max: unit.memory_max,
        cpu_quota: unit.cpu_quota,
        io_weight: unit.io_weight,
        timeout_stop: unit.timeout_stop,
        exec_start_pre: unit.exec_start_pre,
        exec_stop_post: unit.exec_stop_post,
        log_level_max: unit.log_level_max,
        env: unit.env,
    }
}

/// Declares the unit `unit` in `file`, as a timer or as a service according
/// to its kind.
pub fn declare(file: &mut Sdtabfile, unit: ParsedUnit)
    ensures
        final(file)@ == with_unit(old(file)@, unit@),
        old(file)@.well_formed() ==> final(file)@.well_formed(),
{
    let name = String::from_str(unit.name.as_str());
    match unit.unit_type {
        UnitType::Timer => {
            let entry = timer_entry(unit);
            file.insert_timer(name, entry);
        },
        UnitType::Service => {
            let entry = service_entry(unit);
            file.insert_service(name, entry);
        },
    }
}

/// The table that declares the units `units`, with ascending names.
pub fn run(units: Vec<ParsedUnit>) -> (file: Sdtabfile)
    ensures
        file@ == exported(unit_models(units@)),
        file@.well_formed(),
{
    let ghost all = unit_models(units@);
    let mut file = Sdtabfile::new();
    assert(file@.timers =~= Seq::empty() && file@.services =~= Seq::empty());
    assert(all.take(0).len() == 0);
    for unit in it: units
        invariant
            all == unit_models(it.seq()),
            file@ == exported(all.take(it.index() as int)),
            file@.well_formed(),
    {
        assert(all.take(it.index() + 1).last() == unit@);
        assert(all.take(it.index() + 1).drop_last() == all.take(it.index() as int));
        declare(&mut file, unit);
    }
    assert(all.take(all.len() as int) == all);
    file
}

} // verus!
