//! Adding a unit: what the options ask for, and the unit's configuration.

use crate::cron::error::{ErrorModel, ParseError};
use crate::cron::schedule::{CronSchedule, ScheduleModel};
use crate::cron::{parse, parsed};
use crate::parse_unit::UnitType;
use crate::split::words;
use crate::text::{push_str, same, string_of, text_of};
use crate::unit::{derive_name, derived_name, UnitConfig};
use vstd::prelude::*;

verus! {

/// What a unit is added from.
#[derive(Debug)]
pub struct AddOptions {
    /// The trigger expression.
    pub schedule: String,
    /// The command to execute.
    pub command: String,
    /// The name of the unit; it is made from the command where none is
    /// given.
    pub name: Option<String>,
    /// The working directory; the current one where none is given.
    pub workdir: Option<String>,
    pub description: Option<String>,
    /// The environment file of a service.
    pub env_file: Option<String>,
    /// The restart policy of a service: `always`, `on-failure` or `no`.
    pub restart: Option<String>,
    pub memory_max: Option<String>,
    pub cpu_quota: Option<String>,
    pub io_weight: Option<String>,
    pub timeout_stop: Option<String>,
    pub exec_start_pre: Option<String>,
    pub exec_stop_post: Option<String>,
    pub log_level_max: Option<String>,
    /// The random delay of a timer.
    pub random_delay: Option<String>,
    pub env: Vec<String>,
}

/// Why the options cannot be followed.
#[derive(Debug, PartialEq, Eq)]
pub enum AddError {
    /// The trigger expression was refused.
    Schedule(ParseError),
    /// The restart policy of a service is none of the three.
    InvalidRestart { policy: String },
}

impl AddError {
    /// The text that describes the failure to a person.
    pub fn message(&self) -> (text: String)
        ensures
            text@ == match self {
                AddError::Schedule(e) => e@.message(),
                AddError::InvalidRestart { policy } => "Invalid restart policy '"@ + policy@
                    + "'. Must be one of: always, on-failure, no"@,
            },
    {
        match self {
            AddError::Schedule(e) => e.message(),
            AddError::InvalidRestart { policy } => {
                let mut out: Vec<char> = Vec::new();
                push_str(&mut out, "Invalid restart policy '");
                push_str(&mut out, policy.as_str());
                push_str(&mut out, "'. Must be one of: always, on-failure, no");
                string_of(out.as_slice())
            },
        }
    }
}

/// What is to be added: a service, or a timer with its schedule.
#[derive(Debug)]
pub struct Request {
    pub unit_type: UnitType,
    /// The schedule of a timer; a service has none.
    pub schedule: Option<CronSchedule>,
}

/// Whether `policy` is one of the three restart policies.
pub open spec fn is_restart_policy(policy: Seq<char>) -> bool {
    policy == "always"@ || policy == "on-failure"@ || policy == "no"@
}

/// The name under which the unit is added: the one given, or the one made
/// from the command.
pub open spec fn chosen_name(opts: AddOptions) -> Seq<char> {
    match opts.name {
        Some(name) => name@,
        None => derived_name(opts.command@),
    }
}

/// The schedule of an optional schedule as contracts speak of it.
pub open spec fn schedule_of(schedule: Option<CronSchedule>) -> Option<ScheduleModel> {
    match schedule {
        Some(s) => Some(s@),
        None => None,
    }
}

/// A request as contracts speak of it.
pub struct RequestModel {
    pub unit_type: UnitType,
    pub schedule: Option<ScheduleModel>,
}

impl View for Request {
    type V = RequestModel;

    open spec fn view(&self) -> RequestModel {
        RequestModel { unit_type: self.unit_type, schedule: schedule_of(self.schedule) }
    }
}

/// A failure as contracts speak of it.
pub enum AddErrorModel {
    Schedule(ErrorModel),
    InvalidRestart { policy: Seq<char> },
}

impl View for AddError {
    type V = AddErrorModel;

    open spec fn view(&self) -> AddErrorModel {
        match self {
            AddError::Schedule(e) => AddErrorModel::Schedule(e@),
            AddError::InvalidRestart { policy } => AddErrorModel::InvalidRestart {
                policy: policy@,
            },
        }
    }
}

/// What the options ask for.
///
/// The trigger expression is translated first, and its failure is the
/// failure of the whole. `@service` asks for a service, whose restart
/// policy, where one is given, must be one of the three; anything else asks
/// for a timer with the translated schedule.
pub open spec fn requested(opts: AddOptions) -> Result<RequestModel, AddErrorModel> {
    match parsed(opts.schedule@) {
        Err(e) => Err(AddErrorModel::Schedule(e)),
        Ok(schedule) => if schedule.trigger is ServiceMarker {
            if opts.restart is Some && !is_restart_policy(opts.restart->0@) {
                Err(AddErrorModel::InvalidRestart { policy: opts.restart->0@ })
            } else {
                Ok(RequestModel { unit_type: UnitType::Service, schedule: None })
            }
        } else {
            Ok(RequestModel { unit_type: UnitType::Timer, schedule: Some(schedule) })
        },
    }
}

/// What the options ask for: a service or a timer, or the reason why they
/// ask for neither. The name of the unit is chosen after that, by
/// `unit_name`.
pub fn run(opts: &AddOptions) -> (r: Result<Request, AddError>)
    ensures
        r matches Ok(request) ==> requested(*opts) == Ok::<RequestModel, AddErrorModel>(request@),
        r matches Err(e) ==> requested(*opts) == Err::<RequestModel, AddErrorModel>(e@),
{
    let schedule = match parse(opts.schedule.as_str()) {
        Ok(schedule) => schedule,
        Err(e) => {
            return Err(AddError::Schedule(e));
        },
    };
    if schedule.is_service() {
        if let Some(policy) = &opts.restart {
            let text = policy.as_str();
            if !(same(text, "always") || same(text, "on-failure") || same(text, "no")) {
                return Err(AddError::InvalidRestart { policy: policy.clone() });
            }
        }
        Ok(Request { unit_type: UnitType::Service, schedule: None })
    } else {
        Ok(Request { unit_type: UnitType::Timer, schedule: Some(schedule) })
    }
}

/// The name under which the unit is added: the one given, or the one made
/// from the command, which must then hold a character that is no
/// whitespace.
pub fn unit_name(opts: &AddOptions) -> (name: String)
    requires
        opts.name is Some || words(opts.command@).len() > 0,
    ensures
        name@ == chosen_name(*opts),
{
    match &opts.name {
        Some(name) => name.clone(),
        None => derive_name(opts.command.as_str()),
    }
}

/// The trigger expression as the unit file records it: the display form of
/// the schedule, or the expression as it was entered where the schedule has
/// none.
pub open spec fn recorded_schedule(entered: Seq<char>, schedule: ScheduleModel) -> Seq<char> {
    match schedule.display {
        Some(display) => display,
        None => entered,
    }
}

/// The description of the unit: the one given, or the command as it was
/// entered.
pub open spec fn described(opts: AddOptions) -> Seq<char> {
    match opts.description {
        Some(text) => text@,
        None => opts.command@,
    }
}

fn description_of(description: Option<String>, command: &String) -> (r: String)
    ensures
        r@ == match description {
            Some(text) => text@,
            None => command@,
        },
{
    match description {
        Some(text) => text,
        None => command.clone(),
    }
}

/// The configuration of the timer `name` with the schedule `schedule`, the
/// working directory `workdir` and the command `command`, which is the one
/// entered with its program found.
pub fn timer_config(
    opts: AddOptions,
    name: String,
    schedule: CronSchedule,
    workdir: String,
    command: String,
) -> (config: UnitConfig)
    ensures
        config.name == name,
        config.command == command,
        config.workdir == workdir,
        config.description@ == described(opts),
        config.unit_type == UnitType::Timer,
        text_of(config.cron_expr) == Some(recorded_schedule(opts.schedule@, schedule@)),
        config.schedule == Some(schedule),
        config.restart_policy is None,
        config.env_file is None,
        config.memory_max == opts.memory_max,
        config.cpu_quota == opts.cpu_quota,
        config.io_weight == opts.io_weight,
        config.timeout_stop == opts.timeout_stop,
        config.exec_start_pre == opts.exec_start_pre,
        config.exec_stop_post == opts.exec_stop_post,
        config.log_level_max == opts.log_level_max,
        config.random_delay == opts.random_delay,
        config.env == opts.env,
{
    let description = description_of(opts.description, &opts.command);
    let recorded = match &schedule.display {
        Some(display) => display.clone(),
        None => opts.schedule,
    };
    UnitConfig {
        name,
        command,
        workdir,
        description,
        unit_type: UnitType::Timer,
        cron_expr: Some(recorded),
        schedule: Some(schedule),
        restart_policy: None,
        env_file: None,
        memory_max: opts.memory_max,
        cpu_quota: opts.cpu_quota,
        io_weight: opts.io_weight,
        timeout_stop: opts.timeout_stop,
        exec_start_pre: opts.exec_start_pre,
        exec_stop_post: opts.exec_stop_post,
        log_level_max: opts.log_level_max,
        random_delay: opts.random_delay,
        env: opts.env,
    }
}

/// The configuration of the service `name` with the working directory
/// `workdir` and the command `command`, which is the one entered with its
/// program found.
pub fn service_config(opts: AddOptions, name: String, workdir: String, command: String) -> (config:
    UnitConfig)
    ensures
        config.name == name,
        config.command == command,
        config.workdir == workdir,
        config.description@ == described(opts),
        config.unit_type == UnitType::Service,
        config.cron_expr is None,
        config.schedule is None,
        config.restart_policy == opts.restart,
        config.env_file == opts.env_file,
        config.memory_max == opts.memory_max,
        config.cpu_quota == opts.cpu_quota,
        config.io_weight == opts.io_weight,
        config.timeout_stop == opts.timeout_stop,
        config.exec_start_pre == opts.exec_start_pre,
        config.exec_stop_post == opts.exec_stop_post,
        config.log_level_max == opts.log_level_max,
        config.random_delay is None,
        config.env == opts.env,
{
    let description = description_of(opts.description, &opts.command);
    UnitConfig {
        name,
        command,
        workdir,
        description,
        unit_type: UnitType::Service,
        cron_expr: None,
        schedule: None,
        restart_policy: opts.restart,
        env_file: opts.env_file,
        memory_max: opts.memory_max,
        cpu_quota: opts.cpu_quota,
        io_weight: opts.io_weight,
        timeout_stop: opts.timeout_stop,
        exec_start_pre: opts.exec_start_pre,
        exec_stop_post: opts.exec_stop_post,
        log_level_max: opts.log_level_max,
        random_delay: None,
        env: opts.env,
    }
}

} // verus!
