//! The text of unit files, their names, and a name for a unit from its
//! command.

use crate::cron::schedule::{CronSchedule, Trigger, TriggerModel};
use crate::split::{pieces, split, split_whitespace, views, words};
use crate::text::{
    chars_of, equals_str, has_suffix, or_else, push_str, string_of, strip_suffix, text_of,
    trim_start_matches, without_leading,
};
use vstd::prelude::*;

pub use crate::parse_unit::UnitType;

verus! {

/// All that the unit files of one unit are written from.
#[derive(Debug)]
pub struct UnitConfig {
    pub name: String,
    pub command: String,
    pub workdir: String,
    pub description: String,
    pub unit_type: UnitType,
    /// The trigger expression as it is to be shown, for a timer.
    pub cron_expr: Option<String>,
    /// The translated trigger expression, for a timer.
    pub schedule: Option<CronSchedule>,
    pub restart_policy: Option<String>,
    pub env_file: Option<String>,
    pub memory_max: Option<String>,
    pub cpu_quota: Option<String>,
    pub io_weight: Option<String>,
    pub timeout_stop: Option<String>,
    pub exec_start_pre: Option<String>,
    pub exec_stop_post: Option<String>,
    pub log_level_max: Option<String>,
    pub random_delay: Option<String>,
    pub env: Vec<String>,
}

/// The line `<key>=<value>`, or nothing for no value.
pub open spec fn option_line(key: Seq<char>, value: Option<String>) -> Seq<char> {
    match value {
        Some(v) => key + "="@ + v@ + "\n"@,
        None => Seq::empty(),
    }
}

/// One line `Environment=<value>` for each value, in their order.
pub open spec fn environment_lines(values: Seq<String>) -> Seq<char>
    decreases values.len(),
{
    if values.len() == 0 {
        Seq::empty()
    } else {
        environment_lines(values.drop_last()) + "Environment="@ + values.last()@ + "\n"@
    }
}

/// The line that names the environment file shared by all units, which may
/// be missing, or nothing where there is no such file.
pub open spec fn global_env_text(path: Option<Seq<char>>) -> Seq<char> {
    match path {
        Some(p) => "EnvironmentFile=-"@ + p + "\n"@,
        None => Seq::empty(),
    }
}

/// The lines of the options that a unit sets, in a fixed order, and of its
/// environment values after them.
pub open spec fn service_options_text(config: UnitConfig) -> Seq<char> {
    option_line("ExecStartPre"@, config.exec_start_pre) + option_line(
        "ExecStopPost"@,
        config.exec_stop_post,
    ) + option_line("TimeoutStopSec"@, config.timeout_stop) + option_line(
        "MemoryMax"@,
        config.memory_max,
    ) + option_line("CPUQuota"@, config.cpu_quota) + option_line("IOWeight"@, config.io_weight)
        + option_line("LogLevelMax"@, config.log_level_max) + environment_lines(config.env@)
}

/// The service file of a unit that a timer starts.
pub open spec fn service_text(config: UnitConfig, global_env: Option<Seq<char>>) -> Seq<char> {
    "# sdtab:type=timer\n# sdtab:cron="@ + or_else(text_of(config.cron_expr), Seq::empty())
        + "\n[Unit]\nDescription=[sdtab] "@ + config.name@ + ": "@ + config.description@
        + "\n\n[Service]\nType=oneshot\nExecStart="@ + config.command@ + "\nWorkingDirectory="@
        + config.workdir@ + "\n"@ + global_env_text(global_env) + service_options_text(config)
}

/// The service file of a unit that keeps running.
pub open spec fn daemon_service_text(config: UnitConfig, global_env: Option<Seq<char>>) -> Seq<
    char,
> {
    "# sdtab:type=service\n# sdtab:restart="@ + or_else(text_of(config.restart_policy), "always"@)
        + "\n[Unit]\nDescription=[sdtab] "@ + config.name@ + ": "@ + config.description@
        + "\nAfter=network-online.target\n\n[Service]\nType=simple\nExecStart="@ + config.command@
        + "\nWorkingDirectory="@ + config.workdir@ + "\nRestart="@ + or_else(
        text_of(config.restart_policy),
        "always"@,
    ) + "\nRestartSec=5\n"@ + global_env_text(global_env) + option_line(
        "EnvironmentFile"@,
        config.env_file,
    ) + service_options_text(config) + "[Install]\nWantedBy=default.target\n"@
}

/// The line of a timer file that says when the timer fires.
pub open spec fn trigger_line(trigger: TriggerModel) -> Seq<char> {
    match trigger {
        TriggerModel::Calendar(expression) => "OnCalendar="@ + expression,
        TriggerModel::BootDelay(duration) => "OnBootSec="@ + duration,
        TriggerModel::ServiceMarker => Seq::empty(),
    }
}

/// The timer file of a unit with the trigger `trigger`.
pub open spec fn timer_text(config: UnitConfig, trigger: TriggerModel) -> Seq<char> {
    "[Unit]\nDescription=[sdtab] "@ + config.name@ + " timer\n\n[Timer]\n"@ + trigger_line(trigger)
        + "\nPersistent=true\n"@ + option_line("RandomizedDelaySec"@, config.random_delay)
        + "\n[Install]\nWantedBy=timers.target\n"@
}

fn push_option(out: &mut Vec<char>, key: &str, value: &Option<String>)
    ensures
        final(out)@ == old(out)@ + option_line(key@, *value),
{
    match value {
        Some(v) => {
            push_str(out, key);
            push_str(out, "=");
            push_str(out, v.as_str());
            push_str(out, "\n");
        },
        None => {
            assert(old(out)@ + Seq::<char>::empty() == old(out)@);
        },
    }
}

fn push_or(out: &mut Vec<char>, value: &Option<String>, default: &str)
    ensures
        final(out)@ == old(out)@ + or_else(text_of(*value), default@),
{
    match value {
        Some(v) => push_str(out, v.as_str()),
        None => push_str(out, default),
    }
}

/// The line that names the environment file shared by all units.
fn global_env_line(out: &mut Vec<char>, path: Option<&str>)
    ensures
        final(out)@ == old(out)@ + global_env_text(
            match path {
                Some(p) => Some(p@),
                None => None,
            },
        ),
{
    match path {
        Some(p) => {
            push_str(out, "EnvironmentFile=-");
            push_str(out, p);
            push_str(out, "\n");
        },
        None => {
            assert(old(out)@ + Seq::<char>::empty() == old(out)@);
        },
    }
}

/// The lines of the options that a unit sets.
fn generate_service_options(out: &mut Vec<char>, config: &UnitConfig)
    ensures
        final(out)@ == old(out)@ + service_options_text(*config),
{
    push_option(out, "ExecStartPre", &config.exec_start_pre);
    push_option(out, "ExecStopPost", &config.exec_stop_post);
    push_option(out, "TimeoutStopSec", &config.timeout_stop);
    push_option(out, "MemoryMax", &config.memory_max);
    push_option(out, "CPUQuota", &config.cpu_quota);
    push_option(out, "IOWeight", &config.io_weight);
    push_option(out, "LogLevelMax", &config.log_level_max);
    let ghost head = out@;
    let mut i: usize = 0;
    assert(config.env@.take(0).len() == 0);
    assert(head + Seq::<char>::empty() == head);
    while i < config.env.len()
        invariant
            i <= config.env@.len(),
            out@ == head + environment_lines(config.env@.take(i as int)),
        decreases config.env@.len() - i,
    {
        assert(config.env@.take(i as int + 1).drop_last() == config.env@.take(i as int));
        assert(config.env@.take(i as int + 1).last() == config.env@[i as int]);
        push_str(out, "Environment=");
        push_str(out, config.env[i].as_str());
        push_str(out, "\n");
        i += 1;
    }
    assert(config.env@.take(config.env@.len() as int) == config.env@);
}

/// The service file of a unit that a timer starts. `global_env` is the path
/// of the environment file shared by all units, where there is one.
pub fn generate_service(config: &UnitConfig, global_env: Option<&str>) -> (text: String)
    ensures
        text@ == service_text(
            *config,
            match global_env {
                Some(p) => Some(p@),
                None => None,
            },
        ),
{
    let mut out: Vec<char> = Vec::new();
    push_str(&mut out, "# sdtab:type=timer\n# sdtab:cron=");
    push_or(&mut out, &config.cron_expr, "");
    push_str(&mut out, "\n[Unit]\nDescription=[sdtab] ");
    push_str(&mut out, config.name.as_str());
    push_str(&mut out, ": ");
    push_str(&mut out, config.description.as_str());
    push_str(&mut out, "\n\n[Service]\nType=oneshot\nExecStart=");
    push_str(&mut out, config.command.as_str());
    push_str(&mut out, "\nWorkingDirectory=");
    push_str(&mut out, config.workdir.as_str());
    push_str(&mut out, "\n");
    global_env_line(&mut out, global_env);
    generate_service_options(&mut out, config);
    proof {
        reveal_strlit("");
        assert(""@ == Seq::<char>::empty());
    }
    string_of(out.as_slice())
}

/// The service file of a unit that keeps running. `global_env` is the path
/// of the environment file shared by all units, where there is one.
pub fn generate_daemon_service(config: &UnitConfig, global_env: Option<&str>) -> (text: String)
    ensures
        text@ == daemon_service_text(
            *config,
            match global_env {
                Some(p) => Some(p@),
                None => None,
            },
        ),
{
    let mut out: Vec<char> = Vec::new();
    push_str(&mut out, "# sdtab:type=service\n# sdtab:restart=");
    push_or(&mut out, &config.restart_policy, "always");
    push_str(&mut out, "\n[Unit]\nDescription=[sdtab] ");
    push_str(&mut out, config.name.as_str());
    push_str(&mut out, ": ");
    push_str(&mut out, config.description.as_str());
    push_str(&mut out, "\nAfter=network-online.target\n\n[Service]\nType=simple\nExecStart=");
    push_str(&mut out, config.command.as_str());
    push_str(&mut out, "\nWorkingDirectory=");
    push_str(&mut out, config.workdir.as_str());
    push_str(&mut out, "\nRestart=");
    push_or(&mut out, &config.restart_policy, "always");
    push_str(&mut out, "\nRestartSec=5\n");
    global_env_line(&mut out, global_env);
    push_option(&mut out, "EnvironmentFile", &config.env_file);
    generate_service_options(&mut out, config);
    push_str(&mut out, "[Install]\nWantedBy=default.target\n");
    string_of(out.as_slice())
}

/// Whether the unit has a schedule that a timer can fire on.
pub open spec fn has_timer_trigger(config: UnitConfig) -> bool {
    config.schedule is Some && !(config.schedule->0@.trigger is ServiceMarker)
}

/// The timer file of a unit. The unit must have a schedule, and one that is
/// a calendar expression or a delay after boot.
pub fn generate_timer(config: &UnitConfig) -> (text: String)
    requires
        has_timer_trigger(*config),
    ensures
        text@ == timer_text(*config, config.schedule->0@.trigger),
{
    let mut out: Vec<char> = Vec::new();
    push_str(&mut out, "[Unit]\nDescription=[sdtab] ");
    push_str(&mut out, config.name.as_str());
    push_str(&mut out, " timer\n\n[Timer]\n");
    match &config.schedule {
        Some(schedule) => match &schedule.trigger {
            Trigger::Calendar(expression) => {
                push_str(&mut out, "OnCalendar=");
                push_str(&mut out, expression.as_str());
            },
            Trigger::BootDelay(duration) => {
                push_str(&mut out, "OnBootSec=");
                push_str(&mut out, duration.as_str());
            },
            Trigger::ServiceMarker => {},
        },
        None => {},
    }
    push_str(&mut out, "\nPersistent=true\n");
    push_option(&mut out, "RandomizedDelaySec", &config.random_delay);
    push_str(&mut out, "\n[Install]\nWantedBy=timers.target\n");
    string_of(out.as_slice())
}

/// The name of the service file of the unit `name`.
pub fn service_filename(name: &str) -> (file: String)
    ensures
        file@ == "sdtab-"@ + name@ + ".service"@,
{
    let mut out: Vec<char> = Vec::new();
    push_str(&mut out, "sdtab-");
    push_str(&mut out, name);
    push_str(&mut out, ".service");
    string_of(out.as_slice())
}

/// The name of the timer file of the unit `name`.
pub fn timer_filename(name: &str) -> (file: String)
    ensures
        file@ == "sdtab-"@ + name@ + ".timer"@,
{
    let mut out: Vec<char> = Vec::new();
    push_str(&mut out, "sdtab-");
    push_str(&mut out, name);
    push_str(&mut out, ".timer");
    string_of(out.as_slice())
}

/// What follows the last slash of `path`; all of it where it holds none.
pub open spec fn basename(path: Seq<char>) -> Seq<char> {
    pieces(path, '/').last()
}

/// Whether `program` is one of the programs that run a script given as
/// their argument.
pub open spec fn is_runner(program: Seq<char>) -> bool {
    ||| program == "python"@
    ||| program == "python3"@
    ||| program == "uv"@
    ||| program == "node"@
    ||| program == "bash"@
    ||| program == "sh"@
    ||| program == "ruby"@
    ||| program == "perl"@
}

/// The word of a command that names what is run. That is the first word;
/// but after a runner it is the second, and after `uv run` the third.
pub open spec fn candidate(parts: Seq<Seq<char>>) -> Seq<char> {
    if parts.len() >= 2 && is_runner(basename(parts[0])) {
        if basename(parts[0]) == "uv"@ && parts.len() >= 3 && parts[1] == "run"@ {
            parts[2]
        } else {
            parts[1]
        }
    } else {
        parts[0]
    }
}

/// `file` without the ending of a script: `.py`, `.sh`, `.rb`, `.js` or
/// `.ts`.
pub open spec fn without_extension(file: Seq<char>) -> Seq<char> {
    if has_suffix(file, ".py"@) || has_suffix(file, ".sh"@) || has_suffix(file, ".rb"@)
        || has_suffix(file, ".js"@) || has_suffix(file, ".ts"@) {
        file.take(file.len() - 3)
    } else {
        file
    }
}

/// The name that a unit gets from its command: the file name of what is
/// run, without the ending of a script and without dots and then hyphens at
/// its beginning; `task` where nothing is left.
pub open spec fn derived_name(command: Seq<char>) -> Seq<char> {
    let stem = without_extension(basename(candidate(words(command))));
    let name = without_leading(without_leading(stem, '.'), '-');
    if name.len() == 0 {
        "task"@
    } else {
        name
    }
}

fn last_segment<'a>(path: &'a [char]) -> (r: &'a [char])
    ensures
        r@ == basename(path@),
{
    let parts = split(path, '/');
    let last = parts[parts.len() - 1];
    assert(views(parts@).last() == last@);
    last
}

fn runs_script(program: &[char]) -> (r: bool)
    ensures
        r == is_runner(program@),
{
    equals_str(program, "python") || equals_str(program, "python3") || equals_str(program, "uv")
        || equals_str(program, "node") || equals_str(program, "bash") || equals_str(program, "sh")
        || equals_str(program, "ruby") || equals_str(program, "perl")
}

fn strip_extension<'a>(file: &'a [char]) -> (r: &'a [char])
    ensures
        r@ == without_extension(file@),
{
    proof {
        reveal_strlit(".py");
        reveal_strlit(".sh");
        reveal_strlit(".rb");
        reveal_strlit(".js");
        reveal_strlit(".ts");
    }
    if let Some(stem) = strip_suffix(file, ".py") {
        return stem;
    }
    if let Some(stem) = strip_suffix(file, ".sh") {
        return stem;
    }
    if let Some(stem) = strip_suffix(file, ".rb") {
        return stem;
    }
    if let Some(stem) = strip_suffix(file, ".js") {
        return stem;
    }
    if let Some(stem) = strip_suffix(file, ".ts") {
        return stem;
    }
    file
}

/// A name for a unit from its command, which must hold a character that is
/// no whitespace: `uv run ./report.py` gives `report`, `python script.py`
/// gives `script`, `./my-tool --flag` gives `my-tool`.
pub fn derive_name(command: &str) -> (name: String)
    requires
        words(command@).len() > 0,
    ensures
        name@ == derived_name(command@),
{
    let chars = chars_of(command);
    let parts = split_whitespace(chars.as_slice());
    let ghost all = views(parts@);
    assert(all[0] == parts@[0]@);
    let mut chosen: &[char] = parts[0];
    if parts.len() >= 2 {
        assert(all[1] == parts@[1]@);
        let first = last_segment(parts[0]);
        if runs_script(first) {
            if equals_str(first, "uv") && parts.len() >= 3 && equals_str(parts[1], "run") {
                assert(all[2] == parts@[2]@);
                chosen = parts[2];
            } else {
                chosen = parts[1];
            }
        }
    }
    let file = last_segment(chosen);
    let stem = strip_extension(file);
    let name = trim_start_matches(trim_start_matches(stem, '.'), '-');
    if name.len() == 0 {
        String::from_str("task")
    } else {
        string_of(name)
    }
}

} // verus!
