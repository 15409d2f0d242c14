//! Reading a unit back from the text of its unit files.

use crate::split::{lines, lines_of, views};
use crate::text::{
    chars_of, equal, equals_str, find, has_prefix, occurrence, or_else, slice_text, string_of,
    strip_prefix, text_of, texts_of, trim, trimmed, without_prefix,
};
use vstd::prelude::*;

verus! {

/// What kind of unit a service file belongs to.
#[derive(Clone, Copy, Debug, PartialEq, Eq, Structural)]
pub enum UnitType {
    /// A service that a timer starts.
    Timer,
    /// A service that keeps running.
    Service,
}

impl UnitType {
    /// The word for the kind: `timer` or `service`.
    pub open spec fn word(self) -> Seq<char> {
        match self {
            UnitType::Timer => "timer"@,
            UnitType::Service => "service"@,
        }
    }

    /// The word for the kind: `timer` or `service`.
    pub fn label(&self) -> (r: &'static str)
        ensures
            r@ == self.word(),
    {
        match self {
            UnitType::Timer => "timer",
            UnitType::Service => "service",
        }
    }
}

/// A unit as its unit files describe it.
#[derive(Debug)]
pub struct ParsedUnit {
    pub name: String,
    pub unit_type: UnitType,
    pub command: String,
    pub workdir: String,
    pub description: String,
    pub cron_expr: Option<String>,
    pub restart_policy: Option<String>,
    pub env_file: Option<String>,
    pub memory_max: Option<String>,
    pub cpu_quota: Option<String>,
    pub io_weight: Option<String>,
    pub timeout_stop: Option<String>,
    pub exec_start_pre: Option<String>,
    pub exec_stop_post: Option<String>,
    pub log_level_max: Option<String>,
    pub random_delay: Option<String>,
    pub env: Vec<String>,
}

/// A unit as contracts speak of it.
pub struct ParsedUnitModel {
    pub name: Seq<char>,
    pub unit_type: UnitType,
    pub command: Seq<char>,
    pub workdir: Seq<char>,
    pub description: Seq<char>,
    pub cron_expr: Option<Seq<char>>,
    pub restart_policy: Option<Seq<char>>,
    pub env_file: Option<Seq<char>>,
    pub memory_max: Option<Seq<char>>,
    pub cpu_quota: Option<Seq<char>>,
    pub io_weight: Option<Seq<char>>,
    pub timeout_stop: Option<Seq<char>>,
    pub exec_start_pre: Option<Seq<char>>,
    pub exec_stop_post: Option<Seq<char>>,
    pub log_level_max: Option<Seq<char>>,
    pub random_delay: Option<Seq<char>>,
    pub env: Seq<Seq<char>>,
}

impl View for ParsedUnit {
    type V = ParsedUnitModel;

    open spec fn view(&self) -> ParsedUnitModel {
        ParsedUnitModel {
            name: self.name@,
            unit_type: self.unit_type,
            command: self.command@,
            workdir: self.workdir@,
            description: self.description@,
            cron_expr: text_of(self.cron_expr),
            restart_policy: text_of(self.restart_policy),
            env_file: text_of(self.env_file),
            memory_max: text_of(self.memory_max),
            cpu_quota: text_of(self.cpu_quota),
            io_weight: text_of(self.io_weight),
            timeout_stop: text_of(self.timeout_stop),
            exec_start_pre: text_of(self.exec_start_pre),
            exec_stop_post: text_of(self.exec_stop_post),
            log_level_max: text_of(self.log_level_max),
            random_delay: text_of(self.random_delay),
            env: texts_of(self.env@),
        }
    }
}

/// The units as contracts speak of them.
pub open spec fn unit_models(units: Seq<ParsedUnit>) -> Seq<ParsedUnitModel> {
    Seq::new(units.len(), |i: int| units[i]@)
}

/// The lines of `content`, each without the whitespace around it.
pub open spec fn trimmed_lines(content: Seq<char>) -> Seq<Seq<char>> {
    Seq::new(lines_of(content).len(), |i: int| trimmed(lines_of(content)[i]))
}

/// What follows `key` in the last of the lines that begin with it.
pub open spec fn last_value(lines: Seq<Seq<char>>, key: Seq<char>) -> Option<Seq<char>>
    decreases lines.len(),
{
    if lines.len() == 0 {
        None
    } else {
        match without_prefix(lines.last(), key) {
            Some(value) => Some(value),
            None => last_value(lines.drop_last(), key),
        }
    }
}

/// What follows `key` in each of the lines that begin with it, in their
/// order.
pub open spec fn all_values(lines: Seq<Seq<char>>, key: Seq<char>) -> Seq<Seq<char>>
    decreases lines.len(),
{
    if lines.len() == 0 {
        Seq::empty()
    } else {
        match without_prefix(lines.last(), key) {
            Some(value) => all_values(lines.drop_last(), key).push(value),
            None => all_values(lines.drop_last(), key),
        }
    }
}

/// The kind that the last line that states a kind states; a timer where no
/// line states one.
pub open spec fn stated_type(lines: Seq<Seq<char>>) -> UnitType
    decreases lines.len(),
{
    if lines.len() == 0 {
        UnitType::Timer
    } else if lines.last() == "# sdtab:type=service"@ {
        UnitType::Service
    } else if lines.last() == "# sdtab:type=timer"@ {
        UnitType::Timer
    } else {
        stated_type(lines.drop_last())
    }
}

/// The environment file that `line` sets for the unit, if it sets one. A
/// path after a hyphen is the unit's own unless it is `global`, the file
/// shared by all units.
pub open spec fn env_file_setting(line: Seq<char>, global: Seq<char>) -> Option<Seq<char>> {
    match without_prefix(line, "EnvironmentFile="@) {
        None => None,
        Some(value) => if value.len() > 0 && value[0] == '-' {
            if value.skip(1) != global {
                Some(value.skip(1))
            } else {
                None
            }
        } else {
            Some(value)
        },
    }
}

/// The environment file that the last line that sets one sets.
pub open spec fn env_file_of(lines: Seq<Seq<char>>, global: Seq<char>) -> Option<Seq<char>>
    decreases lines.len(),
{
    if lines.len() == 0 {
        None
    } else {
        match env_file_setting(lines.last(), global) {
            Some(path) => Some(path),
            None => env_file_of(lines.drop_last(), global),
        }
    }
}

/// The description in what follows `Description=[sdtab] `: what stands
/// after the first colon and space, or all of it where there is none.
pub open spec fn description_part(value: Seq<char>) -> Seq<char> {
    let i = occurrence(value, ": "@);
    if 0 <= i < value.len() {
        value.skip(i + 2)
    } else {
        value
    }
}

/// What the service file `service` and, where there is one, the timer file
/// `timer` say of the unit `name`. Each line counts without the whitespace
/// around it, and of several lines that set the same thing the last one
/// counts. The command is the one recorded as entered, and the one that is
/// executed where none is recorded.
pub open spec fn unit_of(
    name: Seq<char>,
    service: Seq<char>,
    timer: Option<Seq<char>>,
    global: Seq<char>,
) -> ParsedUnitModel {
    let lines = trimmed_lines(service);
    ParsedUnitModel {
        name,
        unit_type: stated_type(lines),
        command: match last_value(lines, "# sdtab:command="@) {
            Some(entered) => entered,
            None => or_else(last_value(lines, "ExecStart="@), Seq::empty()),
        },
        workdir: or_else(last_value(lines, "WorkingDirectory="@), Seq::empty()),
        description: match last_value(lines, "Description=[sdtab] "@) {
            Some(value) => description_part(value),
            None => Seq::empty(),
        },
        cron_expr: last_value(lines, "# sdtab:cron="@),
        restart_policy: last_value(lines, "# sdtab:restart="@),
        env_file: env_file_of(lines, global),
        memory_max: last_value(lines, "MemoryMax="@),
        cpu_quota: last_value(lines, "CPUQuota="@),
        io_weight: last_value(lines, "IOWeight="@),
        timeout_stop: last_value(lines, "TimeoutStopSec="@),
        exec_start_pre: last_value(lines, "ExecStartPre="@),
        exec_stop_post: last_value(lines, "ExecStopPost="@),
        log_level_max: last_value(lines, "LogLevelMax="@),
        random_delay: match timer {
            Some(text) => last_value(trimmed_lines(text), "RandomizedDelaySec="@),
            None => None,
        },
        env: all_values(lines, "Environment="@),
    }
}

/// The value of `line` where it begins with `key`, else what `slot` holds.
fn latest<'a>(slot: Option<&'a [char]>, line: &'a [char], key: &str) -> (r: Option<&'a [char]>)
    ensures
        slice_text(r) == match without_prefix(line@, key@) {
            Some(value) => Some(value),
            None => slice_text(slot),
        },
{
    match strip_prefix(line, key) {
        Some(value) => Some(value),
        None => slot,
    }
}

fn own_env_file<'a>(line: &'a [char], global: &[char]) -> (r: Option<&'a [char]>)
    ensures
        slice_text(r) == env_file_setting(line@, global@),
{
    match strip_prefix(line, "EnvironmentFile=") {
        None => None,
        Some(value) => {
            if value.len() > 0 && value[0] == '-' {
                let path = &value[1..value.len()];
                if !equal(path, global) {
                    Some(path)
                } else {
                    None
                }
            } else {
                Some(value)
            }
        },
    }
}

fn description_of<'a>(value: &'a [char]) -> (r: &'a [char])
    ensures
        r@ == description_part(value@),
{
    let pattern = chars_of(": ");
    let n = value.len();
    proof {
        reveal_strlit(": ");
        crate::text::lemma_occurrence(value@, ": "@);
    }
    match find(value, pattern.as_slice()) {
        Some(i) => {
            assert(has_prefix(value@.skip(i as int), ": "@));
            &value[i + 2..n]
        },
        None => value,
    }
}

fn owned(value: Option<&[char]>) -> (r: Option<String>)
    ensures
        text_of(r) == slice_text(value),
{
    match value {
        Some(text) => Some(string_of(text)),
        None => None,
    }
}

fn owned_or_empty(value: Option<&[char]>) -> (r: String)
    ensures
        r@ == or_else(slice_text(value), Seq::empty()),
{
    match value {
        Some(text) => string_of(text),
        None => String::new(),
    }
}

/// The delay that the timer file `timer` sets.
fn random_delay_of(timer: &[char]) -> (r: Option<String>)
    ensures
        text_of(r) == last_value(trimmed_lines(timer@), "RandomizedDelaySec="@),
{
    let raw = lines(timer);
    let ghost all = trimmed_lines(timer@);
    let mut delay: Option<&[char]> = None;
    let mut i: usize = 0;
    assert(all.take(0).len() == 0);
    while i < raw.len()
        invariant
            i <= raw@.len(),
            views(raw@) == lines_of(timer@),
            all == trimmed_lines(timer@),
            slice_text(delay) == last_value(all.take(i as int), "RandomizedDelaySec="@),
        decreases raw@.len() - i,
    {
        let line = trim(raw[i]);
        assert(views(raw@)[i as int] == raw@[i as int]@);
        assert(all.take(i as int + 1).drop_last() == all.take(i as int));
        assert(all.take(i as int + 1).last() == line@);
        delay = latest(delay, line, "RandomizedDelaySec=");
        i += 1;
    }
    assert(all.take(raw@.len() as int) == all);
    owned(delay)
}

/// Reads the unit `name` from the text of its service file and, where it has
/// one, of its timer file. `global_env_path` is the path of the environment
/// file shared by all units, which is not taken for the unit's own.
pub fn parse_service_file(
    name: &str,
    service_content: &str,
    timer_content: Option<&str>,
    global_env_path: &str,
) -> (unit: ParsedUnit)
    ensures
        unit@ == unit_of(
            name@,
            service_content@,
            match timer_content {
                Some(text) => Some(text@),
                None => None,
            },
            global_env_path@,
        ),
{
    let content = chars_of(service_content);
    let global = chars_of(global_env_path);
    let raw = lines(content.as_slice());
    let ghost all = trimmed_lines(service_content@);

    let mut unit_type = UnitType::Timer;
    let mut cron_expr: Option<&[char]> = None;
    let mut command: Option<&[char]> = None;
    let mut entered_command: Option<&[char]> = None;
    let mut workdir: Option<&[char]> = None;
    let mut description: Option<&[char]> = None;
    let mut restart_policy: Option<&[char]> = None;
    let mut env_file: Option<&[char]> = None;
    let mut memory_max: Option<&[char]> = None;
    let mut cpu_quota: Option<&[char]> = None;
    let mut io_weight: Option<&[char]> = None;
    let mut timeout_stop: Option<&[char]> = None;
    let mut exec_start_pre: Option<&[char]> = None;
    let mut exec_stop_post: Option<&[char]> = None;
    let mut log_level_max: Option<&[char]> = None;
    let mut env: Vec<String> = Vec::new();

    let mut i: usize = 0;
    assert(all.take(0).len() == 0);
    assert(texts_of(env@) == Seq::<Seq<char>>::empty());
    while i < raw.len()
        invariant
            i <= raw@.len(),
            content@ == service_content@,
            global@ == global_env_path@,
            views(raw@) == lines_of(content@),
            all == trimmed_lines(service_content@),
            unit_type == stated_type(all.take(i as int)),
            slice_text(cron_expr) == last_value(all.take(i as int), "# sdtab:cron="@),
            slice_text(restart_policy) == last_value(all.take(i as int), "# sdtab:restart="@),
            slice_text(entered_command) == last_value(all.take(i as int), "# sdtab:command="@),
            slice_text(command) == last_value(all.take(i as int), "ExecStart="@),
            slice_text(workdir) == last_value(all.take(i as int), "WorkingDirectory="@),
            slice_text(description) == last_value(all.take(i as int), "Description=[sdtab] "@),
            slice_text(env_file) == env_file_of(all.take(i as int), global@),
            slice_text(memory_max) == last_value(all.take(i as int), "MemoryMax="@),
            slice_text(cpu_quota) == last_value(all.take(i as int), "CPUQuota="@),
            slice_text(io_weight) == last_value(all.take(i as int), "IOWeight="@),
            slice_text(timeout_stop) == last_value(all.take(i as int), "TimeoutStopSec="@),
            slice_text(exec_start_pre) == last_value(all.take(i as int), "ExecStartPre="@),
            slice_text(exec_stop_post) == last_value(all.take(i as int), "ExecStopPost="@),
            slice_text(log_level_max) == last_value(all.take(i as int), "LogLevelMax="@),
            texts_of(env@) == all_values(all.take(i as int), "Environment="@),
        decreases raw@.len() - i,
    {
        let line = trim(raw[i]);
        assert(views(raw@)[i as int] == raw@[i as int]@);
        assert(all.take(i as int + 1).drop_last() == all.take(i as int));
        assert(all.take(i as int + 1).last() == line@);

        if equals_str(line, "# sdtab:type=service") {
            unit_type = UnitType::Service;
        } else if equals_str(line, "# sdtab:type=timer") {
            unit_type = UnitType::Timer;
        }
        cron_expr = latest(cron_expr, line, "# sdtab:cron=");
        restart_policy = latest(restart_policy, line, "# sdtab:restart=");
        entered_command = latest(entered_command, line, "# sdtab:command=");
        command = latest(command, line, "ExecStart=");
        workdir = latest(workdir, line, "WorkingDirectory=");
        description = latest(description, line, "Description=[sdtab] ");
        if let Some(path) = own_env_file(line, global.as_slice()) {
            env_file = Some(path);
        }
        memory_max = latest(memory_max, line, "MemoryMax=");
        cpu_quota = latest(cpu_quota, line, "CPUQuota=");
        io_weight = latest(io_weight, line, "IOWeight=");
        timeout_stop = latest(timeout_stop, line, "TimeoutStopSec=");
        exec_start_pre = latest(exec_start_pre, line, "ExecStartPre=");
        exec_stop_post = latest(exec_stop_post, line, "ExecStopPost=");
        log_level_max = latest(log_level_max, line, "LogLevelMax=");
        if let Some(value) = strip_prefix(line, "Environment=") {
            let ghost before = texts_of(env@);
            env.push(string_of(value));
            assert(texts_of(env@) == before.push(value@));
        }
        i += 1;
    }
    assert(all.take(raw@.len() as int) == all);

    let random_delay = match timer_content {
        Some(text) => {
            let timer = chars_of(text);
            random_delay_of(timer.as_slice())
        },
        None => None,
    };
    let command = match entered_command {
        Some(entered) => string_of(entered),
        None => owned_or_empty(command),
    };
    let description = match description {
        Some(value) => string_of(description_of(value)),
        None => String::new(),
    };
    ParsedUnit {
        name: String::from_str(name),
        unit_type,
        command,
        workdir: owned_or_empty(workdir),
        description,
        cron_expr: owned(cron_expr),
        restart_policy: owned(restart_policy),
        env_file: owned(env_file),
        memory_max: owned(memory_max),
        cpu_quota: owned(cpu_quota),
        io_weight: owned(io_weight),
        timeout_stop: owned(timeout_stop),
        exec_start_pre: owned(exec_start_pre),
        exec_stop_post: owned(exec_stop_post),
        log_level_max: owned(log_level_max),
        random_delay,
        env,
    }
}

} // verus!
