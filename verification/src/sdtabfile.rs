//! The table of timers and services that a file declares.

use crate::text::{
    chars_of, equal, lemma_precedes_total, lemma_precedes_transitive, less, precedes, same,
    same_text, text_of, texts_of,
};
use vstd::prelude::*;

verus! {

/// A timer as the table declares it.
#[derive(Debug)]
pub struct TimerEntry {
    pub schedule: String,
    pub command: String,
    pub workdir: String,
    pub description: Option<String>,
    pub memory_max: Option<String>,
    pub cpu_quota: Option<String>,
    pub io_weight: Option<String>,
    pub timeout_stop: Option<String>,
    pub exec_start_pre: Option<String>,
    pub exec_stop_post: Option<String>,
    pub log_level_max: Option<String>,
    pub random_delay: Option<String>,
    pub env: Vec<String>,
}

/// A timer of the table as contracts speak of it.
pub struct TimerModel {
    pub schedule: Seq<char>,
    pub command: Seq<char>,
    pub workdir: Seq<char>,
    pub description: Option<Seq<char>>,
    pub memory_max: Option<Seq<char>>,
    pub cpu_quota: Option<Seq<char>>,
    pub io_weight: Option<Seq<char>>,
    pub timeout_stop: Option<Seq<char>>,
    pub exec_start_pre: Option<Seq<char>>,
    pub exec_stop_post: Option<Seq<char>>,
    pub log_level_max: Option<Seq<char>>,
    pub random_delay: Option<Seq<char>>,
    pub env: Seq<Seq<char>>,
}

impl View for TimerEntry {
    type V = TimerModel;

    open spec fn view(&self) -> TimerModel {
        TimerModel {
            schedule: self.schedule@,
            command: self.command@,
            workdir: self.workdir@,
            description: text_of(self.description),
            memory_max: text_of(self.memory_max),
            cpu_quota: text_of(self.cpu_quota),
            io_weight: text_of(self.io_weight),
            timeout_stop: text_of(self.timeout_stop),
            exec_start_pre: text_of(self.exec_start_pre),
            exec_stop_post: text_of(self.exec_stop_post),
            log_level_max: text_of(self.log_level_max),
            random_delay: text_of(self.random_delay),
            env: texts_of(self.env@),
        }
    }
}

/// A service as the table declares it.
#[derive(Debug)]
pub struct ServiceEntry {
    pub command: String,
    pub workdir: String,
    pub description: Option<String>,
    pub restart: Option<String>,
    pub env_file: Option<String>,
    pub memory_max: Option<String>,
    pub cpu_quota: Option<String>,
    pub io_weight: Option<String>,
    pub timeout_stop: Option<String>,
    pub exec_start_pre: Option<String>,
    pub exec_stop_post: Option<String>,
    pub log_level_max: Option<String>,
    pub env: Vec<String>,
}

/// A service of the table as contracts speak of it.
pub struct ServiceModel {
    pub command: Seq<char>,
    pub workdir: Seq<char>,
    pub description: Option<Seq<char>>,
    pub restart: Option<Seq<char>>,
    pub env_file: Option<Seq<char>>,
    pub memory_max: Option<Seq<char>>,
    pub cpu_quota: Option<Seq<char>>,
    pub io_weight: Option<Seq<char>>,
    pub timeout_stop: Option<Seq<char>>,
    pub exec_start_pre: Option<Seq<char>>,
    pub exec_stop_post: Option<Seq<char>>,
    pub log_level_max: Option<Seq<char>>,
    pub env: Seq<Seq<char>>,
}

impl View for ServiceEntry {
    type V = ServiceModel;

    open spec fn view(&self) -> ServiceModel {
        ServiceModel {
            command: self.command@,
            workdir: self.workdir@,
            description: text_of(self.description),
            restart: text_of(self.restart),
            env_file: text_of(self.env_file),
            memory_max: text_of(self.memory_max),
            cpu_quota: text_of(self.cpu_quota),
            io_weight: text_of(self.io_weight),
            timeout_stop: text_of(self.timeout_stop),
            exec_start_pre: text_of(self.exec_start_pre),
            exec_stop_post: text_of(self.exec_stop_post),
            log_level_max: text_of(self.log_level_max),
            env: texts_of(self.env@),
        }
    }
}

/// The timers and services that a file declares, each under its name. In a
/// table that is well formed the names of the timers ascend in the order of
/// strings, and so do the names of the services: no name occurs twice among
/// the timers or twice among the services.
#[derive(Debug)]
pub struct Sdtabfile {
    pub timers: Vec<(String, TimerEntry)>,
    pub services: Vec<(String, ServiceEntry)>,
}

/// The table as contracts speak of it: each entry with its name before it.
pub struct TableModel {
    pub timers: Seq<(Seq<char>, TimerModel)>,
    pub services: Seq<(Seq<char>, ServiceModel)>,
}

/// The entries as contracts speak of them, each with its name before it.
pub open spec fn models_of<T: View>(entries: Seq<(String, T)>) -> Seq<(Seq<char>, T::V)> {
    Seq::new(entries.len(), |i: int| (entries[i].0@, entries[i].1@))
}

impl View for Sdtabfile {
    type V = TableModel;

    open spec fn view(&self) -> TableModel {
        TableModel { timers: models_of(self.timers@), services: models_of(self.services@) }
    }
}

/// The names under which the entries stand, in their order.
pub open spec fn names_of<M>(entries: Seq<(Seq<char>, M)>) -> Seq<Seq<char>> {
    Seq::new(entries.len(), |i: int| entries[i].0)
}

/// Whether each name comes before the next in the order of strings.
pub open spec fn ascending(names: Seq<Seq<char>>) -> bool {
    forall|i: int, j: int| 0 <= i < j < names.len() ==> precedes(names[i], names[j])
}

/// How many names at the beginning of `names` come before `name`.
pub open spec fn rank(names: Seq<Seq<char>>, name: Seq<char>) -> int
    decreases names.len(),
{
    if names.len() == 0 || !precedes(names[0], name) {
        0
    } else {
        1 + rank(names.drop_first(), name)
    }
}

/// The entries with `entry` under `name`: in place of the entry that stands
/// under that name, or, where there is none, after the names that come
/// before `name`.
pub open spec fn with_entry<M>(entries: Seq<(Seq<char>, M)>, name: Seq<char>, entry: M) -> Seq<
    (Seq<char>, M),
> {
    let at = rank(names_of(entries), name);
    if 0 <= at < entries.len() && entries[at].0 == name {
        entries.update(at, (name, entry))
    } else {
        entries.insert(at, (name, entry))
    }
}

impl TableModel {
    /// Whether the names of the timers ascend, and those of the services.
    pub open spec fn well_formed(self) -> bool {
        ascending(names_of(self.timers)) && ascending(names_of(self.services))
    }

    /// Whether the table declares a timer or a service under `name`.
    pub open spec fn declares(self, name: Seq<char>) -> bool {
        names_of(self.timers).contains(name) || names_of(self.services).contains(name)
    }

    /// The table with the timer `entry` under `name`.
    pub open spec fn with_timer(self, name: Seq<char>, entry: TimerModel) -> TableModel {
        TableModel { timers: with_entry(self.timers, name, entry), services: self.services }
    }

    /// The table with the service `entry` under `name`.
    pub open spec fn with_service(self, name: Seq<char>, entry: ServiceModel) -> TableModel {
        TableModel { timers: self.timers, services: with_entry(self.services, name, entry) }
    }
}

/// The rank is a place in the sequence or its end; the names before it come
/// before `name`, and the name at it does not.
pub proof fn lemma_rank(names: Seq<Seq<char>>, name: Seq<char>)
    ensures
        0 <= rank(names, name) <= names.len(),
        forall|j: int| 0 <= j < rank(names, name) ==> precedes(#[trigger] names[j], name),
        rank(names, name) < names.len() ==> !precedes(names[rank(names, name)], name),
    decreases names.len(),
{
    if names.len() == 0 || !precedes(names[0], name) {
    } else {
        let rest = names.drop_first();
        lemma_rank(rest, name);
        assert forall|j: int| 0 <= j < rank(names, name) implies precedes(
            #[trigger] names[j],
            name,
        ) by {
            if j > 0 {
                assert(names[j] == rest[j - 1]);
            }
        }
    }
}

/// Putting an entry into entries whose names ascend leaves the names
/// ascending.
pub proof fn lemma_with_entry_ascending<M>(entries: Seq<(Seq<char>, M)>, name: Seq<char>, entry: M)
    requires
        ascending(names_of(entries)),
    ensures
        ascending(names_of(with_entry(entries, name, entry))),
{
    let names = names_of(entries);
    let at = rank(names, name);
    lemma_rank(names, name);
    let after = names_of(with_entry(entries, name, entry));
    if 0 <= at < entries.len() && entries[at].0 == name {
        assert(after =~= names);
    } else {
        assert forall|i: int, j: int| 0 <= i < j < after.len() implies precedes(
            after[i],
            after[j],
        ) by {
            if j < at {
                assert(after[i] == names[i] && after[j] == names[j]);
            } else if j == at {
                assert(after[i] == names[i]);
                assert(after[j] == name);
            } else {
                assert(after[j] == names[j - 1]);
                if at < names.len() {
                    lemma_precedes_total(names[at], name);
                    if j - 1 > at {
                        lemma_precedes_transitive(name, names[at], names[j - 1]);
                    }
                }
                if i < at {
                    assert(after[i] == names[i]);
                } else if i == at {
                    assert(after[i] == name);
                } else {
                    assert(after[i] == names[i - 1]);
                }
            }
        }
    }
}

/// Puts `entry` under `name` into `entries`.
fn insert_sorted<T: View>(entries: &mut Vec<(String, T)>, name: String, entry: T)
    ensures
        models_of(final(entries)@) == with_entry(models_of(old(entries)@), name@, entry@),
{
    let key = chars_of(name.as_str());
    let ghost before = models_of(entries@);
    let ghost names = names_of(before);
    let mut at: usize = 0;
    assert(names.skip(0) == names);
    while at < entries.len()
        invariant
            at <= entries@.len(),
            entries@ == old(entries)@,
            before == models_of(entries@),
            names == names_of(before),
            key@ == name@,
            rank(names, name@) == at + rank(names.skip(at as int), name@),
        decreases entries@.len() - at,
    {
        let other = chars_of(entries[at].0.as_str());
        assert(names.skip(at as int)[0] == other@);
        if !less(other.as_slice(), key.as_slice()) {
            if equal(other.as_slice(), key.as_slice()) {
                entries.set(at, (name, entry));
                assert(models_of(entries@) =~= before.update(at as int, (name@, entry@)));
            } else {
                entries.insert(at, (name, entry));
                assert(models_of(entries@) =~= before.insert(at as int, (name@, entry@)));
            }
            return ;
        }
        assert(names.skip(at as int).drop_first() == names.skip(at as int + 1));
        at += 1;
    }
    assert(names.skip(at as int).len() == 0);
    entries.insert(at, (name, entry));
    assert(models_of(entries@) =~= before.insert(at as int, (name@, entry@)));
}

impl Sdtabfile {
    /// A table without entries.
    pub fn new() -> (file: Sdtabfile)
        ensures
            file@.well_formed(),
            file@.timers.len() == 0,
            file@.services.len() == 0,
    {
        Sdtabfile { timers: Vec::new(), services: Vec::new() }
    }

    /// Declares the timer `entry` under `name`, in place of a timer that
    /// stands under that name.
    pub fn insert_timer(&mut self, name: String, entry: TimerEntry)
        ensures
            final(self)@ == old(self)@.with_timer(name@, entry@),
            old(self)@.well_formed() ==> final(self)@.well_formed(),
    {
        proof {
            if self@.well_formed() {
                lemma_with_entry_ascending(self@.timers, name@, entry@);
            }
        }
        insert_sorted(&mut self.timers, name, entry);
    }

    /// Declares the service `entry` under `name`, in place of a service that
    /// stands under that name.
    pub fn insert_service(&mut self, name: String, entry: ServiceEntry)
        ensures
            final(self)@ == old(self)@.with_service(name@, entry@),
            old(self)@.well_formed() ==> final(self)@.well_formed(),
    {
        proof {
            if self@.well_formed() {
                lemma_with_entry_ascending(self@.services, name@, entry@);
            }
        }
        insert_sorted(&mut self.services, name, entry);
    }
}

/// The description that the table holds for a unit: none where the
/// description is the command itself.
pub open spec fn declared_description(desc: Seq<char>, command: Seq<char>) -> Option<Seq<char>> {
    if desc == command {
        None
    } else {
        Some(desc)
    }
}

/// The description to declare for a unit: none where it is the command
/// itself.
pub fn description_if_different(desc: &str, command: &str) -> (r: Option<String>)
    ensures
        text_of(r) == declared_description(desc@, command@),
{
    if same(desc, command) {
        None
    } else {
        Some(String::from_str(desc))
    }
}

/// Whether a unit with the description `current_desc` and the command
/// `current_cmd` has the description that the table declares.
pub fn desc_matches(current_desc: &str, current_cmd: &str, desired_desc: &Option<String>) -> (r:
    bool)
    ensures
        r == (declared_description(current_desc@, current_cmd@) == text_of(*desired_desc)),
{
    let current = description_if_different(current_desc, current_cmd);
    same_text(&current, desired_desc)
}

/// The restart policy that holds where none is declared.
pub open spec fn default_restart() -> Seq<char> {
    "always"@
}

/// Whether the restart policy is the one that holds anyway: none declared,
/// or `always`.
pub fn is_default_restart(val: &Option<String>) -> (r: bool)
    ensures
        r == match text_of(*val) {
            None => true,
            Some(policy) => policy == default_restart(),
        },
{
    match val {
        None => true,
        Some(policy) => same(policy.as_str(), "always"),
    }
}

} // verus!
