//! What a trigger expression is translated into.

use crate::text::text_of;
use vstd::prelude::*;

verus! {

/// When a unit is started. Exactly one of the three holds.
#[derive(Debug, PartialEq, Eq)]
pub enum Trigger {
    /// At the times that the calendar expression describes.
    Calendar(String),
    /// Once, as long after boot as the duration says.
    BootDelay(String),
    /// Not by a timer: the unit is a service that keeps running.
    ServiceMarker,
}

/// A trigger as contracts speak of it.
pub enum TriggerModel {
    Calendar(Seq<char>),
    BootDelay(Seq<char>),
    ServiceMarker,
}

impl View for Trigger {
    type V = TriggerModel;

    open spec fn view(&self) -> TriggerModel {
        match self {
            Trigger::Calendar(expression) => TriggerModel::Calendar(expression@),
            Trigger::BootDelay(duration) => TriggerModel::BootDelay(duration@),
            Trigger::ServiceMarker => TriggerModel::ServiceMarker,
        }
    }
}

impl TriggerModel {
    /// The calendar expression, if the trigger is one.
    pub open spec fn calendar(self) -> Option<Seq<char>> {
        match self {
            TriggerModel::Calendar(expression) => Some(expression),
            _ => None,
        }
    }

    /// The delay after boot, if the trigger is one.
    pub open spec fn boot_delay(self) -> Option<Seq<char>> {
        match self {
            TriggerModel::BootDelay(duration) => Some(duration),
            _ => None,
        }
    }
}

/// A translated trigger expression: the trigger, and the shortest form in
/// which the expression can be written again, where it has one.
#[derive(Debug, PartialEq, Eq)]
pub struct CronSchedule {
    pub trigger: Trigger,
    /// The canonical form of the expression. Expressions in the five-field
    /// form have none.
    pub display: Option<String>,
}

/// A schedule as contracts speak of it.
pub struct ScheduleModel {
    pub trigger: TriggerModel,
    pub display: Option<Seq<char>>,
}

impl View for CronSchedule {
    type V = ScheduleModel;

    open spec fn view(&self) -> ScheduleModel {
        ScheduleModel { trigger: self.trigger@, display: text_of(self.display) }
    }
}

impl CronSchedule {
    /// The calendar expression, if the schedule has one.
    pub fn on_calendar(&self) -> (r: Option<&str>)
        ensures
            r is Some == self@.trigger is Calendar,
            r matches Some(text) ==> self@.trigger.calendar() == Some(text@),
    {
        match &self.trigger {
            Trigger::Calendar(expression) => Some(expression.as_str()),
            _ => None,
        }
    }

    /// The delay after boot, if the schedule has one.
    pub fn on_boot_sec(&self) -> (r: Option<&str>)
        ensures
            r is Some == self@.trigger is BootDelay,
            r matches Some(text) ==> self@.trigger.boot_delay() == Some(text@),
    {
        match &self.trigger {
            Trigger::BootDelay(duration) => Some(duration.as_str()),
            _ => None,
        }
    }

    /// Whether the schedule asks for a service that keeps running.
    pub fn is_service(&self) -> (r: bool)
        ensures
            r == self@.trigger is ServiceMarker,
    {
        match &self.trigger {
            Trigger::ServiceMarker => true,
            _ => false,
        }
    }
}

} // verus!
