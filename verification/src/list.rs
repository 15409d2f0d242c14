//! What the list of units shows of each unit.

use crate::parse_unit::{last_value, UnitType};
use crate::split::{lines, lines_of, views};
use crate::text::{
    chars_of, has_prefix, or_else, same, slice_text, starts_with, string_of, strip_prefix,
};
use vstd::prelude::*;

verus! {

/// What the list shows of a unit from its service file.
#[derive(Debug)]
pub struct ServiceMetadata {
    pub unit_type: UnitType,
    pub cron_expr: String,
    pub command: String,
}

/// The kind that the last line that begins with the statement of a kind
/// states; a timer where there is no such line.
pub open spec fn listed_type(lines: Seq<Seq<char>>) -> UnitType
    decreases lines.len(),
{
    if lines.len() == 0 {
        UnitType::Timer
    } else if has_prefix(lines.last(), "# sdtab:type=service"@) {
        UnitType::Service
    } else if has_prefix(lines.last(), "# sdtab:type=timer"@) {
        UnitType::Timer
    } else {
        listed_type(lines.drop_last())
    }
}

fn shown(value: Option<&[char]>) -> (r: String)
    ensures
        r@ == or_else(slice_text(value), "?"@),
{
    match value {
        Some(text) => string_of(text),
        None => String::from_str("?"),
    }
}

/// What the list shows of the unit whose service file holds `content`: its
/// kind, its trigger expression and the command that is executed, each from
/// the last line that states it, and a question mark for an expression or a
/// command that no line states. Lines count as they stand.
pub fn parse_service_metadata(content: &str) -> (r: ServiceMetadata)
    ensures
        r.unit_type == listed_type(lines_of(content@)),
        r.cron_expr@ == or_else(last_value(lines_of(content@), "# sdtab:cron="@), "?"@),
        r.command@ == or_else(last_value(lines_of(content@), "ExecStart="@), "?"@),
{
    let chars = chars_of(content);
    let raw = lines(chars.as_slice());
    let service = chars_of("# sdtab:type=service");
    let timer = chars_of("# sdtab:type=timer");
    let ghost all = lines_of(content@);
    let mut unit_type = UnitType::Timer;
    let mut cron_expr: Option<&[char]> = None;
    let mut command: Option<&[char]> = None;
    let mut i: usize = 0;
    assert(all.take(0).len() == 0);
    while i < raw.len()
        invariant
            i <= raw@.len(),
            chars@ == content@,
            views(raw@) == all,
            all == lines_of(content@),
            service@ == "# sdtab:type=service"@,
            timer@ == "# sdtab:type=timer"@,
            unit_type == listed_type(all.take(i as int)),
            slice_text(cron_expr) == last_value(all.take(i as int), "# sdtab:cron="@),
            slice_text(command) == last_value(all.take(i as int), "ExecStart="@),
        decreases raw@.len() - i,
    {
        let line = raw[i];
        assert(views(raw@)[i as int] == line@);
        assert(all.take(i as int + 1).drop_last() == all.take(i as int));
        assert(all.take(i as int + 1).last() == line@);
        if starts_with(line, service.as_slice()) {
            unit_type = UnitType::Service;
        } else if starts_with(line, timer.as_slice()) {
            unit_type = UnitType::Timer;
        }
        if let Some(value) = strip_prefix(line, "# sdtab:cron=") {
            cron_expr = Some(value);
        }
        if let Some(value) = strip_prefix(line, "ExecStart=") {
            command = Some(value);
        }
        i += 1;
    }
    assert(all.take(raw@.len() as int) == all);
    ServiceMetadata { unit_type, cron_expr: shown(cron_expr), command: shown(command) }
}

/// The time of the next run as the list shows it: a hyphen where the
/// service manager gives none.
pub fn format_next_run(raw: &str) -> (r: String)
    ensures
        r@ == if raw@.len() == 0 || raw@ == "n/a"@ {
            "-"@
        } else {
            raw@
        },
{
    if raw.is_empty() || same(raw, "n/a") {
        String::from_str("-")
    } else {
        String::from_str(raw)
    }
}

/// The width of a column that holds cells of the lengths `lengths` under a
/// heading of the length `heading`: the greatest of them all.
pub fn column_width(lengths: &Vec<usize>, heading: usize) -> (width: usize)
    ensures
        width >= heading,
        forall|i: int| 0 <= i < lengths@.len() ==> width >= lengths@[i],
        width == heading || lengths@.contains(width),
{
    let mut width = heading;
    let mut i: usize = 0;
    while i < lengths.len()
        invariant
            i <= lengths@.len(),
            width >= heading,
            forall|j: int| 0 <= j < i ==> width >= lengths@[j],
            width == heading || lengths@.contains(width),
        decreases lengths@.len() - i,
    {
        if lengths[i] > width {
            width = lengths[i];
        }
        i += 1;
    }
    width
}

} // verus!
