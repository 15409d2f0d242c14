//! What the status of a unit shows.

use crate::text::{
    chars_of, find, find_char, has_prefix, lemma_occurrence, occurrence, position, same,
    string_of, trim, trim_end_matches, trimmed, without_trailing,
};
use vstd::prelude::*;

verus! {

/// The command in what the service manager gives as the property
/// `ExecStart`, which has the form `{ path=... ; argv[]=... ; ... }`: what
/// stands between `argv[]=` and the next semicolon, without the whitespace
/// around it. Where no semicolon follows, it is the rest without closing
/// braces and whitespace at its end; where there is no `argv[]=`, it is all
/// of the text.
pub open spec fn exec_command_of(raw: Seq<char>) -> Seq<char> {
    let start = occurrence(raw, "argv[]="@);
    if 0 <= start < raw.len() {
        let rest = raw.skip(start + 7);
        let end = position(rest, ';');
        if 0 <= end < rest.len() {
            trimmed(rest.take(end))
        } else {
            trimmed(without_trailing(trimmed(rest), '}'))
        }
    } else {
        raw
    }
}

/// The command in what the service manager gives as the property
/// `ExecStart`.
pub fn extract_exec_command(raw: &str) -> (command: String)
    ensures
        command@ == exec_command_of(raw@),
{
    let chars = chars_of(raw);
    let s = chars.as_slice();
    let n = s.len();
    let marker = chars_of("argv[]=");
    proof {
        reveal_strlit("argv[]=");
        lemma_occurrence(s@, "argv[]="@);
    }
    match find(s, marker.as_slice()) {
        Some(start) => {
            assert(has_prefix(s@.skip(start as int), "argv[]="@));
            let rest = &s[start + 7..n];
            match find_char(rest, ';') {
                Some(end) => string_of(trim(&rest[0..end])),
                None => string_of(trim(trim_end_matches(trim(rest), '}'))),
            }
        },
        None => String::from_str(raw),
    }
}

/// Whether the process number of a service is worth showing: the service is
/// active and has a main process.
pub fn shows_pid(active: &str, pid: &str) -> (r: bool)
    ensures
        r == (active@ == "active"@ && pid@ != "0"@),
{
    same(active, "active") && !same(pid, "0")
}

/// Whether the service manager gave a time: anything but nothing and `n/a`.
pub fn is_time(value: &str) -> (r: bool)
    ensures
        r == (value@.len() > 0 && value@ != "n/a"@),
{
    !value.is_empty() && !same(value, "n/a")
}

/// Whether the service manager gave a memory use: anything but `[not set]`
/// and `infinity`.
pub fn is_memory(value: &str) -> (r: bool)
    ensures
        r == (value@ != "[not set]"@ && value@ != "infinity"@),
{
    !same(value, "[not set]") && !same(value, "infinity")
}

} // verus!
