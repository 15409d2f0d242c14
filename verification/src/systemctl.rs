//! Calls of the service manager: the arguments of each call, and what its
//! outcome means. Making the call is left to the caller.

use crate::split::joined;
use crate::text::{chars_of, equals_str, push_all, push_str, string_of, texts_of, trim, trimmed};
use vstd::prelude::*;

verus! {

fn one(a: &str) -> (args: Vec<String>)
    ensures
        texts_of(args@) == seq![a@],
{
    let mut args: Vec<String> = Vec::new();
    args.push(String::from_str(a));
    assert(texts_of(args@) =~= seq![a@]);
    args
}

fn with(args: Vec<String>, a: &str) -> (r: Vec<String>)
    ensures
        texts_of(r@) == texts_of(args@).push(a@),
{
    let mut r = args;
    r.push(String::from_str(a));
    assert(texts_of(r@) =~= texts_of(args@).push(a@));
    r
}

/// The arguments that make the service manager read the unit files again.
pub fn daemon_reload() -> (args: Vec<String>)
    ensures
        texts_of(args@) == seq!["daemon-reload"@],
{
    one("daemon-reload")
}

/// The arguments that enable the unit `unit` and start it at once.
pub fn enable_and_start(unit: &str) -> (args: Vec<String>)
    ensures
        texts_of(args@) == seq!["enable"@, "--now"@, unit@],
{
    with(with(one("enable"), "--now"), unit)
}

/// The arguments that disable the unit `unit` and stop it at once.
pub fn stop_and_disable(unit: &str) -> (args: Vec<String>)
    ensures
        texts_of(args@) == seq!["disable"@, "--now"@, unit@],
{
    with(with(one("disable"), "--now"), unit)
}

/// The arguments that ask whether the unit `unit` is active.
pub fn is_active(unit: &str) -> (args: Vec<String>)
    ensures
        texts_of(args@) == seq!["is-active"@, unit@],
{
    with(one("is-active"), unit)
}

/// The arguments that restart the unit `unit`.
pub fn restart(unit: &str) -> (args: Vec<String>)
    ensures
        texts_of(args@) == seq!["restart"@, unit@],
{
    with(one("restart"), unit)
}

/// The arguments that ask for the value of the property `property` of the
/// unit `unit`.
pub fn show_property(unit: &str, property: &str) -> (args: Vec<String>)
    ensures
        texts_of(args@) == seq!["show"@, "-p"@, property@, "--value"@, unit@],
{
    with(with(with(with(one("show"), "-p"), property), "--value"), unit)
}

/// Whether what a call with the arguments of `is_active` printed says that
/// the unit is active.
pub fn says_active(stdout: &str) -> (r: bool)
    ensures
        r == (trimmed(stdout@) == "active"@),
{
    let chars = chars_of(stdout);
    equals_str(trim(chars.as_slice()), "active")
}

/// The message for a call with the arguments `args` that failed and wrote
/// `stderr`.
pub open spec fn failure_text(args: Seq<Seq<char>>, stderr: Seq<char>) -> Seq<char> {
    "systemctl --user "@ + joined(args, " "@) + " failed: "@ + trimmed(stderr)
}

/// What a call with the arguments `args` gave: what it printed, without the
/// whitespace around it, where it succeeded, and else a message with what
/// it wrote as its error.
pub fn outcome(args: &Vec<String>, success: bool, stdout: &str, stderr: &str) -> (r: Result<
    String,
    String,
>)
    ensures
        success ==> r is Ok && r->Ok_0@ == trimmed(stdout@),
        !success ==> r is Err && r->Err_0@ == failure_text(texts_of(args@), stderr@),
{
    if success {
        let chars = chars_of(stdout);
        return Ok(string_of(trim(chars.as_slice())));
    }
    let mut out: Vec<char> = Vec::new();
    push_str(&mut out, "systemctl --user ");
    let ghost head = out@;
    let ghost all = texts_of(args@);
    let mut i: usize = 0;
    assert(all.take(0).len() == 0);
    assert(head + Seq::<char>::empty() == head);
    while i < args.len()
        invariant
            i <= args@.len(),
            all == texts_of(args@),
            out@ == head + joined(all.take(i as int), " "@),
        decreases args@.len() - i,
    {
        assert(all.take(i as int + 1).drop_last() == all.take(i as int));
        assert(all.take(i as int + 1).last() == args@[i as int]@);
        if i > 0 {
            push_str(&mut out, " ");
        }
        push_str(&mut out, args[i].as_str());
        i += 1;
    }
    assert(all.take(args@.len() as int) == all);
    push_str(&mut out, " failed: ");
    let err = chars_of(stderr);
    push_all(&mut out, trim(err.as_slice()));
    Err(string_of(out.as_slice()))
}

} // verus!
