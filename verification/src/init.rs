//! Where unit files and settings live, and how a command is found.

use crate::parse_unit::trimmed_lines;
use crate::split::{lines, lines_of, pieces, split, views};
use crate::text::{
    chars_of, has_prefix, is_space, push_all, push_str, starts_with, string_of, strip_prefix,
    texts_of, trim,
};
use vstd::prelude::*;

verus! {

/// The directory of the user's unit files, below the home directory `home`.
pub fn unit_dir(home: &str) -> (dir: String)
    ensures
        dir@ == home@ + "/.config/systemd/user"@,
{
    let mut out: Vec<char> = Vec::new();
    push_str(&mut out, home);
    push_str(&mut out, "/.config/systemd/user");
    string_of(out.as_slice())
}

/// The directory of the settings, below the home directory `home`.
pub fn config_dir(home: &str) -> (dir: String)
    ensures
        dir@ == home@ + "/.config/sdtab"@,
{
    let mut out: Vec<char> = Vec::new();
    push_str(&mut out, home);
    push_str(&mut out, "/.config/sdtab");
    string_of(out.as_slice())
}

/// The environment file shared by all units, below the home directory
/// `home`.
pub fn global_env_path(home: &str) -> (path: String)
    ensures
        path@ == home@ + "/.config/sdtab"@ + "/env"@,
{
    let mut out: Vec<char> = Vec::new();
    push_str(&mut out, home);
    push_str(&mut out, "/.config/sdtab");
    push_str(&mut out, "/env");
    string_of(out.as_slice())
}

/// What a new environment file holds: comments that say what the file is
/// for.
pub open spec fn template_text() -> Seq<char> {
    "# sdtab global environment variables\n# All services and timers inherit these settings.\n# Format: KEY=VALUE (one per line)\n#\n# PATH=/home/ec2-user/.local/share/mise/installs/node/24.4.1/bin:/usr/local/bin:/usr/bin:/bin\n# PYTHONUNBUFFERED=1\n"@
}

/// What a new environment file holds.
pub fn env_template() -> (text: &'static str)
    ensures
        text@ == template_text(),
{
    "# sdtab global environment variables\n# All services and timers inherit these settings.\n# Format: KEY=VALUE (one per line)\n#\n# PATH=/home/ec2-user/.local/share/mise/installs/node/24.4.1/bin:/usr/local/bin:/usr/bin:/bin\n# PYTHONUNBUFFERED=1\n"
}

/// The directories of the first line that begins with `PATH=`: the pieces
/// of its value between the colons. No such line means no directories.
pub open spec fn path_of(lines: Seq<Seq<char>>) -> Seq<Seq<char>>
    decreases lines.len(),
{
    if lines.len() == 0 {
        Seq::empty()
    } else if has_prefix(lines[0], "PATH="@) {
        pieces(lines[0].skip(5), ':')
    } else {
        path_of(lines.drop_first())
    }
}

/// The directories that the environment file with the text `content` puts
/// on the search path.
pub fn read_env_path(content: &str) -> (dirs: Vec<String>)
    ensures
        texts_of(dirs@) == path_of(trimmed_lines(content@)),
{
    let chars = chars_of(content);
    let raw = lines(chars.as_slice());
    let ghost all = trimmed_lines(content@);
    let mut i: usize = 0;
    assert(all.skip(0) == all);
    proof {
        reveal_strlit("PATH=");
    }
    while i < raw.len()
        invariant
            i <= raw@.len(),
            chars@ == content@,
            views(raw@) == lines_of(chars@),
            all == trimmed_lines(content@),
            "PATH="@.len() == 5,
            path_of(all) == path_of(all.skip(i as int)),
        decreases raw@.len() - i,
    {
        let line = trim(raw[i]);
        assert(views(raw@)[i as int] == raw@[i as int]@);
        assert(all.skip(i as int)[0] == line@);
        assert(all.skip(i as int).drop_first() == all.skip(i as int + 1));
        if let Some(value) = strip_prefix(line, "PATH=") {
            let parts = split(value, ':');
            let mut dirs: Vec<String> = Vec::new();
            let mut k: usize = 0;
            while k < parts.len()
                invariant
                    k <= parts@.len(),
                    dirs@.len() == k,
                    forall|j: int| 0 <= j < k ==> dirs@[j]@ == parts@[j]@,
                decreases parts@.len() - k,
            {
                dirs.push(string_of(parts[k]));
                k += 1;
            }
            assert(texts_of(dirs@) =~= views(parts@));
            return dirs;
        }
        i += 1;
    }
    assert(all.skip(raw@.len() as int).len() == 0);
    let dirs: Vec<String> = Vec::new();
    assert(texts_of(dirs@) =~= Seq::<Seq<char>>::empty());
    dirs
}

/// The number of characters of `s` before its first whitespace.
pub open spec fn program_len(s: Seq<char>) -> int {
    crate::split::word_len(s)
}

/// The program of a command: what stands before its first whitespace.
pub open spec fn program_of(command: Seq<char>) -> Seq<char> {
    command.take(program_len(command))
}

/// The arguments of a command: what stands after its first whitespace.
pub open spec fn arguments_of(command: Seq<char>) -> Seq<char> {
    if program_len(command) < command.len() {
        command.skip(program_len(command) + 1)
    } else {
        Seq::empty()
    }
}

/// Whether a program is given by a path, absolute or relative, and so needs
/// no search.
pub open spec fn is_path(program: Seq<char>) -> bool {
    has_prefix(program, "/"@) || has_prefix(program, "./"@) || has_prefix(program, "../"@)
}

/// How the program of a command is to be found.
#[derive(Debug, PartialEq, Eq)]
pub enum Lookup {
    /// The command names its program by a path and stays as it is.
    AsIs,
    /// The program is to be searched for; the arguments are put back after
    /// what the search finds.
    Search { program: String, arguments: String },
}

/// How the program of the command `command` is to be found.
pub fn resolve_command(command: &str) -> (r: Lookup)
    ensures
        is_path(program_of(command@)) ==> r == Lookup::AsIs,
        !is_path(program_of(command@)) ==> (r matches Lookup::Search { program, arguments }
            && program@ == program_of(command@) && arguments@ == arguments_of(command@)),
{
    let chars = chars_of(command);
    let s = chars.as_slice();
    let n = s.len();
    let mut b: usize = 0;
    assert(s@.skip(0) == s@);
    while b < n && !is_space(s[b])
        invariant
            n == s@.len(),
            b <= n,
            program_len(s@) == b + program_len(s@.skip(b as int)),
        decreases n - b,
    {
        assert(s@.skip(b as int).drop_first() == s@.skip(b as int + 1));
        b += 1;
    }
    let program = &s[0..b];
    let slash = chars_of("/");
    let here = chars_of("./");
    let up = chars_of("../");
    if starts_with(program, slash.as_slice()) || starts_with(program, here.as_slice())
        || starts_with(program, up.as_slice()) {
        return Lookup::AsIs;
    }
    let arguments = if b < n {
        string_of(&s[b + 1..n])
    } else {
        String::new()
    };
    Lookup::Search { program: string_of(program), arguments }
}

/// The command with the program that was found at `path`: the path, and
/// after a space the arguments where there are any.
pub fn with_arguments(path: &str, arguments: &str) -> (command: String)
    ensures
        command@ == if arguments@.len() == 0 {
            path@
        } else {
            path@ + " "@ + arguments@
        },
{
    let args = chars_of(arguments);
    let mut out: Vec<char> = Vec::new();
    push_str(&mut out, path);
    if args.len() > 0 {
        push_str(&mut out, " ");
        push_all(&mut out, args.as_slice());
    }
    string_of(out.as_slice())
}

/// The message for a program that was found nowhere.
pub fn not_found(program: &str, env_path: &str) -> (message: String)
    ensures
        message@ == "Command '"@ + program@ + "' not found. Add its directory to PATH in "@
            + env_path@,
{
    let mut out: Vec<char> = Vec::new();
    push_str(&mut out, "Command '");
    push_str(&mut out, program);
    push_str(&mut out, "' not found. Add its directory to PATH in ");
    push_str(&mut out, env_path);
    string_of(out.as_slice())
}

} // verus!
