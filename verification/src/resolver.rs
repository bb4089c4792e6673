//! The executable resolver: turns the package-runner name `npx` into a
//! concrete path by searching the inherited search path and a fixed list
//! of well-known installation locations, and builds the command to spawn,
//! falling back to a shell invocation when nothing is found.
//!
//! The resolver computes candidate paths and selects among probe results;
//! probing the file system for existence happens outside the crate.

use vstd::prelude::*;
use vstd::string::*;
use crate::text::{has_suffix, joined, str_eq, str_has_suffix, join_strings, concat2, concat3};

verus! {

/// Index of the first occurrence of `c` in `s`, or the length when absent.
pub open spec fn first_index_of(s: Seq<char>, c: char) -> int
    decreases s.len(),
{
    if s.len() == 0 {
        0
    } else if s[0] == c {
        0
    } else {
        1 + first_index_of(s.skip(1), c)
    }
}

/// The first occurrence is exactly the first: no occurrence stands before it.
proof fn lemma_first_index_run(s: Seq<char>, c: char, i: int)
    requires
        0 <= i <= s.len(),
        forall|k: int| 0 <= k < i ==> s[k] != c,
        i == s.len() || s[i] == c,
    ensures
        first_index_of(s, c) == i,
    decreases s.len(),
{
    if i == 0 {
        if s.len() != 0 && s[0] != c {
            assert(i < s.len() && s[i] == c);
        }
    } else {
        assert(s[0] != c);
        let t = s.skip(1);
        assert(forall|k: int| 0 <= k < t.len() ==> t[k] == s[k + 1]);
        lemma_first_index_run(t, c, i - 1);
    }
}

/// The pieces of `s` between occurrences of `c`, as `str::split` yields
/// them: empty pieces included, and one (possibly empty) piece when `c`
/// does not occur.
pub open spec fn split_by(s: Seq<char>, c: char) -> Seq<Seq<char>>
    decreases s.len(),
{
    let i = first_index_of(s, c);
    if i < 0 || i >= s.len() {
        seq![s]
    } else {
        seq![s.subrange(0, i)] + split_by(s.skip(i + 1), c)
    }
}

/// Splitting at the first separator: the piece before it, then the split
/// of what follows it.
proof fn lemma_split_step(s: Seq<char>, c: char, i: int)
    requires
        0 <= i < s.len(),
        s[i] == c,
        forall|k: int| 0 <= k < i ==> s[k] != c,
    ensures
        split_by(s, c) == seq![s.subrange(0, i)] + split_by(s.skip(i + 1), c),
{
    lemma_first_index_run(s, c, i);
}

/// A sequence without the separator splits into itself alone.
proof fn lemma_split_whole(s: Seq<char>, c: char)
    requires
        forall|k: int| 0 <= k < s.len() ==> s[k] != c,
    ensures
        split_by(s, c) == seq![s],
{
    lemma_first_index_run(s, c, s.len() as int);
}

/// Splits `s` at every occurrence of `sep`, as `str::split` does.
pub fn split_string(s: &str, sep: char) -> (r: Vec<String>)
    ensures
        r.deep_view() == split_by(s@, sep),
{
    let n = s.unicode_len();
    let mut r: Vec<String> = Vec::new();
    let mut start: usize = 0;
    let mut j: usize = 0;
    proof {
        assert(r.deep_view() =~= Seq::<Seq<char>>::empty());
        assert(s@.skip(0) =~= s@);
        assert(Seq::<Seq<char>>::empty() + split_by(s@, sep) =~= split_by(s@, sep));
    }
    while j < n
        invariant
            n == s@.len(),
            start <= j <= n,
            split_by(s@, sep) == r.deep_view() + split_by(s@.skip(start as int), sep),
            forall|k: int| start <= k < j ==> s@[k] != sep,
        decreases n - j,
    {
        if s.get_char(j) == sep {
            let piece = s.substring_char(start, j);
            proof {
                let t = s@.skip(start as int);
                assert(forall|k: int| 0 <= k < t.len() ==> t[k] == s@[k + start]);
                lemma_split_step(t, sep, j - start);
                assert(t.subrange(0, j - start) =~= s@.subrange(start as int, j as int));
                assert(t.skip(j - start + 1) =~= s@.skip(j as int + 1));
            }
            let owned_piece = piece.to_owned();
            let ghost prev = r.deep_view();
            r.push(owned_piece);
            proof {
                assert(r.deep_view() =~= prev.push(owned_piece@));
                assert(prev.push(owned_piece@) + split_by(s@.skip(j as int + 1), sep)
                    =~= prev + (seq![s@.subrange(start as int, j as int)]
                        + split_by(s@.skip(j as int + 1), sep)));
            }
            start = j + 1;
        }
        j = j + 1;
    }
    let last = s.substring_char(start, n);
    proof {
        let t = s@.skip(start as int);
        assert(forall|k: int| 0 <= k < t.len() ==> t[k] == s@[k + start]);
        lemma_split_whole(t, sep);
        assert(t =~= s@.subrange(start as int, n as int));
    }
    let owned_last = last.to_owned();
    let ghost prev = r.deep_view();
    r.push(owned_last);
    proof {
        assert(r.deep_view() =~= prev.push(owned_last@));
        assert(prev.push(owned_last@) =~= prev + seq![s@.subrange(start as int, n as int)]);
    }
    r
}

/// The path component separator: a backslash on the script-shell platform,
/// a slash elsewhere.
pub open spec fn path_separator(windows: bool) -> char {
    if windows {
        '\\'
    } else {
        '/'
    }
}

/// The separator between entries of the search-path variable.
pub open spec fn path_list_separator(windows: bool) -> char {
    if windows {
        ';'
    } else {
        ':'
    }
}

/// `dir` and the relative component `file` joined with separator `sep`,
/// as path joining inserts it: no separator after an empty or
/// separator-terminated `dir`.
pub open spec fn spec_path_join(dir: Seq<char>, file: Seq<char>, sep: char) -> Seq<char> {
    if dir.len() == 0 {
        file
    } else if dir.last() == sep {
        dir + file
    } else {
        dir + seq![sep] + file
    }
}

/// Joins `dir` and `file` with the platform's path separator.
pub fn path_join(dir: &str, file: &str, windows: bool) -> (r: String)
    ensures
        r@ == spec_path_join(dir@, file@, path_separator(windows)),
{
    let n = dir.unicode_len();
    if n == 0 {
        return file.to_owned();
    }
    let sep: char = if windows {
        '\\'
    } else {
        '/'
    };
    let mut r = dir.to_owned();
    if dir.get_char(n - 1) != sep {
        if windows {
            r.append("\\");
            proof {
                reveal_strlit("\\");
                assert(r@ =~= dir@ + seq![sep]);
            }
        } else {
            r.append("/");
            proof {
                reveal_strlit("/");
                assert(r@ =~= dir@ + seq![sep]);
            }
        }
    }
    r.append(file);
    r
}

/// The command asks for the package runner: it is `npx` itself or a path
/// ending in `/npx`.
pub open spec fn spec_is_npx(command: Seq<char>) -> bool {
    command == "npx"@ || has_suffix(command, "/npx"@)
}

/// Runtime test for [`spec_is_npx`].
pub fn is_npx_command(command: &str) -> (r: bool)
    ensures
        r == spec_is_npx(command@),
{
    str_eq(command, "npx") || str_has_suffix(command, "/npx")
}

/// The single command line handed to the shell fallback: the command and
/// its arguments joined with spaces.
pub open spec fn spec_shell_command_line(command: Seq<char>, args: Seq<Seq<char>>) -> Seq<char> {
    if args.len() == 0 {
        command
    } else {
        command + " "@ + joined(args, " "@)
    }
}

/// Builds [`spec_shell_command_line`].
pub fn shell_command_line(command: &str, args: &Vec<String>) -> (r: String)
    ensures
        r@ == spec_shell_command_line(command@, args.deep_view()),
{
    if args.len() == 0 {
        command.to_owned()
    } else {
        let joined_args = join_strings(args, " ");
        concat3(command, " ", joined_args.as_str())
    }
}

/// A fresh copy of a vector of strings.
fn clone_strings(v: &Vec<String>) -> (r: Vec<String>)
    ensures
        r.deep_view() == v.deep_view(),
{
    let mut r: Vec<String> = Vec::new();
    let mut i: usize = 0;
    while i < v.len()
        invariant
            i <= v@.len(),
            r.deep_view() == v.deep_view().take(i as int),
        decreases v@.len() - i,
    {
        let ghost prev = r.deep_view();
        r.push(v[i].clone());
        proof {
            assert(r.deep_view() =~= prev.push(v@[i as int]@));
            assert(prev.push(v@[i as int]@) =~= v.deep_view().take(i + 1));
        }
        i = i + 1;
    }
    proof {
        assert(v.deep_view().take(v@.len() as int) =~= v.deep_view());
    }
    r
}

/// The first candidate whose probe succeeded. `probes[i]` reports whether
/// `candidates[i]` names an existing file.
pub fn first_existing(candidates: &Vec<String>, probes: &Vec<bool>) -> (r: Option<String>)
    requires
        candidates@.len() == probes@.len(),
    ensures
        match r {
            Some(p) => exists|i: int|
                0 <= i < probes@.len() && probes@[i] && p@ == candidates.deep_view()[i]
                    && forall|k: int| 0 <= k < i ==> !probes@[k],
            None => forall|k: int| 0 <= k < probes@.len() ==> !probes@[k],
        },
{
    let n = candidates.len();
    let mut i: usize = 0;
    while i < n
        invariant
            n == candidates@.len(),
            candidates@.len() == probes@.len(),
            i <= n,
            forall|k: int| 0 <= k < i ==> !probes@[k],
        decreases n - i,
    {
        if probes[i] {
            return Some(candidates[i].clone());
        }
        i = i + 1;
    }
    None
}

/// The two file names probed for the package runner in one directory of
/// the search path: the bare name and the script-extension variant.
pub open spec fn runner_names_in_dir(d: Seq<char>, windows: bool) -> Seq<Seq<char>> {
    seq![
        spec_path_join(d, "npx"@, path_separator(windows)),
        spec_path_join(d, "npx.cmd"@, path_separator(windows)),
    ]
}

/// Candidates from the first `n` search-path directories, in order.
pub open spec fn search_path_candidates_first(
    dirs: Seq<Seq<char>>,
    windows: bool,
    n: int,
) -> Seq<Seq<char>>
    decreases n,
{
    if n <= 0 {
        Seq::empty()
    } else {
        search_path_candidates_first(dirs, windows, n - 1) + runner_names_in_dir(
            dirs[n - 1],
            windows,
        )
    }
}

/// Candidates from every search-path directory, in order.
pub open spec fn search_path_candidates(dirs: Seq<Seq<char>>, windows: bool) -> Seq<Seq<char>> {
    search_path_candidates_first(dirs, windows, dirs.len() as int)
}

/// Well-known locations checked before the version-manager expansion.
pub open spec fn fixed_candidates_before(home: Seq<char>) -> Seq<Seq<char>> {
    seq![home + "/.volta/bin/npx"@, "/usr/local/bin/npx"@, "/opt/homebrew/bin/npx"@]
}

/// Well-known locations checked after the version-manager expansion.
pub open spec fn fixed_candidates_after(home: Seq<char>, profile: Seq<char>) -> Seq<Seq<char>> {
    seq![
        home + "/.local/bin/npx"@,
        home + "/bin/npx"@,
        profile + "\\AppData\\Local\\Volta\\bin\\npx.cmd"@,
        "C:\\Program Files\\nodejs\\npx.cmd"@,
        profile + "\\AppData\\Roaming\\npm\\npx.cmd"@,
    ]
}

/// One candidate inside each of the first `n` enumerated version
/// directories: the fixed suffix joined under the directory.
pub open spec fn version_dir_candidates_first(
    subdirs: Seq<Seq<char>>,
    windows: bool,
    n: int,
) -> Seq<Seq<char>>
    decreases n,
{
    if n <= 0 {
        Seq::empty()
    } else {
        version_dir_candidates_first(subdirs, windows, n - 1).push(
            spec_path_join(subdirs[n - 1], "bin/npx"@, path_separator(windows)),
        )
    }
}

/// One candidate inside each enumerated version directory.
pub open spec fn version_dir_candidates(subdirs: Seq<Seq<char>>, windows: bool) -> Seq<Seq<char>> {
    version_dir_candidates_first(subdirs, windows, subdirs.len() as int)
}

/// The directory whose subdirectories stand in for the wildcard segment
/// of the version-manager entry: the node versions directory under
/// `home`.
pub fn version_dirs_root(home: &str) -> (r: String)
    ensures
        r@ == home@ + "/.nvm/versions/node"@,
{
    concat2(home, "/.nvm/versions/node")
}

/// Every path probed for the package runner, in probe order: each
/// search-path directory with both runner names, then the fixed
/// locations, with the wildcard entry expanded to one candidate per
/// enumerated version directory.
pub open spec fn npx_candidates(
    path_var: Option<Seq<char>>,
    home: Seq<char>,
    profile: Seq<char>,
    version_dirs: Seq<Seq<char>>,
    windows: bool,
) -> Seq<Seq<char>> {
    (match path_var {
        Some(p) => search_path_candidates(split_by(p, path_list_separator(windows)), windows),
        None => Seq::empty(),
    }) + fixed_candidates_before(home) + version_dir_candidates(version_dirs, windows)
        + fixed_candidates_after(home, profile)
}

/// Builds [`npx_candidates`]: `path_var` is the inherited search-path
/// variable if present, `home` and `profile` the two home directories
/// (empty when unset), and `version_dirs` the enumerated subdirectories
/// standing in for the wildcard segment.
pub fn find_npx_candidates(
    path_var: &Option<String>,
    home: &str,
    profile: &str,
    version_dirs: &Vec<String>,
    windows: bool,
) -> (r: Vec<String>)
    ensures
        r.deep_view() == npx_candidates(
            path_var.deep_view(),
            home@,
            profile@,
            version_dirs.deep_view(),
            windows,
        ),
{
    let mut r: Vec<String> = Vec::new();
    proof {
        assert(r.deep_view() =~= Seq::<Seq<char>>::empty());
    }
    match path_var {
        Some(pv) => {
            let dirs = split_string(pv.as_str(), if windows { ';' } else { ':' });
            let ghost dseq = dirs.deep_view();
            let n = dirs.len();
            let mut i: usize = 0;
            while i < n
                invariant
                    n == dirs@.len(),
                    dseq == dirs.deep_view(),
                    i <= n,
                    r.deep_view() == search_path_candidates_first(dseq, windows, i as int),
                decreases n - i,
            {
                let c1 = path_join(dirs[i].as_str(), "npx", windows);
                let c2 = path_join(dirs[i].as_str(), "npx.cmd", windows);
                let ghost prev = r.deep_view();
                r.push(c1);
                r.push(c2);
                proof {
                    assert(dseq[i as int] == dirs@[i as int]@);
                    assert(r.deep_view() =~= prev + runner_names_in_dir(dseq[i as int], windows));
                }
                i = i + 1;
            }
        },
        None => {},
    }
    let ghost search_part = r.deep_view();
    proof {
        assert(search_part == match path_var.deep_view() {
            Some(p) => search_path_candidates(split_by(p, path_list_separator(windows)), windows),
            None => Seq::<Seq<char>>::empty(),
        });
    }
    let c = concat2(home, "/.volta/bin/npx");
    r.push(c);
    let c = "/usr/local/bin/npx".to_owned();
    r.push(c);
    let c = "/opt/homebrew/bin/npx".to_owned();
    r.push(c);
    proof {
        assert(r.deep_view() =~= search_part + fixed_candidates_before(home@));
    }
    let ghost before_versions = r.deep_view();
    let ghost vseq = version_dirs.deep_view();
    let vn = version_dirs.len();
    let mut i: usize = 0;
    while i < vn
        invariant
            vn == version_dirs@.len(),
            vseq == version_dirs.deep_view(),
            i <= vn,
            r.deep_view() == before_versions + version_dir_candidates_first(vseq, windows, i as int),
        decreases vn - i,
    {
        let c = path_join(version_dirs[i].as_str(), "bin/npx", windows);
        let ghost prev = r.deep_view();
        r.push(c);
        proof {
            assert(vseq[i as int] == version_dirs@[i as int]@);
            assert(r.deep_view() =~= prev.push(
                spec_path_join(vseq[i as int], "bin/npx"@, path_separator(windows)),
            ));
            assert(prev.push(spec_path_join(vseq[i as int], "bin/npx"@, path_separator(windows)))
                =~= before_versions + version_dir_candidates_first(vseq, windows, i + 1));
        }
        i = i + 1;
    }
    let c = concat2(home, "/.local/bin/npx");
    r.push(c);
    let c = concat2(home, "/bin/npx");
    r.push(c);
    let c = concat2(profile, "\\AppData\\Local\\Volta\\bin\\npx.cmd");
    r.push(c);
    let c = "C:\\Program Files\\nodejs\\npx.cmd".to_owned();
    r.push(c);
    let c = concat2(profile, "\\AppData\\Roaming\\npm\\npx.cmd");
    r.push(c);
    proof {
        assert(r.deep_view() =~= before_versions + version_dir_candidates(vseq, windows)
            + fixed_candidates_after(home@, profile@));
        assert(r.deep_view() =~= npx_candidates(
            path_var.deep_view(),
            home@,
            profile@,
            vseq,
            windows,
        ));
    }
    r
}

/// What to spawn: a program and its argument list.
pub struct CommandPlan {
    pub program: String,
    pub args: Vec<String>,
}

/// Decides the invocation for a start request. A command other than the
/// package runner is spawned as given; the package runner is spawned at
/// its resolved path when resolution succeeded, and otherwise handed to
/// the platform shell as a single joined command line.
pub fn plan_command(
    command: &String,
    args: &Vec<String>,
    resolved: &Option<String>,
    windows: bool,
) -> (r: CommandPlan)
    ensures
        !spec_is_npx(command@) ==> r.program@ == command@
            && r.args.deep_view() == args.deep_view(),
        spec_is_npx(command@) && resolved is Some ==> r.program@ == resolved->0@
            && r.args.deep_view() == args.deep_view(),
        spec_is_npx(command@) && resolved is None ==> {
            &&& r.program@ == (if windows { "cmd"@ } else { "sh"@ })
            &&& r.args.deep_view() == seq![
                (if windows { "/C"@ } else { "-c"@ }),
                spec_shell_command_line(command@, args.deep_view()),
            ]
        },
{
    if !is_npx_command(command.as_str()) {
        CommandPlan { program: command.clone(), args: clone_strings(args) }
    } else {
        match resolved {
            Some(p) => CommandPlan { program: p.clone(), args: clone_strings(args) },
            None => {
                let line = shell_command_line(command.as_str(), args);
                let mut shell_args: Vec<String> = Vec::new();
                let flag = if windows {
                    "/C".to_owned()
                } else {
                    "-c".to_owned()
                };
                shell_args.push(flag);
                shell_args.push(line);
                proof {
                    assert(shell_args.deep_view() =~= seq![
                        (if windows { "/C"@ } else { "-c"@ }),
                        spec_shell_command_line(command@, args.deep_view()),
                    ]);
                }
                let program = if windows {
                    "cmd".to_owned()
                } else {
                    "sh".to_owned()
                };
                CommandPlan { program, args: shell_args }
            },
        }
    }
}

} // verus!
