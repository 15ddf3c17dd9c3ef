//! Run options and the pure decisions made while preparing a run.

use vstd::prelude::*;

use crate::strutil::strip_leading_slashes;
use crate::strutil::strip_slashes;

verus! {

/// When colored output (and with it the pager) may be used.
#[derive(Copy, Clone, Debug, PartialEq, Eq, Structural)]
pub enum ColorWhen {
    Auto,
    Always,
    Never,
}

impl Default for ColorWhen {
    fn default() -> (r: Self)
        ensures
            r == ColorWhen::Auto,
    {
        ColorWhen::Auto
    }
}

/// The options of one run, as the command line hands them over.
pub struct Args {
    /// Search the sync file database before downloading.
    pub filedb: bool,
    /// Search the local package database before downloading.
    pub localdb: bool,
    /// Alternative root directory.
    pub root: Option<String>,
    /// Alternative database location.
    pub dbpath: Option<String>,
    /// Alternative pacman configuration file.
    pub config: Option<String>,
    /// When to enable coloring.
    pub color: ColorWhen,
    /// How many times a database refresh was requested.
    pub refresh: u8,
    /// Primary cache directory.
    pub cachedir: Option<String>,
    /// Report every matching file instead of just the first.
    pub all: bool,
    /// Treat the requested files as regular expressions.
    pub regex: bool,
    /// Allow printing binary files.
    pub binary: bool,
    /// Only consider executable files.
    pub executable: bool,
    /// Extract matched files to the current directory.
    pub extract: bool,
    /// Install matched files to the system.
    pub install: bool,
    /// Print file names instead of file content.
    pub list: bool,
    /// Display debug messages.
    pub debug: bool,
    /// Packages, package files, or package urls.
    pub targets: Vec<String>,
    /// Files to look for inside the targets.
    pub files: Vec<String>,
}

/// Whether color output is on, given the flag and whether stdout is a terminal.
pub fn color_enabled(when: ColorWhen, is_tty: bool) -> (r: bool)
    ensures
        r == match when {
            ColorWhen::Auto => is_tty,
            ColorWhen::Always => true,
            ColorWhen::Never => false,
        },
{
    match when {
        ColorWhen::Auto => is_tty,
        ColorWhen::Always => true,
        ColorWhen::Never => false,
    }
}

/// Whether binary content may be written: an explicit request, a non-terminal
/// destination, or an extraction all allow it.
pub fn effective_binary(binary: bool, is_tty: bool, extract: bool, install: bool) -> (r: bool)
    ensures
        r == (binary || !is_tty || extract || install),
{
    binary || !is_tty || extract || install
}

/// Whether matched content goes through the pager: only when printing content
/// in color and a pager is available.
pub fn use_pager(color: bool, list: bool, extract: bool, install: bool, pager_available: bool) -> (r: bool)
    ensures
        r == (color && !list && !extract && !install && pager_available),
{
    color && !list && !extract && !install && pager_available
}

/// Why a run cannot start.
#[derive(Copy, Clone, PartialEq, Eq, Structural, Debug)]
pub enum UsageError {
    /// No targets were given and no whole-database scan was requested.
    NoTargets,
    /// No files to look for were given.
    NoFiles,
}

impl UsageError {
    /// The message this error prints.
    pub fn message(&self) -> (r: String)
        ensures
            *self is NoTargets ==> r@ == "no targets specified (use -h for help)"@,
            *self is NoFiles ==> r@ == "no files specified (use -h for help)"@,
    {
        match self {
            UsageError::NoTargets => String::from_str("no targets specified (use -h for help)"),
            UsageError::NoFiles => String::from_str("no files specified (use -h for help)"),
        }
    }
}

/// Checks that the run has work to do: targets must be given unless a
/// database refresh or a whole-database scan was requested, and files must
/// be given unless only a refresh without targets was requested.
pub fn validate_options(
    refresh: u8,
    localdb: bool,
    filedb: bool,
    n_targets: usize,
    n_files: usize,
) -> (r: Result<(), UsageError>)
    ensures
        r == (if refresh == 0 && !localdb && !filedb && n_targets == 0 {
            Result::<(), UsageError>::Err(UsageError::NoTargets)
        } else if (refresh == 0 || n_targets > 0) && n_files == 0 {
            Result::<(), UsageError>::Err(UsageError::NoFiles)
        } else {
            Result::<(), UsageError>::Ok(())
        }),
{
    if refresh == 0 && !localdb && !filedb && n_targets == 0 {
        Err(UsageError::NoTargets)
    } else if (refresh == 0 || n_targets > 0) && n_files == 0 {
        Err(UsageError::NoFiles)
    } else {
        Ok(())
    }
}

/// When targets were given but the files to look for were not, the file
/// list is carved out of the target list: a whole-database scan takes every
/// positional argument as a file, otherwise the first argument is the
/// target and the rest are files.
pub fn split_targets_files(
    targets: &mut Vec<String>,
    files: &mut Vec<String>,
    filedb: bool,
    localdb: bool,
)
    ensures
        (old(targets)@.len() > 0 && old(files)@.len() == 0) ==> (if filedb || localdb {
            final(targets)@ == Seq::<String>::empty() && final(files)@ == old(targets)@
        } else {
            final(targets)@ == old(targets)@.take(1) && final(files)@ == old(targets)@.skip(1)
        }),
        !(old(targets)@.len() > 0 && old(files)@.len() == 0) ==> (final(targets)@ == old(targets)@
            && final(files)@ == old(files)@),
{
    if !targets.is_empty() && files.is_empty() {
        if filedb || localdb {
            *files = targets.split_off(0);
            proof {
                assert(targets@ =~= Seq::<String>::empty());
            }
        } else {
            *files = targets.split_off(1);
        }
    }
}

/// Position i holds the first bare "-" among the given values.
pub open spec fn dash_at(vs: Seq<Seq<char>>, i: int) -> bool {
    &&& 0 <= i < vs.len()
    &&& vs[i] == "-"@
    &&& forall|k: int| 0 <= k < i ==> vs[k] != "-"@
}

/// Removes the first bare "-" among the values and reports whether there
/// was one; the caller then reads the remaining values from standard input.
pub fn take_stdin_marker(values: &mut Vec<String>) -> (r: bool)
    ensures
        r == exists|i: int|
            0 <= i < old(values).deep_view().len() && old(values).deep_view()[i] == "-"@,
        forall|i: int|
            dash_at(old(values).deep_view(), i) ==> final(values)@ == old(values)@.remove(i),
        !r ==> final(values)@ == old(values)@,
{
    let n = values.len();
    let mut i: usize = 0;
    while i < n
        invariant
            i <= n,
            n == values@.len(),
            *values == *old(values),
            forall|k: int| 0 <= k < i ==> values.deep_view()[k] != "-"@,
        decreases n - i,
    {
        if crate::strutil::str_eq(values[i].as_str(), "-") {
            let ghost pre = *values;
            values.remove(i);
            proof {
                assert(dash_at(pre.deep_view(), i as int));
                assert forall|j: int| dash_at(pre.deep_view(), j) implies j == i as int by {
                    if j < i as int {
                        assert(pre.deep_view()[j] != "-"@);
                    } else if j > i as int {
                        assert(pre.deep_view()[i as int] == "-"@);
                    }
                }
            }
            return true;
        }
        i = i + 1;
    }
    proof {
        if exists|j: int|
            0 <= j < values.deep_view().len() && #[trigger] values.deep_view()[j] == "-"@ {
            let j = choose|j: int|
                0 <= j < values.deep_view().len() && values.deep_view()[j] == "-"@;
            assert(values.deep_view()[j] != "-"@);
        }
    }
    false
}

/// The requested files with their leading '/' characters removed: entry
/// paths inside archives carry no leading '/'.
pub fn normalize_patterns(files: &Vec<String>) -> (r: Vec<String>)
    ensures
        r@.len() == files@.len(),
        forall|i: int|
            0 <= i < r@.len() ==> r.deep_view()[i] == strip_slashes(
                #[trigger] files.deep_view()[i],
            ),
{
    let n = files.len();
    let mut r: Vec<String> = Vec::new();
    let mut i: usize = 0;
    while i < n
        invariant
            i <= n,
            n == files@.len(),
            r@.len() == i,
            forall|k: int|
                0 <= k < i ==> r.deep_view()[k] == strip_slashes(#[trigger] files.deep_view()[k]),
        decreases n - i,
    {
        r.push(strip_leading_slashes(files[i].as_str()).to_owned());
        i = i + 1;
    }
    r
}

} // verus!
