//! The parsed command-line options, and the small predicates the listing
//! pipeline derives from them. Argument parsing itself lives with the binary;
//! this type only carries the already-parsed values, plus whether standard
//! output is a terminal, which the color decision needs.
use vstd::prelude::*;

use crate::foreign::str_to_chars;
use crate::text::chars_eq_str;

verus! {

#[derive(Clone, Debug)]
pub struct Args {
    /// Files or directories to list.
    pub paths: Vec<String>,
    /// Use a long listing format.
    pub long: bool,
    /// List all entries including `.` and `..`.
    pub all: bool,
    /// Do not list implied `.` and `..`.
    pub almost_all: bool,
    /// List subdirectories recursively.
    pub recursive: bool,
    /// Disable icons.
    pub no_icons: bool,
    /// Sort by file size, largest first.
    pub sort_size: bool,
    /// Sort by time, newest first.
    pub sort_time: bool,
    /// Sort alphabetically by extension.
    pub sort_extension: bool,
    /// Do not sort; list entries in directory order.
    pub unsorted: bool,
    /// Natural sort of (version) numbers within text.
    pub version_sort: bool,
    /// Reverse order while sorting.
    pub reverse: bool,
    /// List entries by lines instead of by columns.
    pub across: bool,
    /// List one file per line.
    pub one_per_line: bool,
    /// Fill width with a comma separated list of entries.
    pub comma: bool,
    /// List directories themselves, not their contents.
    pub directory: bool,
    /// Append an indicator (one of */=@|) to entries.
    pub classify: bool,
    /// Append a / indicator to directories.
    pub slash_dirs: bool,
    /// Print the allocated number of blocks for each file.
    pub show_size: bool,
    /// Print the inode number of each file.
    pub inode: bool,
    /// With the long format: show numeric user and group IDs.
    pub numeric_uid_gid: bool,
    /// Long format without the group column.
    pub long_no_group: bool,
    /// Long format without the owner column.
    pub long_no_owner: bool,
    /// In a long listing, don't print group names.
    pub no_group: bool,
    /// Print sizes in human readable units.
    pub human_readable: bool,
    /// Human readable sizes in powers of 1000.
    pub si: bool,
    /// Follow symbolic links named on the command line.
    pub dereference_command_line: bool,
    /// Follow all symbolic links.
    pub dereference: bool,
    /// Group directories before files.
    pub group_directories_first: bool,
    /// End each output line with NUL, not newline.
    pub zero: bool,
    /// Tab stop width.
    pub tabsize: usize,
    /// Assume this terminal width instead of asking the terminal.
    pub term_width: Option<usize>,
    /// Do not list entries matching this shell pattern.
    pub ignore_pattern: Option<String>,
    /// Do not list entries ending with `~`.
    pub ignore_backups: bool,
    /// With the long format, print the author of each file.
    pub author: bool,
    /// Color mode: `auto`, `always` or `never` (with a few synonyms).
    pub color: String,
    /// Force color off, whatever the color mode says.
    pub no_color: bool,
    /// Print a tree view.
    pub tree: bool,
    /// Maximum depth for the tree and recursive views.
    pub max_depth: Option<usize>,
    /// Do not sort and show hidden entries, like the unsorted flag plus all.
    pub no_sort_all: bool,
    /// Hide entries matching this pattern, unless hidden entries are shown.
    pub hide_pattern: Option<String>,
    /// Whether standard output is a terminal, for the `auto` color mode.
    pub stdout_is_tty: bool,
}

pub open spec fn spec_show_hidden(a: Args) -> bool {
    a.all || a.almost_all || a.no_sort_all
}

pub open spec fn spec_show_dot_dirs(a: Args) -> bool {
    a.all || a.no_sort_all
}

pub open spec fn spec_is_long(a: Args) -> bool {
    a.long || a.long_no_group || a.long_no_owner || a.numeric_uid_gid
}

pub open spec fn spec_no_sort(a: Args) -> bool {
    a.unsorted || a.no_sort_all
}

pub open spec fn spec_use_color(a: Args) -> bool {
    if a.no_color {
        false
    } else if a.color@ == "always"@ || a.color@ == "yes"@ || a.color@ == "force"@ {
        true
    } else if a.color@ == "never"@ || a.color@ == "no"@ || a.color@ == "none"@ {
        false
    } else {
        a.stdout_is_tty
    }
}

impl Args {
    /// Whether hidden entries are shown.
    pub fn show_hidden(&self) -> (r: bool)
        ensures
            r == spec_show_hidden(*self),
    {
        self.all || self.almost_all || self.no_sort_all
    }

    /// Whether the synthetic `.` and `..` entries are shown.
    pub fn show_dot_dirs(&self) -> (r: bool)
        ensures
            r == spec_show_dot_dirs(*self),
    {
        self.all || self.no_sort_all
    }

    /// Whether any long-format flag is set.
    pub fn is_long(&self) -> (r: bool)
        ensures
            r == spec_is_long(*self),
    {
        self.long || self.long_no_group || self.long_no_owner || self.numeric_uid_gid
    }

    /// Whether output is colored: never under the force-off flag, then by the
    /// color mode, with `auto` following whether a terminal is attached.
    pub fn use_color(&self) -> (r: bool)
        ensures
            r == spec_use_color(*self),
    {
        if self.no_color {
            return false;
        }
        let cv = str_to_chars(self.color.as_str());
        if chars_eq_str(&cv, "always") || chars_eq_str(&cv, "yes") || chars_eq_str(&cv, "force") {
            return true;
        }
        if chars_eq_str(&cv, "never") || chars_eq_str(&cv, "no") || chars_eq_str(&cv, "none") {
            return false;
        }
        self.stdout_is_tty
    }

    /// Whether sorting is disabled.
    pub fn no_sort(&self) -> (r: bool)
        ensures
            r == spec_no_sort(*self),
    {
        self.unsorted || self.no_sort_all
    }
}

} // verus!
