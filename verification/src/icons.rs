//! The icon classifier: a rule table mapping lowercased exact filenames and
//! extensions to glyphs and colors, and the priority chain that picks one
//! icon for an entry (special node kinds, then directories, then symlinks,
//! then regular files by exact name, compound extension, simple extension,
//! executable bit, and a generic fallback).
use vstd::prelude::*;

use crate::foreign::{lower_of, lowercase, str_to_chars};
use crate::grid::esc_free;

verus! {

/// An icon entry: the glyph and its ANSI color code.
#[derive(Clone, Copy, Debug)]
pub struct IconEntry {
    pub icon: &'static str,
    pub color: &'static str,
}

impl IconEntry {
    pub fn new(icon: &'static str, color: &'static str) -> (r: IconEntry)
        ensures
            r.icon == icon,
            r.color == color,
    {
        IconEntry { icon, color }
    }

    /// The icon wrapped in ANSI color escape codes.
    pub fn colored(&self) -> (r: String)
        ensures
            r@ == "\u{1b}["@ + self.color@ + "m"@ + self.icon@ + "\u{1b}[0m"@,
    {
        let mut s = String::new();
        s.append("\u{1b}[");
        s.append(self.color);
        s.append("m");
        s.append(self.icon);
        s.append("\u{1b}[0m");
        proof {
            assert(s@ =~= "\u{1b}["@ + self.color@ + "m"@ + self.icon@ + "\u{1b}[0m"@);
        }
        s
    }

    /// The icon without color.
    pub fn plain(&self) -> (r: String)
        ensures
            r@ == self.icon@,
    {
        self.icon.to_owned()
    }
}

/// The glyph and color views of one entry.
pub open spec fn icon_views(e: IconEntry) -> (Seq<char>, Seq<char>) {
    (e.icon@, e.color@)
}

/// The rule a table gives one key: the value of the last entry carrying that
/// key, since a later registration deliberately overrides an earlier one.
pub open spec fn rule_value(t: Seq<(&'static str, IconEntry)>, k: Seq<char>) -> Option<
    (Seq<char>, Seq<char>),
>
    decreases t.len(),
{
    if t.len() == 0 {
        None
    } else if t.last().0@ == k {
        Some(icon_views(t.last().1))
    } else {
        rule_value(t.drop_last(), k)
    }
}

/// When a rule is registered for a key that already has one, the later
/// registration is authoritative: the table's rule at a key is the value of
/// its last entry with that key.
pub proof fn lemma_last_rule_wins(t: Seq<(&'static str, IconEntry)>, k: Seq<char>, u: int)
    requires
        0 <= u < t.len(),
        t[u].0@ == k,
        forall|v: int| u < v < t.len() ==> #[trigger] t[v].0@ != k,
    ensures
        rule_value(t, k) == Some(icon_views(t[u].1)),
    decreases t.len(),
{
    if u == t.len() - 1 {
    } else {
        assert(t.drop_last()[u] == t[u]);
        assert forall|v: int| u < v < t.drop_last().len() implies #[trigger] t.drop_last()[
            v
        ].0@ != k by {
            assert(t.drop_last()[v] == t[v]);
        }
        lemma_last_rule_wins(t.drop_last(), k, u);
        assert(t.last().0@ != k);
    }
}

/// A key that no entry carries has no rule.
pub proof fn lemma_no_rule(t: Seq<(&'static str, IconEntry)>, k: Seq<char>)
    requires
        forall|v: int| 0 <= v < t.len() ==> #[trigger] t[v].0@ != k,
    ensures
        rule_value(t, k) is None,
    decreases t.len(),
{
    if t.len() > 0 {
        assert forall|v: int| 0 <= v < t.drop_last().len() implies #[trigger] t.drop_last()[
            v
        ].0@ != k by {
            assert(t.drop_last()[v] == t[v]);
        }
        lemma_no_rule(t.drop_last(), k);
    }
}

/// Look a key up in the rule table, later entries winning.
pub fn rule_lookup(t: &Vec<(&'static str, IconEntry)>, key: &Vec<char>) -> (r: Option<
    IconEntry,
>)
    ensures
        match r {
            Some(e) => rule_value(t@, key@) == Some(icon_views(e)),
            None => rule_value(t@, key@) is None,
        },
{
    let mut i: usize = t.len();
    proof {
        assert(t@.take(t@.len() as int) == t@);
    }
    while i > 0
        invariant
            i <= t@.len(),
            rule_value(t@, key@) == rule_value(t@.take(i as int), key@),
        decreases i,
    {
        i = i - 1;
        proof {
            assert(t@.take(i + 1 as int).drop_last() =~= t@.take(i as int));
            assert(t@.take(i + 1 as int).last() == t@[i as int]);
        }
        if crate::text::chars_eq_str(key, t[i].0) {
            return Some(t[i].1);
        }
    }
    proof {
        assert(t@.take(0) =~= Seq::<(&'static str, IconEntry)>::empty());
    }
    None
}

} // verus!

verus! {

/// The least index at or after `from` holding the character, or -1.
pub open spec fn spec_find_from(s: Seq<char>, c: char, from: int) -> int
    decreases s.len() - from,
{
    if from < 0 || from >= s.len() {
        -1
    } else if s[from] == c {
        from
    } else {
        spec_find_from(s, c, from + 1)
    }
}

/// The greatest index holding the character, or -1.
pub open spec fn spec_rfind(s: Seq<char>, c: char) -> int
    decreases s.len(),
{
    if s.len() == 0 {
        -1
    } else if s.last() == c {
        s.len() - 1
    } else {
        spec_rfind(s.drop_last(), c)
    }
}

fn find_char_from(v: &Vec<char>, c: char, from: usize) -> (r: Option<usize>)
    ensures
        match r {
            Some(i) => from <= i < v@.len() && spec_find_from(v@, c, from as int) == i as int,
            None => spec_find_from(v@, c, from as int) == -1,
        },
{
    let mut i: usize = from;
    if i > v.len() {
        return None;
    }
    while i < v.len()
        invariant
            from <= i <= v@.len(),
            spec_find_from(v@, c, from as int) == spec_find_from(v@, c, i as int),
        decreases v@.len() - i,
    {
        if v[i] == c {
            return Some(i);
        }
        i = i + 1;
    }
    None
}

pub(crate) fn rfind_char(v: &Vec<char>, c: char) -> (r: Option<usize>)
    ensures
        match r {
            Some(i) => i < v@.len() && spec_rfind(v@, c) == i as int,
            None => spec_rfind(v@, c) == -1,
        },
{
    let mut i: usize = v.len();
    proof {
        assert(v@.take(v@.len() as int) == v@);
    }
    while i > 0
        invariant
            i <= v@.len(),
            spec_rfind(v@, c) == spec_rfind(v@.take(i as int), c),
        decreases i,
    {
        i = i - 1;
        proof {
            assert(v@.take(i + 1 as int).drop_last() =~= v@.take(i as int));
            assert(v@.take(i + 1 as int).last() == v@[i as int]);
        }
        if v[i] == c {
            return Some(i);
        }
    }
    proof {
        assert(v@.take(0) =~= Seq::<char>::empty());
    }
    None
}

/// The suffix of a character vector from index `k` on.
pub(crate) fn suffix_of(v: &Vec<char>, k: usize) -> (r: Vec<char>)
    requires
        k <= v@.len(),
    ensures
        r@ == v@.skip(k as int),
{
    let mut out: Vec<char> = Vec::new();
    let mut i: usize = k;
    while i < v.len()
        invariant
            k <= i <= v@.len(),
            out@ =~= v@.subrange(k as int, i as int),
        decreases v@.len() - i,
    {
        out.push(v[i]);
        i = i + 1;
    }
    proof {
        assert(out@ =~= v@.skip(k as int));
    }
    out
}

/// Fixed icons for the node kinds and fallbacks.
pub open spec fn spec_pipe_icon() -> (Seq<char>, Seq<char>) {
    ("\u{f731}"@, "33"@)
}

pub open spec fn spec_socket_icon() -> (Seq<char>, Seq<char>) {
    ("\u{f6a7}"@, "35"@)
}

pub open spec fn spec_block_device_icon() -> (Seq<char>, Seq<char>) {
    ("\u{f0a0}"@, "1;33"@)
}

pub open spec fn spec_char_device_icon() -> (Seq<char>, Seq<char>) {
    ("\u{e601}"@, "1;33"@)
}

pub open spec fn spec_dir_icon() -> (Seq<char>, Seq<char>) {
    ("\u{f115}"@, "1;34"@)
}

pub open spec fn spec_hidden_dir_icon() -> (Seq<char>, Seq<char>) {
    ("\u{f114}"@, "34"@)
}

pub open spec fn spec_symlink_icon() -> (Seq<char>, Seq<char>) {
    ("\u{f0c1}"@, "36"@)
}

pub open spec fn spec_exec_icon() -> (Seq<char>, Seq<char>) {
    ("\u{f489}"@, "1;32"@)
}

pub open spec fn spec_default_icon() -> (Seq<char>, Seq<char>) {
    ("\u{f016}"@, "37"@)
}

/// The rule the table gives a lowercased name: its exact name first, then its
/// compound extension (from the second dot), then its simple extension (from
/// the last dot).
pub open spec fn spec_name_rule(
    t: Seq<(&'static str, IconEntry)>,
    lower: Seq<char>,
) -> Option<(Seq<char>, Seq<char>)> {
    if rule_value(t, lower) is Some {
        rule_value(t, lower)
    } else {
        let first = spec_find_from(lower, '.', 0);
        let compound: Option<(Seq<char>, Seq<char>)> = if first >= 0 {
            let second = spec_find_from(lower, '.', first + 1);
            if second >= 0 {
                rule_value(t, lower.skip(second))
            } else {
                None
            }
        } else {
            None
        };
        if compound is Some {
            compound
        } else {
            let last = spec_rfind(lower, '.');
            if last >= 0 {
                rule_value(t, lower.skip(last))
            } else {
                None
            }
        }
    }
}

/// The one icon an entry gets, by the fixed priority chain: special node
/// kinds, then directories (exact-name rule, else the hidden or plain
/// directory icon), then symlinks (name rules, else the symlink icon, never
/// the executable or plain-file fallback), then regular files (name rules,
/// else the executable icon when the bit is set, else the generic file icon).
pub open spec fn spec_get_icon(
    t: Seq<(&'static str, IconEntry)>,
    name: Seq<char>,
    is_dir: bool,
    is_hidden: bool,
    is_symlink: bool,
    is_executable: bool,
    is_pipe: bool,
    is_socket: bool,
    is_block_device: bool,
    is_char_device: bool,
) -> (Seq<char>, Seq<char>) {
    if is_pipe {
        spec_pipe_icon()
    } else if is_socket {
        spec_socket_icon()
    } else if is_block_device {
        spec_block_device_icon()
    } else if is_char_device {
        spec_char_device_icon()
    } else {
        let lower = lower_of(name);
        if is_dir {
            if rule_value(t, lower) is Some {
                rule_value(t, lower)->0
            } else if is_hidden {
                spec_hidden_dir_icon()
            } else {
                spec_dir_icon()
            }
        } else if is_symlink {
            match spec_name_rule(t, lower) {
                Some(e) => e,
                None => spec_symlink_icon(),
            }
        } else {
            match spec_name_rule(t, lower) {
                Some(e) => e,
                None => if is_executable {
                    spec_exec_icon()
                } else {
                    spec_default_icon()
                },
            }
        }
    }
}

fn name_rule(t: &Vec<(&'static str, IconEntry)>, lower: &Vec<char>) -> (r: Option<IconEntry>)
    ensures
        match r {
            Some(e) => spec_name_rule(t@, lower@) == Some(icon_views(e)),
            None => spec_name_rule(t@, lower@) is None,
        },
{
    if let Some(e) = rule_lookup(t, lower) {
        return Some(e);
    }
    let n = lower.len();
    if let Some(first) = find_char_from(lower, '.', 0) {
        proof {
            assert(first < n);
        }
        if let Some(second) = find_char_from(lower, '.', first + 1) {
            let suf = suffix_of(lower, second);
            if let Some(e) = rule_lookup(t, &suf) {
                return Some(e);
            }
        }
    }
    if let Some(last) = rfind_char(lower, '.') {
        let suf = suffix_of(lower, last);
        if let Some(e) = rule_lookup(t, &suf) {
            return Some(e);
        }
    }
    None
}

/// Look up the icon for a file by name and type flags.
pub fn get_icon(icon_map: &Vec<(&'static str, IconEntry)>, name: &str, is_dir: bool,
    is_hidden: bool, is_symlink: bool, is_executable: bool, is_pipe: bool, is_socket: bool,
    is_block_device: bool, is_char_device: bool) -> (r: IconEntry)
    ensures
        icon_views(r) == spec_get_icon(icon_map@, name@, is_dir, is_hidden, is_symlink,
            is_executable, is_pipe, is_socket, is_block_device, is_char_device),
{
    if is_pipe {
        return IconEntry { icon: "\u{f731}", color: "33" };
    }
    if is_socket {
        return IconEntry { icon: "\u{f6a7}", color: "35" };
    }
    if is_block_device {
        return IconEntry { icon: "\u{f0a0}", color: "1;33" };
    }
    if is_char_device {
        return IconEntry { icon: "\u{e601}", color: "1;33" };
    }
    let lower = str_to_chars(lowercase(name).as_str());
    if is_dir {
        if let Some(e) = rule_lookup(icon_map, &lower) {
            return e;
        }
        if is_hidden {
            return IconEntry { icon: "\u{f114}", color: "34" };
        }
        return IconEntry { icon: "\u{f115}", color: "1;34" };
    }
    if is_symlink {
        if let Some(e) = name_rule(icon_map, &lower) {
            return e;
        }
        return IconEntry { icon: "\u{f0c1}", color: "36" };
    }
    if let Some(e) = name_rule(icon_map, &lower) {
        return e;
    }
    if is_executable {
        return IconEntry { icon: "\u{f489}", color: "1;32" };
    }
    IconEntry { icon: "\u{f016}", color: "37" }
}

/// A symlink that no name or extension rule resolves always gets the symlink
/// icon, which is not the plain-file fallback; and a hidden directory whose
/// name no rule covers gets the hidden-directory icon, not the plain one.
pub proof fn lemma_classifier_fallbacks(
    t: Seq<(&'static str, IconEntry)>,
    name: Seq<char>,
    is_hidden: bool,
    is_executable: bool,
)
    requires
        spec_name_rule(t, lower_of(name)) is None,
    ensures
        spec_get_icon(t, name, false, is_hidden, true, is_executable, false, false, false,
            false) == spec_symlink_icon(),
        spec_get_icon(t, name, false, is_hidden, true, is_executable, false, false, false,
            false) != spec_default_icon(),
        spec_get_icon(t, name, false, is_hidden, true, is_executable, false, false, false,
            false) != spec_exec_icon(),
        rule_value(t, lower_of(name)) is None && is_hidden ==> spec_get_icon(t, name, true,
            is_hidden, false, false, false, false, false, false) == spec_hidden_dir_icon()
            && spec_get_icon(t, name, true, is_hidden, false, false, false, false, false,
            false) != spec_dir_icon(),
{
    reveal_strlit("\u{f0c1}");
    reveal_strlit("\u{f016}");
    reveal_strlit("\u{f489}");
    reveal_strlit("\u{f114}");
    reveal_strlit("\u{f115}");
    assert(spec_symlink_icon().0[0] == '\u{f0c1}');
    assert(spec_default_icon().0[0] == '\u{f016}');
    assert(spec_exec_icon().0[0] == '\u{f489}');
    assert(spec_hidden_dir_icon().0[0] == '\u{f114}');
    assert(spec_dir_icon().0[0] == '\u{f115}');
    assert(spec_symlink_icon().0 != spec_default_icon().0);
    assert(spec_symlink_icon().0 != spec_exec_icon().0);
    assert(spec_hidden_dir_icon().0 != spec_dir_icon().0);
}

/// A rule table whose glyphs and color codes are free of the raw escape
/// character, as the built-in table's all are.
pub open spec fn spec_table_esc_free(t: Seq<(&'static str, IconEntry)>) -> bool {
    forall|u: int|
        0 <= u < t.len() ==> esc_free((#[trigger] t[u]).1.icon@) && esc_free(t[u].1.color@)
}

/// A rule a table yields is the value of one of its entries.
proof fn lemma_rule_value_entry(t: Seq<(&'static str, IconEntry)>, k: Seq<char>) -> (u: int)
    requires
        rule_value(t, k) is Some,
    ensures
        0 <= u < t.len(),
        rule_value(t, k) == Some(icon_views(t[u].1)),
    decreases t.len(),
{
    assert(t.len() > 0);
    if t.last().0@ == k {
        assert(t[t.len() - 1] == t.last());
        t.len() - 1
    } else {
        let u = lemma_rule_value_entry(t.drop_last(), k);
        assert(t.drop_last()[u] == t[u]);
        u
    }
}

/// What the name rules yield comes from the table, so its glyph and color
/// are escape-free when the table's are.
proof fn lemma_name_rule_esc_free(t: Seq<(&'static str, IconEntry)>, lower: Seq<char>)
    requires
        spec_table_esc_free(t),
        spec_name_rule(t, lower) is Some,
    ensures
        spec_name_rule(t, lower) matches Some(p) ==> esc_free(p.0) && esc_free(p.1),
{
    if rule_value(t, lower) is Some {
        let u = lemma_rule_value_entry(t, lower);
    } else {
        let first = spec_find_from(lower, '.', 0);
        let second: int = if first >= 0 {
            spec_find_from(lower, '.', first + 1)
        } else {
            -1
        };
        if first >= 0 && second >= 0 && rule_value(t, lower.skip(second)) is Some {
            let u = lemma_rule_value_entry(t, lower.skip(second));
        } else {
            let last = spec_rfind(lower, '.');
            assert(last >= 0 && rule_value(t, lower.skip(last)) is Some);
            let u = lemma_rule_value_entry(t, lower.skip(last));
        }
    }
}

/// The glyph and color the classifier picks are free of the raw escape
/// character whenever the table's are: every fallback is a fixed glyph with
/// a fixed code, and everything else comes from the table.
pub proof fn lemma_get_icon_esc_free(
    t: Seq<(&'static str, IconEntry)>,
    name: Seq<char>,
    is_dir: bool,
    is_hidden: bool,
    is_symlink: bool,
    is_executable: bool,
    is_pipe: bool,
    is_socket: bool,
    is_block_device: bool,
    is_char_device: bool,
)
    requires
        spec_table_esc_free(t),
    ensures
        esc_free(spec_get_icon(t, name, is_dir, is_hidden, is_symlink, is_executable, is_pipe,
            is_socket, is_block_device, is_char_device).0),
        esc_free(spec_get_icon(t, name, is_dir, is_hidden, is_symlink, is_executable, is_pipe,
            is_socket, is_block_device, is_char_device).1),
{
    reveal_strlit("\u{f731}");
    reveal_strlit("\u{f6a7}");
    reveal_strlit("\u{f0a0}");
    reveal_strlit("\u{e601}");
    reveal_strlit("\u{f115}");
    reveal_strlit("\u{f114}");
    reveal_strlit("\u{f0c1}");
    reveal_strlit("\u{f489}");
    reveal_strlit("\u{f016}");
    reveal_strlit("33");
    reveal_strlit("35");
    reveal_strlit("1;33");
    reveal_strlit("1;34");
    reveal_strlit("34");
    reveal_strlit("36");
    reveal_strlit("1;32");
    reveal_strlit("37");
    if !(is_pipe || is_socket || is_block_device || is_char_device) {
        let lower = lower_of(name);
        if is_dir {
            if rule_value(t, lower) is Some {
                let u = lemma_rule_value_entry(t, lower);
            }
        } else {
            if spec_name_rule(t, lower) is Some {
                lemma_name_rule_esc_free(t, lower);
            }
        }
    }
}

} // verus!

verus! {

/// The rows one batch of registrations adds, in order.
pub open spec fn spec_icon_rows_a() -> Seq<(&'static str, IconEntry)> {
    seq![
        (".gitignore", IconEntry { icon: "\u{e702}", color: "91" }),
        (".gitconfig", IconEntry { icon: "\u{e702}", color: "91" }),
        (".gitattributes", IconEntry { icon: "\u{e702}", color: "91" }),
        (".gitmodules", IconEntry { icon: "\u{e702}", color: "91" }),
        (".gitlab-ci.yml", IconEntry { icon: "\u{e702}", color: "91" }),
        (".github", IconEntry { icon: "\u{e702}", color: "90" }),
        ("dockerfile", IconEntry { icon: "\u{f308}", color: "94" }),
        (".dockerignore", IconEntry { icon: "\u{f308}", color: "94" }),
        ("docker-compose.yml", IconEntry { icon: "\u{f308}", color: "94" }),
        ("docker-compose.yaml", IconEntry { icon: "\u{f308}", color: "94" }),
        ("license", IconEntry { icon: "\u{f718}", color: "90" }),
        ("license.md", IconEntry { icon: "\u{f718}", color: "90" }),
        ("license.txt", IconEntry { icon: "\u{f718}", color: "90" }),
        ("readme.md", IconEntry { icon: "\u{f48a}", color: "96" }),
        ("readme", IconEntry { icon: "\u{f48a}", color: "96" }),
        ("readme.txt", IconEntry { icon: "\u{f48a}", color: "96" }),
        ("makefile", IconEntry { icon: "\u{f085}", color: "90" }),
        ("cmakelists.txt", IconEntry { icon: "\u{f085}", color: "90" }),
        (".editorconfig", IconEntry { icon: "\u{f085}", color: "90" }),
        (".eslintrc", IconEntry { icon: "\u{f085}", color: "95" }),
        (".eslintrc.js", IconEntry { icon: "\u{f085}", color: "95" }),
        (".eslintrc.json", IconEntry { icon: "\u{f085}", color: "95" }),
        (".eslintrc.yml", IconEntry { icon: "\u{f085}", color: "95" }),
        (".prettierrc", IconEntry { icon: "\u{f085}", color: "95" }),
        (".prettierrc.js", IconEntry { icon: "\u{f085}", color: "95" }),
        (".prettierrc.json", IconEntry { icon: "\u{f085}", color: "95" }),
        (".prettierrc.yml", IconEntry { icon: "\u{f085}", color: "95" }),
        (".npmrc", IconEntry { icon: "\u{e71e}", color: "91" }),
        (".nvmrc", IconEntry { icon: "\u{e718}", color: "92" }),
        (".babelrc", IconEntry { icon: "\u{f085}", color: "93" }),
        (".browserslistrc", IconEntry { icon: "\u{f085}", color: "90" }),
        ("tsconfig.json", IconEntry { icon: "\u{e628}", color: "94" }),
        ("jsconfig.json", IconEntry { icon: "\u{e781}", color: "93" }),
        (".env", IconEntry { icon: "\u{f462}", color: "90" }),
        (".env.local", IconEntry { icon: "\u{f462}", color: "90" }),
        (".env.development", IconEntry { icon: "\u{f462}", color: "90" }),
        (".env.production", IconEntry { icon: "\u{f462}", color: "90" }),
        (".env.test", IconEntry { icon: "\u{f462}", color: "90" }),
        ("vagrantfile", IconEntry { icon: "\u{f085}", color: "94" }),
        ("gruntfile.js", IconEntry { icon: "\u{e74c}", color: "93" }),
    ]
}

fn icon_rules_a(t: &mut Vec<(&'static str, IconEntry)>)
    ensures
        final(t)@.len() == old(t)@.len() + 40,
        final(t)@ == old(t)@ + spec_icon_rows_a(),
{
    t.push((".gitignore", IconEntry { icon: "\u{e702}", color: "91" }));
    t.push((".gitconfig", IconEntry { icon: "\u{e702}", color: "91" }));
    t.push((".gitattributes", IconEntry { icon: "\u{e702}", color: "91" }));
    t.push((".gitmodules", IconEntry { icon: "\u{e702}", color: "91" }));
    t.push((".gitlab-ci.yml", IconEntry { icon: "\u{e702}", color: "91" }));
    t.push((".github", IconEntry { icon: "\u{e702}", color: "90" }));
    t.push(("dockerfile", IconEntry { icon: "\u{f308}", color: "94" }));
    t.push((".dockerignore", IconEntry { icon: "\u{f308}", color: "94" }));
    t.push(("docker-compose.yml", IconEntry { icon: "\u{f308}", color: "94" }));
    t.push(("docker-compose.yaml", IconEntry { icon: "\u{f308}", color: "94" }));
    t.push(("license", IconEntry { icon: "\u{f718}", color: "90" }));
    t.push(("license.md", IconEntry { icon: "\u{f718}", color: "90" }));
    t.push(("license.txt", IconEntry { icon: "\u{f718}", color: "90" }));
    t.push(("readme.md", IconEntry { icon: "\u{f48a}", color: "96" }));
    t.push(("readme", IconEntry { icon: "\u{f48a}", color: "96" }));
    t.push(("readme.txt", IconEntry { icon: "\u{f48a}", color: "96" }));
    t.push(("makefile", IconEntry { icon: "\u{f085}", color: "90" }));
    t.push(("cmakelists.txt", IconEntry { icon: "\u{f085}", color: "90" }));
    t.push((".editorconfig", IconEntry { icon: "\u{f085}", color: "90" }));
    t.push((".eslintrc", IconEntry { icon: "\u{f085}", color: "95" }));
    t.push((".eslintrc.js", IconEntry { icon: "\u{f085}", color: "95" }));
    t.push((".eslintrc.json", IconEntry { icon: "\u{f085}", color: "95" }));
    t.push((".eslintrc.yml", IconEntry { icon: "\u{f085}", color: "95" }));
    t.push((".prettierrc", IconEntry { icon: "\u{f085}", color: "95" }));
    t.push((".prettierrc.js", IconEntry { icon: "\u{f085}", color: "95" }));
    t.push((".prettierrc.json", IconEntry { icon: "\u{f085}", color: "95" }));
    t.push((".prettierrc.yml", IconEntry { icon: "\u{f085}", color: "95" }));
    t.push((".npmrc", IconEntry { icon: "\u{e71e}", color: "91" }));
    t.push((".nvmrc", IconEntry { icon: "\u{e718}", color: "92" }));
    t.push((".babelrc", IconEntry { icon: "\u{f085}", color: "93" }));
    t.push((".browserslistrc", IconEntry { icon: "\u{f085}", color: "90" }));
    t.push(("tsconfig.json", IconEntry { icon: "\u{e628}", color: "94" }));
    t.push(("jsconfig.json", IconEntry { icon: "\u{e781}", color: "93" }));
    t.push((".env", IconEntry { icon: "\u{f462}", color: "90" }));
    t.push((".env.local", IconEntry { icon: "\u{f462}", color: "90" }));
    t.push((".env.development", IconEntry { icon: "\u{f462}", color: "90" }));
    t.push((".env.production", IconEntry { icon: "\u{f462}", color: "90" }));
    t.push((".env.test", IconEntry { icon: "\u{f462}", color: "90" }));
    t.push(("vagrantfile", IconEntry { icon: "\u{f085}", color: "94" }));
    t.push(("gruntfile.js", IconEntry { icon: "\u{e74c}", color: "93" }));
    proof {
        assert(t@ =~= old(t)@ + spec_icon_rows_a());
    }
}

/// The rows one batch of registrations adds, in order.
pub open spec fn spec_icon_rows_b() -> Seq<(&'static str, IconEntry)> {
    seq![
        ("gulpfile.js", IconEntry { icon: "\u{e610}", color: "91" }),
        ("webpack.config.js", IconEntry { icon: "\u{f72b}", color: "94" }),
        ("rollup.config.js", IconEntry { icon: "\u{f085}", color: "91" }),
        ("vite.config.js", IconEntry { icon: "\u{f085}", color: "95" }),
        ("vite.config.ts", IconEntry { icon: "\u{f085}", color: "95" }),
        ("next.config.js", IconEntry { icon: "\u{f085}", color: "37" }),
        ("nuxt.config.js", IconEntry { icon: "\u{f085}", color: "92" }),
        ("angular.json", IconEntry { icon: "\u{e753}", color: "91" }),
        ("tailwind.config.js", IconEntry { icon: "\u{f085}", color: "36" }),
        ("tailwind.config.ts", IconEntry { icon: "\u{f085}", color: "36" }),
        ("postcss.config.js", IconEntry { icon: "\u{f085}", color: "91" }),
        ("jest.config.js", IconEntry { icon: "\u{f085}", color: "91" }),
        ("jest.config.ts", IconEntry { icon: "\u{f085}", color: "91" }),
        ("vitest.config.ts", IconEntry { icon: "\u{f085}", color: "92" }),
        ("cargo.toml", IconEntry { icon: "\u{e7a8}", color: "91" }),
        ("cargo.lock", IconEntry { icon: "\u{f023}", color: "90" }),
        ("package.json", IconEntry { icon: "\u{e71e}", color: "91" }),
        ("package-lock.json", IconEntry { icon: "\u{f023}", color: "90" }),
        ("yarn.lock", IconEntry { icon: "\u{f023}", color: "90" }),
        ("pnpm-lock.yaml", IconEntry { icon: "\u{f023}", color: "90" }),
        ("composer.json", IconEntry { icon: "\u{e608}", color: "90" }),
        ("composer.lock", IconEntry { icon: "\u{f023}", color: "90" }),
        ("gemfile", IconEntry { icon: "\u{e21e}", color: "91" }),
        ("gemfile.lock", IconEntry { icon: "\u{f023}", color: "90" }),
        ("requirements.txt", IconEntry { icon: "\u{e606}", color: "92" }),
        ("pipfile", IconEntry { icon: "\u{e606}", color: "92" }),
        ("pipfile.lock", IconEntry { icon: "\u{f023}", color: "90" }),
        ("pyproject.toml", IconEntry { icon: "\u{e606}", color: "92" }),
        ("setup.py", IconEntry { icon: "\u{e606}", color: "92" }),
        ("setup.cfg", IconEntry { icon: "\u{e606}", color: "92" }),
        ("go.mod", IconEntry { icon: "\u{e626}", color: "96" }),
        ("go.sum", IconEntry { icon: "\u{f023}", color: "90" }),
        ("pubspec.yaml", IconEntry { icon: "\u{e798}", color: "94" }),
        ("pubspec.lock", IconEntry { icon: "\u{f023}", color: "90" }),
        ("build.gradle", IconEntry { icon: "\u{e660}", color: "94" }),
        ("build.gradle.kts", IconEntry { icon: "\u{e660}", color: "94" }),
        ("settings.gradle", IconEntry { icon: "\u{e660}", color: "94" }),
        ("pom.xml", IconEntry { icon: "\u{e674}", color: "91" }),
        ("mix.exs", IconEntry { icon: "\u{e62d}", color: "95" }),
        ("mix.lock", IconEntry { icon: "\u{f023}", color: "90" }),
    ]
}

fn icon_rules_b(t: &mut Vec<(&'static str, IconEntry)>)
    ensures
        final(t)@.len() == old(t)@.len() + 40,
        final(t)@ == old(t)@ + spec_icon_rows_b(),
{
    t.push(("gulpfile.js", IconEntry { icon: "\u{e610}", color: "91" }));
    t.push(("webpack.config.js", IconEntry { icon: "\u{f72b}", color: "94" }));
    t.push(("rollup.config.js", IconEntry { icon: "\u{f085}", color: "91" }));
    t.push(("vite.config.js", IconEntry { icon: "\u{f085}", color: "95" }));
    t.push(("vite.config.ts", IconEntry { icon: "\u{f085}", color: "95" }));
    t.push(("next.config.js", IconEntry { icon: "\u{f085}", color: "37" }));
    t.push(("nuxt.config.js", IconEntry { icon: "\u{f085}", color: "92" }));
    t.push(("angular.json", IconEntry { icon: "\u{e753}", color: "91" }));
    t.push(("tailwind.config.js", IconEntry { icon: "\u{f085}", color: "36" }));
    t.push(("tailwind.config.ts", IconEntry { icon: "\u{f085}", color: "36" }));
    t.push(("postcss.config.js", IconEntry { icon: "\u{f085}", color: "91" }));
    t.push(("jest.config.js", IconEntry { icon: "\u{f085}", color: "91" }));
    t.push(("jest.config.ts", IconEntry { icon: "\u{f085}", color: "91" }));
    t.push(("vitest.config.ts", IconEntry { icon: "\u{f085}", color: "92" }));
    t.push(("cargo.toml", IconEntry { icon: "\u{e7a8}", color: "91" }));
    t.push(("cargo.lock", IconEntry { icon: "\u{f023}", color: "90" }));
    t.push(("package.json", IconEntry { icon: "\u{e71e}", color: "91" }));
    t.push(("package-lock.json", IconEntry { icon: "\u{f023}", color: "90" }));
    t.push(("yarn.lock", IconEntry { icon: "\u{f023}", color: "90" }));
    t.push(("pnpm-lock.yaml", IconEntry { icon: "\u{f023}", color: "90" }));
    t.push(("composer.json", IconEntry { icon: "\u{e608}", color: "90" }));
    t.push(("composer.lock", IconEntry { icon: "\u{f023}", color: "90" }));
    t.push(("gemfile", IconEntry { icon: "\u{e21e}", color: "91" }));
    t.push(("gemfile.lock", IconEntry { icon: "\u{f023}", color: "90" }));
    t.push(("requirements.txt", IconEntry { icon: "\u{e606}", color: "92" }));
    t.push(("pipfile", IconEntry { icon: "\u{e606}", color: "92" }));
    t.push(("pipfile.lock", IconEntry { icon: "\u{f023}", color: "90" }));
    t.push(("pyproject.toml", IconEntry { icon: "\u{e606}", color: "92" }));
    t.push(("setup.py", IconEntry { icon: "\u{e606}", color: "92" }));
    t.push(("setup.cfg", IconEntry { icon: "\u{e606}", color: "92" }));
    t.push(("go.mod", IconEntry { icon: "\u{e626}", color: "96" }));
    t.push(("go.sum", IconEntry { icon: "\u{f023}", color: "90" }));
    t.push(("pubspec.yaml", IconEntry { icon: "\u{e798}", color: "94" }));
    t.push(("pubspec.lock", IconEntry { icon: "\u{f023}", color: "90" }));
    t.push(("build.gradle", IconEntry { icon: "\u{e660}", color: "94" }));
    t.push(("build.gradle.kts", IconEntry { icon: "\u{e660}", color: "94" }));
    t.push(("settings.gradle", IconEntry { icon: "\u{e660}", color: "94" }));
    t.push(("pom.xml", IconEntry { icon: "\u{e674}", color: "91" }));
    t.push(("mix.exs", IconEntry { icon: "\u{e62d}", color: "95" }));
    t.push(("mix.lock", IconEntry { icon: "\u{f023}", color: "90" }));
    proof {
        assert(t@ =~= old(t)@ + spec_icon_rows_b());
    }
}

/// The rows one batch of registrations adds, in order.
pub open spec fn spec_icon_rows_c() -> Seq<(&'static str, IconEntry)> {
    seq![
        ("flake.nix", IconEntry { icon: "\u{f313}", color: "94" }),
        ("flake.lock", IconEntry { icon: "\u{f023}", color: "90" }),
        ("default.nix", IconEntry { icon: "\u{f313}", color: "94" }),
        ("shell.nix", IconEntry { icon: "\u{f313}", color: "94" }),
        (".travis.yml", IconEntry { icon: "\u{e77e}", color: "91" }),
        ("jenkinsfile", IconEntry { icon: "\u{e767}", color: "91" }),
        (".circleci", IconEntry { icon: "\u{f085}", color: "92" }),
        (".py", IconEntry { icon: "\u{e606}", color: "92" }),
        (".pyc", IconEntry { icon: "\u{e606}", color: "90" }),
        (".pyo", IconEntry { icon: "\u{e606}", color: "90" }),
        (".pyd", IconEntry { icon: "\u{e606}", color: "90" }),
        (".pyw", IconEntry { icon: "\u{e606}", color: "92" }),
        (".pyx", IconEntry { icon: "\u{e606}", color: "92" }),
        (".pxd", IconEntry { icon: "\u{e606}", color: "92" }),
        (".ipynb", IconEntry { icon: "\u{e606}", color: "93" }),
        (".js", IconEntry { icon: "\u{e781}", color: "93" }),
        (".jsx", IconEntry { icon: "\u{e7ba}", color: "96" }),
        (".ts", IconEntry { icon: "\u{e628}", color: "94" }),
        (".tsx", IconEntry { icon: "\u{e7ba}", color: "96" }),
        (".mjs", IconEntry { icon: "\u{e781}", color: "93" }),
        (".cjs", IconEntry { icon: "\u{e781}", color: "93" }),
        (".java", IconEntry { icon: "\u{e738}", color: "93" }),
        (".class", IconEntry { icon: "\u{e738}", color: "90" }),
        (".jar", IconEntry { icon: "\u{e738}", color: "93" }),
        (".war", IconEntry { icon: "\u{e738}", color: "93" }),
        (".gradle", IconEntry { icon: "\u{e660}", color: "94" }),
        (".c", IconEntry { icon: "\u{e61e}", color: "96" }),
        (".cpp", IconEntry { icon: "\u{e61d}", color: "96" }),
        (".cc", IconEntry { icon: "\u{e61d}", color: "96" }),
        (".cxx", IconEntry { icon: "\u{e61d}", color: "96" }),
        (".c++", IconEntry { icon: "\u{e61d}", color: "96" }),
        (".h", IconEntry { icon: "\u{e61e}", color: "96" }),
        (".hpp", IconEntry { icon: "\u{e61d}", color: "96" }),
        (".hh", IconEntry { icon: "\u{e61d}", color: "96" }),
        (".hxx", IconEntry { icon: "\u{e61d}", color: "96" }),
        (".h++", IconEntry { icon: "\u{e61d}", color: "96" }),
        (".rs", IconEntry { icon: "\u{e7a8}", color: "91" }),
        (".rlib", IconEntry { icon: "\u{e7a8}", color: "90" }),
        (".go", IconEntry { icon: "\u{e626}", color: "96" }),
        (".php", IconEntry { icon: "\u{e608}", color: "95" }),
    ]
}

fn icon_rules_c(t: &mut Vec<(&'static str, IconEntry)>)
    ensures
        final(t)@.len() == old(t)@.len() + 40,
        final(t)@ == old(t)@ + spec_icon_rows_c(),
{
    t.push(("flake.nix", IconEntry { icon: "\u{f313}", color: "94" }));
    t.push(("flake.lock", IconEntry { icon: "\u{f023}", color: "90" }));
    t.push(("default.nix", IconEntry { icon: "\u{f313}", color: "94" }));
    t.push(("shell.nix", IconEntry { icon: "\u{f313}", color: "94" }));
    t.push((".travis.yml", IconEntry { icon: "\u{e77e}", color: "91" }));
    t.push(("jenkinsfile", IconEntry { icon: "\u{e767}", color: "91" }));
    t.push((".circleci", IconEntry { icon: "\u{f085}", color: "92" }));
    t.push((".py", IconEntry { icon: "\u{e606}", color: "92" }));
    t.push((".pyc", IconEntry { icon: "\u{e606}", color: "90" }));
    t.push((".pyo", IconEntry { icon: "\u{e606}", color: "90" }));
    t.push((".pyd", IconEntry { icon: "\u{e606}", color: "90" }));
    t.push((".pyw", IconEntry { icon: "\u{e606}", color: "92" }));
    t.push((".pyx", IconEntry { icon: "\u{e606}", color: "92" }));
    t.push((".pxd", IconEntry { icon: "\u{e606}", color: "92" }));
    t.push((".ipynb", IconEntry { icon: "\u{e606}", color: "93" }));
    t.push((".js", IconEntry { icon: "\u{e781}", color: "93" }));
    t.push((".jsx", IconEntry { icon: "\u{e7ba}", color: "96" }));
    t.push((".ts", IconEntry { icon: "\u{e628}", color: "94" }));
    t.push((".tsx", IconEntry { icon: "\u{e7ba}", color: "96" }));
    t.push((".mjs", IconEntry { icon: "\u{e781}", color: "93" }));
    t.push((".cjs", IconEntry { icon: "\u{e781}", color: "93" }));
    t.push((".java", IconEntry { icon: "\u{e738}", color: "93" }));
    t.push((".class", IconEntry { icon: "\u{e738}", color: "90" }));
    t.push((".jar", IconEntry { icon: "\u{e738}", color: "93" }));
    t.push((".war", IconEntry { icon: "\u{e738}", color: "93" }));
    t.push((".gradle", IconEntry { icon: "\u{e660}", color: "94" }));
    t.push((".c", IconEntry { icon: "\u{e61e}", color: "96" }));
    t.push((".cpp", IconEntry { icon: "\u{e61d}", color: "96" }));
    t.push((".cc", IconEntry { icon: "\u{e61d}", color: "96" }));
    t.push((".cxx", IconEntry { icon: "\u{e61d}", color: "96" }));
    t.push((".c++", IconEntry { icon: "\u{e61d}", color: "96" }));
    t.push((".h", IconEntry { icon: "\u{e61e}", color: "96" }));
    t.push((".hpp", IconEntry { icon: "\u{e61d}", color: "96" }));
    t.push((".hh", IconEntry { icon: "\u{e61d}", color: "96" }));
    t.push((".hxx", IconEntry { icon: "\u{e61d}", color: "96" }));
    t.push((".h++", IconEntry { icon: "\u{e61d}", color: "96" }));
    t.push((".rs", IconEntry { icon: "\u{e7a8}", color: "91" }));
    t.push((".rlib", IconEntry { icon: "\u{e7a8}", color: "90" }));
    t.push((".go", IconEntry { icon: "\u{e626}", color: "96" }));
    t.push((".php", IconEntry { icon: "\u{e608}", color: "95" }));
    proof {
        assert(t@ =~= old(t)@ + spec_icon_rows_c());
    }
}

/// The rows one batch of registrations adds, in order.
pub open spec fn spec_icon_rows_d() -> Seq<(&'static str, IconEntry)> {
    seq![
        (".phtml", IconEntry { icon: "\u{e608}", color: "95" }),
        (".rb", IconEntry { icon: "\u{e21e}", color: "91" }),
        (".erb", IconEntry { icon: "\u{e21e}", color: "91" }),
        (".rake", IconEntry { icon: "\u{e21e}", color: "91" }),
        (".gemspec", IconEntry { icon: "\u{e21e}", color: "91" }),
        (".swift", IconEntry { icon: "\u{e755}", color: "93" }),
        (".kt", IconEntry { icon: "\u{e634}", color: "93" }),
        (".kts", IconEntry { icon: "\u{e634}", color: "93" }),
        (".lua", IconEntry { icon: "\u{e620}", color: "94" }),
        (".dart", IconEntry { icon: "\u{e798}", color: "94" }),
        (".hs", IconEntry { icon: "\u{e61f}", color: "95" }),
        (".lhs", IconEntry { icon: "\u{e61f}", color: "95" }),
        (".cabal", IconEntry { icon: "\u{e61f}", color: "95" }),
        (".r", IconEntry { icon: "\u{f25d}", color: "94" }),
        (".rmd", IconEntry { icon: "\u{f25d}", color: "94" }),
        (".jl", IconEntry { icon: "\u{e624}", color: "95" }),
        (".pl", IconEntry { icon: "\u{e769}", color: "94" }),
        (".pm", IconEntry { icon: "\u{e769}", color: "94" }),
        (".sh", IconEntry { icon: "\u{f489}", color: "32" }),
        (".bash", IconEntry { icon: "\u{f489}", color: "32" }),
        (".zsh", IconEntry { icon: "\u{f489}", color: "32" }),
        (".fish", IconEntry { icon: "\u{f489}", color: "32" }),
        (".ksh", IconEntry { icon: "\u{f489}", color: "32" }),
        (".csh", IconEntry { icon: "\u{f489}", color: "32" }),
        (".tcsh", IconEntry { icon: "\u{f489}", color: "32" }),
        (".ps1", IconEntry { icon: "\u{f489}", color: "94" }),
        (".psm1", IconEntry { icon: "\u{f489}", color: "94" }),
        (".psd1", IconEntry { icon: "\u{f489}", color: "94" }),
        (".bat", IconEntry { icon: "\u{f489}", color: "92" }),
        (".cmd", IconEntry { icon: "\u{f489}", color: "92" }),
        (".cs", IconEntry { icon: "\u{f81a}", color: "94" }),
        (".csx", IconEntry { icon: "\u{f81a}", color: "94" }),
        (".csproj", IconEntry { icon: "\u{f81a}", color: "94" }),
        (".sln", IconEntry { icon: "\u{f81a}", color: "95" }),
        (".fs", IconEntry { icon: "\u{e7a7}", color: "94" }),
        (".fsx", IconEntry { icon: "\u{e7a7}", color: "94" }),
        (".fsi", IconEntry { icon: "\u{e7a7}", color: "94" }),
        (".fsproj", IconEntry { icon: "\u{e7a7}", color: "94" }),
        (".vb", IconEntry { icon: "\u{f81a}", color: "94" }),
        (".vbs", IconEntry { icon: "\u{f81a}", color: "94" }),
    ]
}

fn icon_rules_d(t: &mut Vec<(&'static str, IconEntry)>)
    ensures
        final(t)@.len() == old(t)@.len() + 40,
        final(t)@ == old(t)@ + spec_icon_rows_d(),
{
    t.push((".phtml", IconEntry { icon: "\u{e608}", color: "95" }));
    t.push((".rb", IconEntry { icon: "\u{e21e}", color: "91" }));
    t.push((".erb", IconEntry { icon: "\u{e21e}", color: "91" }));
    t.push((".rake", IconEntry { icon: "\u{e21e}", color: "91" }));
    t.push((".gemspec", IconEntry { icon: "\u{e21e}", color: "91" }));
    t.push((".swift", IconEntry { icon: "\u{e755}", color: "93" }));
    t.push((".kt", IconEntry { icon: "\u{e634}", color: "93" }));
    t.push((".kts", IconEntry { icon: "\u{e634}", color: "93" }));
    t.push((".lua", IconEntry { icon: "\u{e620}", color: "94" }));
    t.push((".dart", IconEntry { icon: "\u{e798}", color: "94" }));
    t.push((".hs", IconEntry { icon: "\u{e61f}", color: "95" }));
    t.push((".lhs", IconEntry { icon: "\u{e61f}", color: "95" }));
    t.push((".cabal", IconEntry { icon: "\u{e61f}", color: "95" }));
    t.push((".r", IconEntry { icon: "\u{f25d}", color: "94" }));
    t.push((".rmd", IconEntry { icon: "\u{f25d}", color: "94" }));
    t.push((".jl", IconEntry { icon: "\u{e624}", color: "95" }));
    t.push((".pl", IconEntry { icon: "\u{e769}", color: "94" }));
    t.push((".pm", IconEntry { icon: "\u{e769}", color: "94" }));
    t.push((".sh", IconEntry { icon: "\u{f489}", color: "32" }));
    t.push((".bash", IconEntry { icon: "\u{f489}", color: "32" }));
    t.push((".zsh", IconEntry { icon: "\u{f489}", color: "32" }));
    t.push((".fish", IconEntry { icon: "\u{f489}", color: "32" }));
    t.push((".ksh", IconEntry { icon: "\u{f489}", color: "32" }));
    t.push((".csh", IconEntry { icon: "\u{f489}", color: "32" }));
    t.push((".tcsh", IconEntry { icon: "\u{f489}", color: "32" }));
    t.push((".ps1", IconEntry { icon: "\u{f489}", color: "94" }));
    t.push((".psm1", IconEntry { icon: "\u{f489}", color: "94" }));
    t.push((".psd1", IconEntry { icon: "\u{f489}", color: "94" }));
    t.push((".bat", IconEntry { icon: "\u{f489}", color: "92" }));
    t.push((".cmd", IconEntry { icon: "\u{f489}", color: "92" }));
    t.push((".cs", IconEntry { icon: "\u{f81a}", color: "94" }));
    t.push((".csx", IconEntry { icon: "\u{f81a}", color: "94" }));
    t.push((".csproj", IconEntry { icon: "\u{f81a}", color: "94" }));
    t.push((".sln", IconEntry { icon: "\u{f81a}", color: "95" }));
    t.push((".fs", IconEntry { icon: "\u{e7a7}", color: "94" }));
    t.push((".fsx", IconEntry { icon: "\u{e7a7}", color: "94" }));
    t.push((".fsi", IconEntry { icon: "\u{e7a7}", color: "94" }));
    t.push((".fsproj", IconEntry { icon: "\u{e7a7}", color: "94" }));
    t.push((".vb", IconEntry { icon: "\u{f81a}", color: "94" }));
    t.push((".vbs", IconEntry { icon: "\u{f81a}", color: "94" }));
    proof {
        assert(t@ =~= old(t)@ + spec_icon_rows_d());
    }
}

/// The rows one batch of registrations adds, in order.
pub open spec fn spec_icon_rows_e() -> Seq<(&'static str, IconEntry)> {
    seq![
        (".scala", IconEntry { icon: "\u{e737}", color: "91" }),
        (".sc", IconEntry { icon: "\u{e737}", color: "91" }),
        (".sbt", IconEntry { icon: "\u{e737}", color: "91" }),
        (".clj", IconEntry { icon: "\u{e768}", color: "92" }),
        (".cljs", IconEntry { icon: "\u{e768}", color: "92" }),
        (".cljc", IconEntry { icon: "\u{e768}", color: "92" }),
        (".edn", IconEntry { icon: "\u{e768}", color: "92" }),
        (".erl", IconEntry { icon: "\u{e7b1}", color: "95" }),
        (".hrl", IconEntry { icon: "\u{e7b1}", color: "95" }),
        (".ex", IconEntry { icon: "\u{e62d}", color: "95" }),
        (".exs", IconEntry { icon: "\u{e62d}", color: "95" }),
        (".eex", IconEntry { icon: "\u{e62d}", color: "95" }),
        (".heex", IconEntry { icon: "\u{e62d}", color: "95" }),
        (".leex", IconEntry { icon: "\u{e62d}", color: "95" }),
        (".vim", IconEntry { icon: "\u{e62b}", color: "92" }),
        (".vimrc", IconEntry { icon: "\u{e62b}", color: "92" }),
        (".zig", IconEntry { icon: "\u{f0e7}", color: "93" }),
        (".nim", IconEntry { icon: "\u{f0e7}", color: "93" }),
        (".nimble", IconEntry { icon: "\u{f0e7}", color: "93" }),
        (".cr", IconEntry { icon: "\u{e62f}", color: "37" }),
        (".ml", IconEntry { icon: "\u{03bb}", color: "93" }),
        (".mli", IconEntry { icon: "\u{03bb}", color: "93" }),
        (".v", IconEntry { icon: "\u{f085}", color: "94" }),
        (".sv", IconEntry { icon: "\u{f085}", color: "94" }),
        (".vhd", IconEntry { icon: "\u{f085}", color: "94" }),
        (".vhdl", IconEntry { icon: "\u{f085}", color: "94" }),
        (".asm", IconEntry { icon: "\u{f471}", color: "91" }),
        (".s", IconEntry { icon: "\u{f471}", color: "91" }),
        (".S", IconEntry { icon: "\u{f471}", color: "91" }),
        (".nix", IconEntry { icon: "\u{f313}", color: "94" }),
        (".tf", IconEntry { icon: "\u{f085}", color: "95" }),
        (".tfvars", IconEntry { icon: "\u{f085}", color: "95" }),
        (".html", IconEntry { icon: "\u{e736}", color: "95" }),
        (".htm", IconEntry { icon: "\u{e736}", color: "95" }),
        (".xhtml", IconEntry { icon: "\u{e736}", color: "95" }),
        (".css", IconEntry { icon: "\u{e749}", color: "36" }),
        (".scss", IconEntry { icon: "\u{e749}", color: "36" }),
        (".sass", IconEntry { icon: "\u{e749}", color: "36" }),
        (".less", IconEntry { icon: "\u{e749}", color: "36" }),
        (".styl", IconEntry { icon: "\u{e749}", color: "36" }),
    ]
}

fn icon_rules_e(t: &mut Vec<(&'static str, IconEntry)>)
    ensures
        final(t)@.len() == old(t)@.len() + 40,
        final(t)@ == old(t)@ + spec_icon_rows_e(),
{
    t.push((".scala", IconEntry { icon: "\u{e737}", color: "91" }));
    t.push((".sc", IconEntry { icon: "\u{e737}", color: "91" }));
    t.push((".sbt", IconEntry { icon: "\u{e737}", color: "91" }));
    t.push((".clj", IconEntry { icon: "\u{e768}", color: "92" }));
    t.push((".cljs", IconEntry { icon: "\u{e768}", color: "92" }));
    t.push((".cljc", IconEntry { icon: "\u{e768}", color: "92" }));
    t.push((".edn", IconEntry { icon: "\u{e768}", color: "92" }));
    t.push((".erl", IconEntry { icon: "\u{e7b1}", color: "95" }));
    t.push((".hrl", IconEntry { icon: "\u{e7b1}", color: "95" }));
    t.push((".ex", IconEntry { icon: "\u{e62d}", color: "95" }));
    t.push((".exs", IconEntry { icon: "\u{e62d}", color: "95" }));
    t.push((".eex", IconEntry { icon: "\u{e62d}", color: "95" }));
    t.push((".heex", IconEntry { icon: "\u{e62d}", color: "95" }));
    t.push((".leex", IconEntry { icon: "\u{e62d}", color: "95" }));
    t.push((".vim", IconEntry { icon: "\u{e62b}", color: "92" }));
    t.push((".vimrc", IconEntry { icon: "\u{e62b}", color: "92" }));
    t.push((".zig", IconEntry { icon: "\u{f0e7}", color: "93" }));
    t.push((".nim", IconEntry { icon: "\u{f0e7}", color: "93" }));
    t.push((".nimble", IconEntry { icon: "\u{f0e7}", color: "93" }));
    t.push((".cr", IconEntry { icon: "\u{e62f}", color: "37" }));
    t.push((".ml", IconEntry { icon: "\u{03bb}", color: "93" }));
    t.push((".mli", IconEntry { icon: "\u{03bb}", color: "93" }));
    t.push((".v", IconEntry { icon: "\u{f085}", color: "94" }));
    t.push((".sv", IconEntry { icon: "\u{f085}", color: "94" }));
    t.push((".vhd", IconEntry { icon: "\u{f085}", color: "94" }));
    t.push((".vhdl", IconEntry { icon: "\u{f085}", color: "94" }));
    t.push((".asm", IconEntry { icon: "\u{f471}", color: "91" }));
    t.push((".s", IconEntry { icon: "\u{f471}", color: "91" }));
    t.push((".S", IconEntry { icon: "\u{f471}", color: "91" }));
    t.push((".nix", IconEntry { icon: "\u{f313}", color: "94" }));
    t.push((".tf", IconEntry { icon: "\u{f085}", color: "95" }));
    t.push((".tfvars", IconEntry { icon: "\u{f085}", color: "95" }));
    t.push((".html", IconEntry { icon: "\u{e736}", color: "95" }));
    t.push((".htm", IconEntry { icon: "\u{e736}", color: "95" }));
    t.push((".xhtml", IconEntry { icon: "\u{e736}", color: "95" }));
    t.push((".css", IconEntry { icon: "\u{e749}", color: "36" }));
    t.push((".scss", IconEntry { icon: "\u{e749}", color: "36" }));
    t.push((".sass", IconEntry { icon: "\u{e749}", color: "36" }));
    t.push((".less", IconEntry { icon: "\u{e749}", color: "36" }));
    t.push((".styl", IconEntry { icon: "\u{e749}", color: "36" }));
    proof {
        assert(t@ =~= old(t)@ + spec_icon_rows_e());
    }
}

/// The rows one batch of registrations adds, in order.
pub open spec fn spec_icon_rows_f() -> Seq<(&'static str, IconEntry)> {
    seq![
        (".vue", IconEntry { icon: "\u{e6a0}", color: "92" }),
        (".svelte", IconEntry { icon: "\u{e697}", color: "91" }),
        (".astro", IconEntry { icon: "\u{e697}", color: "91" }),
        (".wasm", IconEntry { icon: "\u{e6a1}", color: "95" }),
        (".json", IconEntry { icon: "\u{e60b}", color: "94" }),
        (".jsonc", IconEntry { icon: "\u{e60b}", color: "94" }),
        (".json5", IconEntry { icon: "\u{e60b}", color: "94" }),
        (".jsonl", IconEntry { icon: "\u{e60b}", color: "94" }),
        (".ndjson", IconEntry { icon: "\u{e60b}", color: "94" }),
        (".xml", IconEntry { icon: "\u{e619}", color: "91" }),
        (".xsl", IconEntry { icon: "\u{e619}", color: "91" }),
        (".xsd", IconEntry { icon: "\u{e619}", color: "91" }),
        (".yml", IconEntry { icon: "\u{e60b}", color: "94" }),
        (".yaml", IconEntry { icon: "\u{e60b}", color: "94" }),
        (".toml", IconEntry { icon: "\u{e60b}", color: "94" }),
        (".ini", IconEntry { icon: "\u{f085}", color: "90" }),
        (".env", IconEntry { icon: "\u{f462}", color: "90" }),
        (".conf", IconEntry { icon: "\u{f085}", color: "90" }),
        (".cfg", IconEntry { icon: "\u{f085}", color: "90" }),
        (".properties", IconEntry { icon: "\u{f085}", color: "90" }),
        (".sql", IconEntry { icon: "\u{f1c0}", color: "93" }),
        (".db", IconEntry { icon: "\u{f1c0}", color: "93" }),
        (".sqlite", IconEntry { icon: "\u{f1c0}", color: "93" }),
        (".sqlite3", IconEntry { icon: "\u{f1c0}", color: "93" }),
        (".graphql", IconEntry { icon: "\u{e662}", color: "95" }),
        (".gql", IconEntry { icon: "\u{e662}", color: "95" }),
        (".proto", IconEntry { icon: "\u{f085}", color: "94" }),
        (".csv", IconEntry { icon: "\u{f1c3}", color: "92" }),
        (".tsv", IconEntry { icon: "\u{f1c3}", color: "92" }),
        (".hcl", IconEntry { icon: "\u{f085}", color: "95" }),
        (".md", IconEntry { icon: "\u{e73e}", color: "96" }),
        (".markdown", IconEntry { icon: "\u{e73e}", color: "96" }),
        (".mdx", IconEntry { icon: "\u{e73e}", color: "96" }),
        (".txt", IconEntry { icon: "\u{f15c}", color: "37" }),
        (".pdf", IconEntry { icon: "\u{f1c1}", color: "31" }),
        (".doc", IconEntry { icon: "\u{f1c2}", color: "94" }),
        (".docx", IconEntry { icon: "\u{f1c2}", color: "94" }),
        (".xls", IconEntry { icon: "\u{f1c3}", color: "92" }),
        (".xlsx", IconEntry { icon: "\u{f1c3}", color: "92" }),
        (".ppt", IconEntry { icon: "\u{f1c4}", color: "91" }),
    ]
}

fn icon_rules_f(t: &mut Vec<(&'static str, IconEntry)>)
    ensures
        final(t)@.len() == old(t)@.len() + 40,
        final(t)@ == old(t)@ + spec_icon_rows_f(),
{
    t.push((".vue", IconEntry { icon: "\u{e6a0}", color: "92" }));
    t.push((".svelte", IconEntry { icon: "\u{e697}", color: "91" }));
    t.push((".astro", IconEntry { icon: "\u{e697}", color: "91" }));
    t.push((".wasm", IconEntry { icon: "\u{e6a1}", color: "95" }));
    t.push((".json", IconEntry { icon: "\u{e60b}", color: "94" }));
    t.push((".jsonc", IconEntry { icon: "\u{e60b}", color: "94" }));
    t.push((".json5", IconEntry { icon: "\u{e60b}", color: "94" }));
    t.push((".jsonl", IconEntry { icon: "\u{e60b}", color: "94" }));
    t.push((".ndjson", IconEntry { icon: "\u{e60b}", color: "94" }));
    t.push((".xml", IconEntry { icon: "\u{e619}", color: "91" }));
    t.push((".xsl", IconEntry { icon: "\u{e619}", color: "91" }));
    t.push((".xsd", IconEntry { icon: "\u{e619}", color: "91" }));
    t.push((".yml", IconEntry { icon: "\u{e60b}", color: "94" }));
    t.push((".yaml", IconEntry { icon: "\u{e60b}", color: "94" }));
    t.push((".toml", IconEntry { icon: "\u{e60b}", color: "94" }));
    t.push((".ini", IconEntry { icon: "\u{f085}", color: "90" }));
    t.push((".env", IconEntry { icon: "\u{f462}", color: "90" }));
    t.push((".conf", IconEntry { icon: "\u{f085}", color: "90" }));
    t.push((".cfg", IconEntry { icon: "\u{f085}", color: "90" }));
    t.push((".properties", IconEntry { icon: "\u{f085}", color: "90" }));
    t.push((".sql", IconEntry { icon: "\u{f1c0}", color: "93" }));
    t.push((".db", IconEntry { icon: "\u{f1c0}", color: "93" }));
    t.push((".sqlite", IconEntry { icon: "\u{f1c0}", color: "93" }));
    t.push((".sqlite3", IconEntry { icon: "\u{f1c0}", color: "93" }));
    t.push((".graphql", IconEntry { icon: "\u{e662}", color: "95" }));
    t.push((".gql", IconEntry { icon: "\u{e662}", color: "95" }));
    t.push((".proto", IconEntry { icon: "\u{f085}", color: "94" }));
    t.push((".csv", IconEntry { icon: "\u{f1c3}", color: "92" }));
    t.push((".tsv", IconEntry { icon: "\u{f1c3}", color: "92" }));
    t.push((".hcl", IconEntry { icon: "\u{f085}", color: "95" }));
    t.push((".md", IconEntry { icon: "\u{e73e}", color: "96" }));
    t.push((".markdown", IconEntry { icon: "\u{e73e}", color: "96" }));
    t.push((".mdx", IconEntry { icon: "\u{e73e}", color: "96" }));
    t.push((".txt", IconEntry { icon: "\u{f15c}", color: "37" }));
    t.push((".pdf", IconEntry { icon: "\u{f1c1}", color: "31" }));
    t.push((".doc", IconEntry { icon: "\u{f1c2}", color: "94" }));
    t.push((".docx", IconEntry { icon: "\u{f1c2}", color: "94" }));
    t.push((".xls", IconEntry { icon: "\u{f1c3}", color: "92" }));
    t.push((".xlsx", IconEntry { icon: "\u{f1c3}", color: "92" }));
    t.push((".ppt", IconEntry { icon: "\u{f1c4}", color: "91" }));
    proof {
        assert(t@ =~= old(t)@ + spec_icon_rows_f());
    }
}

/// The rows one batch of registrations adds, in order.
pub open spec fn spec_icon_rows_g() -> Seq<(&'static str, IconEntry)> {
    seq![
        (".pptx", IconEntry { icon: "\u{f1c4}", color: "91" }),
        (".log", IconEntry { icon: "\u{f15c}", color: "90" }),
        (".tex", IconEntry { icon: "\u{f15c}", color: "92" }),
        (".bib", IconEntry { icon: "\u{f15c}", color: "93" }),
        (".rtf", IconEntry { icon: "\u{f1c2}", color: "94" }),
        (".odt", IconEntry { icon: "\u{f1c2}", color: "94" }),
        (".ods", IconEntry { icon: "\u{f1c3}", color: "92" }),
        (".odp", IconEntry { icon: "\u{f1c4}", color: "91" }),
        (".epub", IconEntry { icon: "\u{f02d}", color: "91" }),
        (".rst", IconEntry { icon: "\u{e73e}", color: "96" }),
        (".org", IconEntry { icon: "\u{e633}", color: "92" }),
        (".adoc", IconEntry { icon: "\u{e73e}", color: "96" }),
        (".man", IconEntry { icon: "\u{f15c}", color: "90" }),
        (".png", IconEntry { icon: "\u{f1c5}", color: "93" }),
        (".jpg", IconEntry { icon: "\u{f1c5}", color: "93" }),
        (".jpeg", IconEntry { icon: "\u{f1c5}", color: "93" }),
        (".svg", IconEntry { icon: "\u{f1c5}", color: "93" }),
        (".gif", IconEntry { icon: "\u{f1c5}", color: "93" }),
        (".webp", IconEntry { icon: "\u{f1c5}", color: "93" }),
        (".bmp", IconEntry { icon: "\u{f1c5}", color: "93" }),
        (".ico", IconEntry { icon: "\u{f1c5}", color: "93" }),
        (".tiff", IconEntry { icon: "\u{f1c5}", color: "93" }),
        (".tif", IconEntry { icon: "\u{f1c5}", color: "93" }),
        (".psd", IconEntry { icon: "\u{e7b8}", color: "94" }),
        (".ai", IconEntry { icon: "\u{e7b4}", color: "93" }),
        (".eps", IconEntry { icon: "\u{f1c5}", color: "93" }),
        (".raw", IconEntry { icon: "\u{f1c5}", color: "93" }),
        (".cr2", IconEntry { icon: "\u{f1c5}", color: "93" }),
        (".nef", IconEntry { icon: "\u{f1c5}", color: "93" }),
        (".heic", IconEntry { icon: "\u{f1c5}", color: "93" }),
        (".heif", IconEntry { icon: "\u{f1c5}", color: "93" }),
        (".avif", IconEntry { icon: "\u{f1c5}", color: "93" }),
        (".jxl", IconEntry { icon: "\u{f1c5}", color: "93" }),
        (".mp3", IconEntry { icon: "\u{f1c7}", color: "95" }),
        (".wav", IconEntry { icon: "\u{f1c7}", color: "95" }),
        (".flac", IconEntry { icon: "\u{f1c7}", color: "95" }),
        (".aac", IconEntry { icon: "\u{f1c7}", color: "95" }),
        (".ogg", IconEntry { icon: "\u{f1c7}", color: "95" }),
        (".m4a", IconEntry { icon: "\u{f1c7}", color: "95" }),
        (".wma", IconEntry { icon: "\u{f1c7}", color: "95" }),
    ]
}

fn icon_rules_g(t: &mut Vec<(&'static str, IconEntry)>)
    ensures
        final(t)@.len() == old(t)@.len() + 40,
        final(t)@ == old(t)@ + spec_icon_rows_g(),
{
    t.push((".pptx", IconEntry { icon: "\u{f1c4}", color: "91" }));
    t.push((".log", IconEntry { icon: "\u{f15c}", color: "90" }));
    t.push((".tex", IconEntry { icon: "\u{f15c}", color: "92" }));
    t.push((".bib", IconEntry { icon: "\u{f15c}", color: "93" }));
    t.push((".rtf", IconEntry { icon: "\u{f1c2}", color: "94" }));
    t.push((".odt", IconEntry { icon: "\u{f1c2}", color: "94" }));
    t.push((".ods", IconEntry { icon: "\u{f1c3}", color: "92" }));
    t.push((".odp", IconEntry { icon: "\u{f1c4}", color: "91" }));
    t.push((".epub", IconEntry { icon: "\u{f02d}", color: "91" }));
    t.push((".rst", IconEntry { icon: "\u{e73e}", color: "96" }));
    t.push((".org", IconEntry { icon: "\u{e633}", color: "92" }));
    t.push((".adoc", IconEntry { icon: "\u{e73e}", color: "96" }));
    t.push((".man", IconEntry { icon: "\u{f15c}", color: "90" }));
    t.push((".png", IconEntry { icon: "\u{f1c5}", color: "93" }));
    t.push((".jpg", IconEntry { icon: "\u{f1c5}", color: "93" }));
    t.push((".jpeg", IconEntry { icon: "\u{f1c5}", color: "93" }));
    t.push((".svg", IconEntry { icon: "\u{f1c5}", color: "93" }));
    t.push((".gif", IconEntry { icon: "\u{f1c5}", color: "93" }));
    t.push((".webp", IconEntry { icon: "\u{f1c5}", color: "93" }));
    t.push((".bmp", IconEntry { icon: "\u{f1c5}", color: "93" }));
    t.push((".ico", IconEntry { icon: "\u{f1c5}", color: "93" }));
    t.push((".tiff", IconEntry { icon: "\u{f1c5}", color: "93" }));
    t.push((".tif", IconEntry { icon: "\u{f1c5}", color: "93" }));
    t.push((".psd", IconEntry { icon: "\u{e7b8}", color: "94" }));
    t.push((".ai", IconEntry { icon: "\u{e7b4}", color: "93" }));
    t.push((".eps", IconEntry { icon: "\u{f1c5}", color: "93" }));
    t.push((".raw", IconEntry { icon: "\u{f1c5}", color: "93" }));
    t.push((".cr2", IconEntry { icon: "\u{f1c5}", color: "93" }));
    t.push((".nef", IconEntry { icon: "\u{f1c5}", color: "93" }));
    t.push((".heic", IconEntry { icon: "\u{f1c5}", color: "93" }));
    t.push((".heif", IconEntry { icon: "\u{f1c5}", color: "93" }));
    t.push((".avif", IconEntry { icon: "\u{f1c5}", color: "93" }));
    t.push((".jxl", IconEntry { icon: "\u{f1c5}", color: "93" }));
    t.push((".mp3", IconEntry { icon: "\u{f1c7}", color: "95" }));
    t.push((".wav", IconEntry { icon: "\u{f1c7}", color: "95" }));
    t.push((".flac", IconEntry { icon: "\u{f1c7}", color: "95" }));
    t.push((".aac", IconEntry { icon: "\u{f1c7}", color: "95" }));
    t.push((".ogg", IconEntry { icon: "\u{f1c7}", color: "95" }));
    t.push((".m4a", IconEntry { icon: "\u{f1c7}", color: "95" }));
    t.push((".wma", IconEntry { icon: "\u{f1c7}", color: "95" }));
    proof {
        assert(t@ =~= old(t)@ + spec_icon_rows_g());
    }
}

/// The rows one batch of registrations adds, in order.
pub open spec fn spec_icon_rows_h() -> Seq<(&'static str, IconEntry)> {
    seq![
        (".opus", IconEntry { icon: "\u{f1c7}", color: "95" }),
        (".mid", IconEntry { icon: "\u{f1c7}", color: "95" }),
        (".midi", IconEntry { icon: "\u{f1c7}", color: "95" }),
        (".aiff", IconEntry { icon: "\u{f1c7}", color: "95" }),
        (".ape", IconEntry { icon: "\u{f1c7}", color: "95" }),
        (".mp4", IconEntry { icon: "\u{f1c8}", color: "95" }),
        (".mov", IconEntry { icon: "\u{f1c8}", color: "95" }),
        (".avi", IconEntry { icon: "\u{f1c8}", color: "95" }),
        (".mkv", IconEntry { icon: "\u{f1c8}", color: "95" }),
        (".webm", IconEntry { icon: "\u{f1c8}", color: "95" }),
        (".flv", IconEntry { icon: "\u{f1c8}", color: "95" }),
        (".wmv", IconEntry { icon: "\u{f1c8}", color: "95" }),
        (".m4v", IconEntry { icon: "\u{f1c8}", color: "95" }),
        (".mpg", IconEntry { icon: "\u{f1c8}", color: "95" }),
        (".mpeg", IconEntry { icon: "\u{f1c8}", color: "95" }),
        (".3gp", IconEntry { icon: "\u{f1c8}", color: "95" }),
        (".ts", IconEntry { icon: "\u{f1c8}", color: "95" }),
        (".zip", IconEntry { icon: "\u{f1c6}", color: "95" }),
        (".tar", IconEntry { icon: "\u{f1c6}", color: "95" }),
        (".gz", IconEntry { icon: "\u{f1c6}", color: "95" }),
        (".bz2", IconEntry { icon: "\u{f1c6}", color: "95" }),
        (".xz", IconEntry { icon: "\u{f1c6}", color: "95" }),
        (".zst", IconEntry { icon: "\u{f1c6}", color: "95" }),
        (".lz", IconEntry { icon: "\u{f1c6}", color: "95" }),
        (".lz4", IconEntry { icon: "\u{f1c6}", color: "95" }),
        (".lzma", IconEntry { icon: "\u{f1c6}", color: "95" }),
        (".7z", IconEntry { icon: "\u{f1c6}", color: "95" }),
        (".rar", IconEntry { icon: "\u{f1c6}", color: "95" }),
        (".tgz", IconEntry { icon: "\u{f1c6}", color: "95" }),
        (".tbz2", IconEntry { icon: "\u{f1c6}", color: "95" }),
        (".txz", IconEntry { icon: "\u{f1c6}", color: "95" }),
        (".iso", IconEntry { icon: "\u{f1c6}", color: "95" }),
        (".dmg", IconEntry { icon: "\u{f1c6}", color: "95" }),
        (".img", IconEntry { icon: "\u{f1c6}", color: "95" }),
        (".cab", IconEntry { icon: "\u{f1c6}", color: "95" }),
        (".cpio", IconEntry { icon: "\u{f1c6}", color: "95" }),
        (".ar", IconEntry { icon: "\u{f1c6}", color: "95" }),
        (".deb", IconEntry { icon: "\u{f187}", color: "91" }),
        (".rpm", IconEntry { icon: "\u{f187}", color: "91" }),
        (".apk", IconEntry { icon: "\u{e70e}", color: "92" }),
    ]
}

fn icon_rules_h(t: &mut Vec<(&'static str, IconEntry)>)
    ensures
        final(t)@.len() == old(t)@.len() + 40,
        final(t)@ == old(t)@ + spec_icon_rows_h(),
{
    t.push((".opus", IconEntry { icon: "\u{f1c7}", color: "95" }));
    t.push((".mid", IconEntry { icon: "\u{f1c7}", color: "95" }));
    t.push((".midi", IconEntry { icon: "\u{f1c7}", color: "95" }));
    t.push((".aiff", IconEntry { icon: "\u{f1c7}", color: "95" }));
    t.push((".ape", IconEntry { icon: "\u{f1c7}", color: "95" }));
    t.push((".mp4", IconEntry { icon: "\u{f1c8}", color: "95" }));
    t.push((".mov", IconEntry { icon: "\u{f1c8}", color: "95" }));
    t.push((".avi", IconEntry { icon: "\u{f1c8}", color: "95" }));
    t.push((".mkv", IconEntry { icon: "\u{f1c8}", color: "95" }));
    t.push((".webm", IconEntry { icon: "\u{f1c8}", color: "95" }));
    t.push((".flv", IconEntry { icon: "\u{f1c8}", color: "95" }));
    t.push((".wmv", IconEntry { icon: "\u{f1c8}", color: "95" }));
    t.push((".m4v", IconEntry { icon: "\u{f1c8}", color: "95" }));
    t.push((".mpg", IconEntry { icon: "\u{f1c8}", color: "95" }));
    t.push((".mpeg", IconEntry { icon: "\u{f1c8}", color: "95" }));
    t.push((".3gp", IconEntry { icon: "\u{f1c8}", color: "95" }));
    t.push((".ts", IconEntry { icon: "\u{f1c8}", color: "95" }));
    t.push((".zip", IconEntry { icon: "\u{f1c6}", color: "95" }));
    t.push((".tar", IconEntry { icon: "\u{f1c6}", color: "95" }));
    t.push((".gz", IconEntry { icon: "\u{f1c6}", color: "95" }));
    t.push((".bz2", IconEntry { icon: "\u{f1c6}", color: "95" }));
    t.push((".xz", IconEntry { icon: "\u{f1c6}", color: "95" }));
    t.push((".zst", IconEntry { icon: "\u{f1c6}", color: "95" }));
    t.push((".lz", IconEntry { icon: "\u{f1c6}", color: "95" }));
    t.push((".lz4", IconEntry { icon: "\u{f1c6}", color: "95" }));
    t.push((".lzma", IconEntry { icon: "\u{f1c6}", color: "95" }));
    t.push((".7z", IconEntry { icon: "\u{f1c6}", color: "95" }));
    t.push((".rar", IconEntry { icon: "\u{f1c6}", color: "95" }));
    t.push((".tgz", IconEntry { icon: "\u{f1c6}", color: "95" }));
    t.push((".tbz2", IconEntry { icon: "\u{f1c6}", color: "95" }));
    t.push((".txz", IconEntry { icon: "\u{f1c6}", color: "95" }));
    t.push((".iso", IconEntry { icon: "\u{f1c6}", color: "95" }));
    t.push((".dmg", IconEntry { icon: "\u{f1c6}", color: "95" }));
    t.push((".img", IconEntry { icon: "\u{f1c6}", color: "95" }));
    t.push((".cab", IconEntry { icon: "\u{f1c6}", color: "95" }));
    t.push((".cpio", IconEntry { icon: "\u{f1c6}", color: "95" }));
    t.push((".ar", IconEntry { icon: "\u{f1c6}", color: "95" }));
    t.push((".deb", IconEntry { icon: "\u{f187}", color: "91" }));
    t.push((".rpm", IconEntry { icon: "\u{f187}", color: "91" }));
    t.push((".apk", IconEntry { icon: "\u{e70e}", color: "92" }));
    proof {
        assert(t@ =~= old(t)@ + spec_icon_rows_h());
    }
}

/// The rows one batch of registrations adds, in order.
pub open spec fn spec_icon_rows_i() -> Seq<(&'static str, IconEntry)> {
    seq![
        (".snap", IconEntry { icon: "\u{f187}", color: "92" }),
        (".flatpak", IconEntry { icon: "\u{f187}", color: "94" }),
        (".appimage", IconEntry { icon: "\u{f187}", color: "92" }),
        (".exe", IconEntry { icon: "\u{f17a}", color: "92" }),
        (".app", IconEntry { icon: "\u{f179}", color: "92" }),
        (".dll", IconEntry { icon: "\u{f17a}", color: "90" }),
        (".so", IconEntry { icon: "\u{f17c}", color: "90" }),
        (".dylib", IconEntry { icon: "\u{f179}", color: "90" }),
        (".bin", IconEntry { icon: "\u{f489}", color: "90" }),
        (".msi", IconEntry { icon: "\u{f17a}", color: "92" }),
        (".out", IconEntry { icon: "\u{f489}", color: "90" }),
        (".elf", IconEntry { icon: "\u{f489}", color: "90" }),
        (".o", IconEntry { icon: "\u{f471}", color: "90" }),
        (".a", IconEntry { icon: "\u{f471}", color: "90" }),
        (".ttf", IconEntry { icon: "\u{f031}", color: "37" }),
        (".otf", IconEntry { icon: "\u{f031}", color: "37" }),
        (".woff", IconEntry { icon: "\u{f031}", color: "37" }),
        (".woff2", IconEntry { icon: "\u{f031}", color: "37" }),
        (".eot", IconEntry { icon: "\u{f031}", color: "37" }),
        (".obj", IconEntry { icon: "\u{f1b2}", color: "95" }),
        (".fbx", IconEntry { icon: "\u{f1b2}", color: "95" }),
        (".stl", IconEntry { icon: "\u{f1b2}", color: "95" }),
        (".blend", IconEntry { icon: "\u{f1b2}", color: "93" }),
        (".3ds", IconEntry { icon: "\u{f1b2}", color: "95" }),
        (".dae", IconEntry { icon: "\u{f1b2}", color: "95" }),
        (".gltf", IconEntry { icon: "\u{f1b2}", color: "95" }),
        (".glb", IconEntry { icon: "\u{f1b2}", color: "95" }),
        (".usdz", IconEntry { icon: "\u{f1b2}", color: "95" }),
        (".key", IconEntry { icon: "\u{f084}", color: "91" }),
        (".pem", IconEntry { icon: "\u{f084}", color: "91" }),
        (".crt", IconEntry { icon: "\u{f084}", color: "91" }),
        (".cert", IconEntry { icon: "\u{f084}", color: "91" }),
        (".cer", IconEntry { icon: "\u{f084}", color: "91" }),
        (".ca", IconEntry { icon: "\u{f084}", color: "91" }),
        (".pub", IconEntry { icon: "\u{f084}", color: "91" }),
        (".gpg", IconEntry { icon: "\u{f084}", color: "91" }),
        (".pgp", IconEntry { icon: "\u{f084}", color: "91" }),
        (".asc", IconEntry { icon: "\u{f084}", color: "91" }),
        (".sig", IconEntry { icon: "\u{f084}", color: "91" }),
        (".p12", IconEntry { icon: "\u{f084}", color: "91" }),
    ]
}

fn icon_rules_i(t: &mut Vec<(&'static str, IconEntry)>)
    ensures
        final(t)@.len() == old(t)@.len() + 40,
        final(t)@ == old(t)@ + spec_icon_rows_i(),
{
    t.push((".snap", IconEntry { icon: "\u{f187}", color: "92" }));
    t.push((".flatpak", IconEntry { icon: "\u{f187}", color: "94" }));
    t.push((".appimage", IconEntry { icon: "\u{f187}", color: "92" }));
    t.push((".exe", IconEntry { icon: "\u{f17a}", color: "92" }));
    t.push((".app", IconEntry { icon: "\u{f179}", color: "92" }));
    t.push((".dll", IconEntry { icon: "\u{f17a}", color: "90" }));
    t.push((".so", IconEntry { icon: "\u{f17c}", color: "90" }));
    t.push((".dylib", IconEntry { icon: "\u{f179}", color: "90" }));
    t.push((".bin", IconEntry { icon: "\u{f489}", color: "90" }));
    t.push((".msi", IconEntry { icon: "\u{f17a}", color: "92" }));
    t.push((".out", IconEntry { icon: "\u{f489}", color: "90" }));
    t.push((".elf", IconEntry { icon: "\u{f489}", color: "90" }));
    t.push((".o", IconEntry { icon: "\u{f471}", color: "90" }));
    t.push((".a", IconEntry { icon: "\u{f471}", color: "90" }));
    t.push((".ttf", IconEntry { icon: "\u{f031}", color: "37" }));
    t.push((".otf", IconEntry { icon: "\u{f031}", color: "37" }));
    t.push((".woff", IconEntry { icon: "\u{f031}", color: "37" }));
    t.push((".woff2", IconEntry { icon: "\u{f031}", color: "37" }));
    t.push((".eot", IconEntry { icon: "\u{f031}", color: "37" }));
    t.push((".obj", IconEntry { icon: "\u{f1b2}", color: "95" }));
    t.push((".fbx", IconEntry { icon: "\u{f1b2}", color: "95" }));
    t.push((".stl", IconEntry { icon: "\u{f1b2}", color: "95" }));
    t.push((".blend", IconEntry { icon: "\u{f1b2}", color: "93" }));
    t.push((".3ds", IconEntry { icon: "\u{f1b2}", color: "95" }));
    t.push((".dae", IconEntry { icon: "\u{f1b2}", color: "95" }));
    t.push((".gltf", IconEntry { icon: "\u{f1b2}", color: "95" }));
    t.push((".glb", IconEntry { icon: "\u{f1b2}", color: "95" }));
    t.push((".usdz", IconEntry { icon: "\u{f1b2}", color: "95" }));
    t.push((".key", IconEntry { icon: "\u{f084}", color: "91" }));
    t.push((".pem", IconEntry { icon: "\u{f084}", color: "91" }));
    t.push((".crt", IconEntry { icon: "\u{f084}", color: "91" }));
    t.push((".cert", IconEntry { icon: "\u{f084}", color: "91" }));
    t.push((".cer", IconEntry { icon: "\u{f084}", color: "91" }));
    t.push((".ca", IconEntry { icon: "\u{f084}", color: "91" }));
    t.push((".pub", IconEntry { icon: "\u{f084}", color: "91" }));
    t.push((".gpg", IconEntry { icon: "\u{f084}", color: "91" }));
    t.push((".pgp", IconEntry { icon: "\u{f084}", color: "91" }));
    t.push((".asc", IconEntry { icon: "\u{f084}", color: "91" }));
    t.push((".sig", IconEntry { icon: "\u{f084}", color: "91" }));
    t.push((".p12", IconEntry { icon: "\u{f084}", color: "91" }));
    proof {
        assert(t@ =~= old(t)@ + spec_icon_rows_i());
    }
}

/// The rows the last batch of registrations adds, in order.
pub open spec fn spec_icon_rows_j() -> Seq<(&'static str, IconEntry)> {
    seq![
        (".pfx", IconEntry { icon: "\u{f084}", color: "91" }),
        (".csr", IconEntry { icon: "\u{f084}", color: "91" }),
        (".lock", IconEntry { icon: "\u{f023}", color: "90" }),
        (".bak", IconEntry { icon: "\u{f0e2}", color: "90" }),
        (".tmp", IconEntry { icon: "\u{f0e2}", color: "90" }),
        (".temp", IconEntry { icon: "\u{f0e2}", color: "90" }),
        (".swp", IconEntry { icon: "\u{f0e2}", color: "90" }),
        (".swo", IconEntry { icon: "\u{f0e2}", color: "90" }),
        (".cache", IconEntry { icon: "\u{f0e2}", color: "90" }),
        (".pid", IconEntry { icon: "\u{f085}", color: "90" }),
        (".sock", IconEntry { icon: "\u{f6a7}", color: "35" }),
        (".patch", IconEntry { icon: "\u{f440}", color: "92" }),
        (".diff", IconEntry { icon: "\u{f440}", color: "92" }),
        (".ts", IconEntry { icon: "\u{e628}", color: "94" }),
    ]
}

fn icon_rules_j(t: &mut Vec<(&'static str, IconEntry)>)
    ensures
        final(t)@.len() == old(t)@.len() + 14,
        final(t)@ == old(t)@ + spec_icon_rows_j(),
        rule_value(final(t)@, ".ts"@) == Some(("\u{e628}"@, "94"@)),
        rule_value(final(t)@, ".diff"@) == Some(("\u{f440}"@, "92"@)),
        rule_value(final(t)@, ".patch"@) == Some(("\u{f440}"@, "92"@)),
{
    t.push((".pfx", IconEntry { icon: "\u{f084}", color: "91" }));
    t.push((".csr", IconEntry { icon: "\u{f084}", color: "91" }));
    t.push((".lock", IconEntry { icon: "\u{f023}", color: "90" }));
    t.push((".bak", IconEntry { icon: "\u{f0e2}", color: "90" }));
    t.push((".tmp", IconEntry { icon: "\u{f0e2}", color: "90" }));
    t.push((".temp", IconEntry { icon: "\u{f0e2}", color: "90" }));
    t.push((".swp", IconEntry { icon: "\u{f0e2}", color: "90" }));
    t.push((".swo", IconEntry { icon: "\u{f0e2}", color: "90" }));
    t.push((".cache", IconEntry { icon: "\u{f0e2}", color: "90" }));
    t.push((".pid", IconEntry { icon: "\u{f085}", color: "90" }));
    t.push((".sock", IconEntry { icon: "\u{f6a7}", color: "35" }));
    t.push((".patch", IconEntry { icon: "\u{f440}", color: "92" }));
    let ghost t_patch = t@;
    t.push((".diff", IconEntry { icon: "\u{f440}", color: "92" }));
    let ghost t_diff = t@;
    t.push((".ts", IconEntry { icon: "\u{e628}", color: "94" }));
    proof {
        reveal_strlit(".ts");
        reveal_strlit(".diff");
        reveal_strlit(".patch");
        assert(t@.drop_last() =~= t_diff);
        assert(t_diff.drop_last() =~= t_patch);
        assert(".ts"@.len() == 3);
        assert(".diff"@.len() == 5);
        assert(".patch"@.len() == 6);
        assert(".ts"@ != ".diff"@ && ".ts"@ != ".patch"@ && ".diff"@ != ".patch"@);
        assert(rule_value(t@, ".diff"@) == rule_value(t_diff, ".diff"@));
        assert(rule_value(t@, ".patch"@) == rule_value(t_diff, ".patch"@));
        assert(rule_value(t_diff, ".patch"@) == rule_value(t_patch, ".patch"@));
        assert(t@ =~= old(t)@ + spec_icon_rows_j());
    }
}

/// The whole registration list, in order.
pub open spec fn spec_icon_rows() -> Seq<(&'static str, IconEntry)> {
    spec_icon_rows_a() + spec_icon_rows_b() + spec_icon_rows_c() + spec_icon_rows_d()
        + spec_icon_rows_e() + spec_icon_rows_f() + spec_icon_rows_g() + spec_icon_rows_h()
        + spec_icon_rows_i() + spec_icon_rows_j()
}

/// Build the rule table, one entry per registration the tool makes, in
/// registration order; a later entry for a key already present deliberately
/// overrides the earlier one (the last registration re-enters `.ts` so that
/// the TypeScript icon wins over the video icon sharing that suffix).
pub fn build_icon_map() -> (t: Vec<(&'static str, IconEntry)>)
    ensures
        t@.len() == 374,
        t@ == spec_icon_rows(),
        rule_value(t@, ".ts"@) == Some(("\u{e628}"@, "94"@)),
        rule_value(t@, ".diff"@) == Some(("\u{f440}"@, "92"@)),
        rule_value(t@, ".patch"@) == Some(("\u{f440}"@, "92"@)),
{
    let mut t: Vec<(&'static str, IconEntry)> = Vec::new();
    icon_rules_a(&mut t);
    icon_rules_b(&mut t);
    icon_rules_c(&mut t);
    icon_rules_d(&mut t);
    icon_rules_e(&mut t);
    icon_rules_f(&mut t);
    icon_rules_g(&mut t);
    icon_rules_h(&mut t);
    icon_rules_i(&mut t);
    icon_rules_j(&mut t);
    proof {
        assert(t@ =~= spec_icon_rows());
    }
    t
}

} // verus!
