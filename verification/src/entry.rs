//! One filesystem entry's metadata snapshot, the filters applied while a
//! directory is enumerated, the sorting rules, and the uid/gid name caches
//! used by the long format.
use vstd::prelude::*;
use core::cmp::Ordering;
use std::collections::HashMap;

use crate::cli::{Args, spec_no_sort, spec_show_hidden};
use crate::compare::spec_version_cmp;
use crate::foreign::{lookup_groupname, lookup_username, lower_of, lowercase, str_to_chars};
use crate::glob::spec_glob_match;
use crate::text::{spec_dec, spec_lex_cmp, lex_cmp, u64_to_string};

verus! {

broadcast use vstd::std_specs::hash::group_hash_axioms;

/// A single file or directory entry with all metadata needed for display.
/// Timestamps are seconds since the epoch, absent when the system did not
/// report them; the extension is derived from the name, never from a symlink
/// target, and is empty when the name has no dot.
#[derive(Clone, Debug)]
pub struct FileEntry {
    pub name: String,
    pub path: String,
    pub is_dir: bool,
    pub is_symlink: bool,
    pub is_executable: bool,
    pub is_hidden: bool,
    pub is_pipe: bool,
    pub is_socket: bool,
    pub is_block_device: bool,
    pub is_char_device: bool,
    pub size: u64,
    pub modified: Option<i64>,
    pub accessed: Option<i64>,
    pub created: Option<i64>,
    pub mode: u32,
    pub nlink: u64,
    pub uid: u32,
    pub gid: u32,
    pub blocks: u64,
    pub inode: u64,
    pub symlink_target: Option<String>,
    pub extension: String,
}

/// The second entry is the first with its name replaced by `n`, the
/// extension and symlink target cleared (a synthetic dot entry has neither),
/// and every other field kept.
pub open spec fn spec_renamed(orig: FileEntry, x: FileEntry, n: Seq<char>) -> bool {
    &&& x.name@ == n
    &&& x.path == orig.path
    &&& x.is_dir == orig.is_dir
    &&& x.is_symlink == orig.is_symlink
    &&& x.is_executable == orig.is_executable
    &&& x.is_hidden == orig.is_hidden
    &&& x.is_pipe == orig.is_pipe
    &&& x.is_socket == orig.is_socket
    &&& x.is_block_device == orig.is_block_device
    &&& x.is_char_device == orig.is_char_device
    &&& x.size == orig.size
    &&& x.modified == orig.modified
    &&& x.accessed == orig.accessed
    &&& x.created == orig.created
    &&& x.mode == orig.mode
    &&& x.nlink == orig.nlink
    &&& x.uid == orig.uid
    &&& x.gid == orig.gid
    &&& x.blocks == orig.blocks
    &&& x.inode == orig.inode
    &&& x.symlink_target is None
    &&& x.extension@ == Seq::<char>::empty()
}

impl FileEntry {
    /// The synthetic `.` and `..` entries for a directory: the directory's
    /// own snapshot renamed to `.`, then its parent's renamed to `..`, in
    /// that order, skipping whichever could not be read.
    pub fn dot_entries(dir_entry: Option<FileEntry>, parent_entry: Option<FileEntry>) -> (r:
        Vec<FileEntry>)
        ensures
            r@.len() == (if dir_entry is Some { 1int } else { 0int }) + (if parent_entry
                is Some { 1int } else { 0int }),
            dir_entry matches Some(d) ==> spec_renamed(d, r@[0], "."@),
            parent_entry matches Some(p) ==> spec_renamed(p, r@[r@.len() - 1], ".."@),
    {
        let mut entries: Vec<FileEntry> = Vec::new();
        if let Some(mut e) = dir_entry {
            e.name = ".".to_owned();
            e.extension = String::new();
            e.symlink_target = None;
            proof {
                reveal_strlit(".");
            }
            entries.push(e);
        }
        if let Some(mut e) = parent_entry {
            e.name = "..".to_owned();
            e.extension = String::new();
            e.symlink_target = None;
            proof {
                reveal_strlit("..");
            }
            entries.push(e);
        }
        entries
    }

    /// The degraded record for a name whose metadata could not be read: it
    /// keeps its place in the listing under its name and path, counts as
    /// hidden, and every other field holds the empty value.
    pub fn degraded(name: String, path: String) -> (r: FileEntry)
        ensures
            r.name == name,
            r.path == path,
            !r.is_dir,
            !r.is_symlink,
            !r.is_executable,
            r.is_hidden,
            !r.is_pipe,
            !r.is_socket,
            !r.is_block_device,
            !r.is_char_device,
            r.size == 0,
            r.modified is None,
            r.accessed is None,
            r.created is None,
            r.mode == 0,
            r.nlink == 0,
            r.uid == 0,
            r.gid == 0,
            r.blocks == 0,
            r.inode == 0,
            r.symlink_target is None,
            r.extension@ == Seq::<char>::empty(),
    {
        FileEntry {
            name,
            path,
            is_dir: false,
            is_symlink: false,
            is_executable: false,
            is_hidden: true,
            is_pipe: false,
            is_socket: false,
            is_block_device: false,
            is_char_device: false,
            size: 0,
            modified: None,
            accessed: None,
            created: None,
            mode: 0,
            nlink: 0,
            uid: 0,
            gid: 0,
            blocks: 0,
            inode: 0,
            symlink_target: None,
            extension: String::new(),
        }
    }
}

/// The extension a name carries: what follows its last dot, when that dot is
/// neither absent nor the name's first character; empty otherwise.
pub open spec fn spec_name_extension(name: Seq<char>) -> Seq<char> {
    let d = crate::icons::spec_rfind(name, '.');
    if d <= 0 {
        Seq::empty()
    } else {
        name.skip(d + 1)
    }
}

/// Derive from a name and a mode the fields a snapshot carries beyond what
/// the system reports directly: hidden means a leading dot, executable means
/// any execute bit on a non-directory, and the extension attribute is the
/// lowercased suffix after the last dot of the name.
pub fn derive_entry_fields(name: &str, mode: u32, is_dir: bool) -> (r: (bool, bool, String))
    ensures
        r.0 == (name@.len() > 0 && name@[0] == '.'),
        r.1 == (!is_dir && mode & 0o111 != 0),
        r.2@ == lower_of(spec_name_extension(name@)),
{
    let nv = str_to_chars(name);
    let hidden = nv.len() > 0 && nv[0] == '.';
    let exec = !is_dir && mode & 0o111 != 0;
    let suffix: String = match crate::icons::rfind_char(&nv, '.') {
        Some(k) => {
            if k > 0 {
                let sv = crate::icons::suffix_of(&nv, k + 1);
                crate::foreign::chars_to_string(&sv)
            } else {
                String::new()
            }
        },
        None => String::new(),
    };
    proof {
        assert(suffix@ == spec_name_extension(name@));
    }
    (hidden, exec, lowercase(suffix.as_str()))
}

/// Whether a name passes the enumeration filters: hidden names are excluded
/// unless hidden entries are shown; names ending in `~` are excluded under
/// the backup filter; names matching the ignore pattern are excluded; and
/// names matching the hide pattern are excluded, but only while hidden
/// entries are not shown.
pub open spec fn spec_entry_visible(name: Seq<char>, a: Args) -> bool {
    &&& !(name.len() > 0 && name[0] == '.' && !spec_show_hidden(a))
    &&& !(a.ignore_backups && name.len() > 0 && name.last() == '~')
    &&& !(a.ignore_pattern matches Some(p) && spec_glob_match(p@, name))
    &&& !(!spec_show_hidden(a) && (a.hide_pattern matches Some(p) && spec_glob_match(
        p@,
        name,
    )))
}

/// Apply the enumeration filters to one name.
pub fn entry_visible(name: &str, args: &Args) -> (r: bool)
    ensures
        r == spec_entry_visible(name@, *args),
{
    let nv = str_to_chars(name);
    let show_hidden = args.show_hidden();
    if nv.len() > 0 && nv[0] == '.' && !show_hidden {
        return false;
    }
    if args.ignore_backups && nv.len() > 0 && nv[nv.len() - 1] == '~' {
        return false;
    }
    if let Some(p) = &args.ignore_pattern {
        if crate::glob::matches_glob_simple(name, p.as_str()) {
            return false;
        }
    }
    if !show_hidden {
        if let Some(p) = &args.hide_pattern {
            if crate::glob::matches_glob_simple(name, p.as_str()) {
                return false;
            }
        }
    }
    true
}

/// The sorting rules: one primary criterion, with the directory-grouping pass
/// as a second stable pass.
#[derive(Clone, Copy, PartialEq, Eq, Structural, Debug)]
pub enum SortKey {
    /// Largest size first.
    Size,
    /// Newest modification time first; entries without one count as oldest.
    Time,
    /// The extension attribute (already lowercased), ties broken by
    /// lowercased name.
    Extension,
    /// Natural/version order of names.
    Version,
    /// Lowercased names.
    Name,
    /// Directories before non-directories, nothing else compared.
    DirsFirst,
}

pub open spec fn spec_cmp_int(x: int, y: int) -> Ordering {
    if x < y {
        Ordering::Less
    } else if x > y {
        Ordering::Greater
    } else {
        Ordering::Equal
    }
}

/// The modification time used for sorting: seconds since the epoch, with a
/// missing timestamp treated as the oldest possible value.
pub open spec fn spec_sort_mtime(e: FileEntry) -> int {
    match e.modified {
        Some(t) => t as int,
        None => i64::MIN as int,
    }
}

pub open spec fn bool_to_int(b: bool) -> int {
    if b {
        1
    } else {
        0
    }
}

/// How two entries compare under one sorting rule.
pub open spec fn spec_key_cmp(a: FileEntry, b: FileEntry, k: SortKey) -> Ordering {
    match k {
        SortKey::Size => spec_cmp_int(b.size as int, a.size as int),
        SortKey::Time => spec_cmp_int(spec_sort_mtime(b), spec_sort_mtime(a)),
        SortKey::Extension => {
            let c = spec_lex_cmp(a.extension@, b.extension@);
            if c == Ordering::Equal {
                spec_lex_cmp(lower_of(a.name@), lower_of(b.name@))
            } else {
                c
            }
        },
        SortKey::Version => spec_version_cmp(a.name@, b.name@),
        SortKey::Name => spec_lex_cmp(lower_of(a.name@), lower_of(b.name@)),
        SortKey::DirsFirst => spec_cmp_int(bool_to_int(b.is_dir), bool_to_int(a.is_dir)),
    }
}

/// Compare two entries under one sorting rule.
pub fn entry_cmp(a: &FileEntry, b: &FileEntry, k: SortKey) -> (r: Ordering)
    ensures
        r == spec_key_cmp(*a, *b, k),
{
    match k {
        SortKey::Size => {
            if b.size < a.size {
                Ordering::Less
            } else if b.size > a.size {
                Ordering::Greater
            } else {
                Ordering::Equal
            }
        },
        SortKey::Time => {
            let ta: i64 = match a.modified {
                Some(t) => t,
                None => i64::MIN,
            };
            let tb: i64 = match b.modified {
                Some(t) => t,
                None => i64::MIN,
            };
            if tb < ta {
                Ordering::Less
            } else if tb > ta {
                Ordering::Greater
            } else {
                Ordering::Equal
            }
        },
        SortKey::Extension => {
            let ea = str_to_chars(a.extension.as_str());
            let eb = str_to_chars(b.extension.as_str());
            let c = lex_cmp(&ea, &eb);
            match c {
                Ordering::Equal => {
                    let na = str_to_chars(lowercase(a.name.as_str()).as_str());
                    let nb = str_to_chars(lowercase(b.name.as_str()).as_str());
                    lex_cmp(&na, &nb)
                },
                _ => c,
            }
        },
        SortKey::Version => crate::compare::version_compare(a.name.as_str(), b.name.as_str()),
        SortKey::Name => {
            let na = str_to_chars(lowercase(a.name.as_str()).as_str());
            let nb = str_to_chars(lowercase(b.name.as_str()).as_str());
            lex_cmp(&na, &nb)
        },
        SortKey::DirsFirst => {
            if !b.is_dir && a.is_dir {
                Ordering::Less
            } else if b.is_dir && !a.is_dir {
                Ordering::Greater
            } else {
                Ordering::Equal
            }
        },
    }
}

/// Stable insertion of one entry into a run: the entry moves left past
/// everything strictly greater, and no further, so it lands after anything
/// that compares equal to it.
pub open spec fn spec_insert(s: Seq<FileEntry>, x: FileEntry, k: SortKey) -> Seq<FileEntry>
    decreases s.len(),
{
    if s.len() > 0 && spec_key_cmp(s.last(), x, k) == Ordering::Greater {
        spec_insert(s.drop_last(), x, k).push(s.last())
    } else {
        s.push(x)
    }
}

/// Stable sort of a run of entries: each entry in turn is inserted into the
/// sorted run of those before it.
pub open spec fn spec_sort(s: Seq<FileEntry>, k: SortKey) -> Seq<FileEntry>
    decreases s.len(),
{
    if s.len() == 0 {
        s
    } else {
        spec_insert(spec_sort(s.drop_last(), k), s.last(), k)
    }
}

proof fn lemma_spec_sort_single(s: Seq<FileEntry>, k: SortKey)
    requires
        s.len() == 1,
    ensures
        spec_sort(s, k) == s,
{
    let e = s.drop_last();
    assert(e.len() == 0);
    assert(spec_sort(e, k) == e);
    assert(spec_insert(e, s.last(), k) == e.push(s.last()));
    assert(e.push(s.last()) =~= s);
}

/// Where the insertion lands: at the unique position with only strictly
/// greater entries to its right and nothing strictly greater immediately to
/// its left.
proof fn lemma_insert_at(s: Seq<FileEntry>, x: FileEntry, k: SortKey, m: int)
    requires
        0 <= m <= s.len(),
        forall|j: int| m <= j < s.len() ==> spec_key_cmp(#[trigger] s[j], x, k)
            == Ordering::Greater,
        m > 0 ==> spec_key_cmp(s[m - 1], x, k) != Ordering::Greater,
    ensures
        spec_insert(s, x, k) == s.take(m) + seq![x] + s.skip(m),
    decreases s.len(),
{
    if s.len() == 0 {
        assert(spec_insert(s, x, k) =~= s.take(m) + seq![x] + s.skip(m));
    } else if spec_key_cmp(s.last(), x, k) == Ordering::Greater {
        assert(m < s.len());
        lemma_insert_at(s.drop_last(), x, k, m);
        assert(spec_insert(s, x, k) =~= s.take(m) + seq![x] + s.skip(m));
    } else {
        assert(m == s.len());
        assert(spec_insert(s, x, k) =~= s.take(m) + seq![x] + s.skip(m));
    }
}

/// Sort the entries under one rule, stably.
pub fn sort_by_key(v: &mut Vec<FileEntry>, k: SortKey)
    ensures
        final(v)@ == spec_sort(old(v)@, k),
{
    if v.len() <= 1 {
        proof {
            if v@.len() == 1 {
                lemma_spec_sort_single(v@, k);
            }
        }
        return;
    }
    let ghost orig = v@;
    let mut i: usize = 1;
    proof {
        lemma_spec_sort_single(orig.take(1), k);
        assert(v@.take(1) == orig.take(1));
        assert(v@.skip(1) == orig.skip(1));
    }
    while i < v.len()
        invariant
            1 <= i <= v@.len(),
            v@.len() == orig.len(),
            v@.take(i as int) == spec_sort(orig.take(i as int), k),
            v@.skip(i as int) == orig.skip(i as int),
        decreases v@.len() - i,
    {
        let ghost pre = v@;
        let mut j: usize = i;
        loop
            invariant
                0 <= j <= i < v@.len(),
                v@ == pre,
                forall|t: int| j <= t < i ==> spec_key_cmp(#[trigger] v@[t], v@[i as int], k)
                    == Ordering::Greater,
            ensures
                0 <= j <= i,
                v@ == pre,
                forall|t: int| j <= t < i ==> spec_key_cmp(#[trigger] v@[t], v@[i as int], k)
                    == Ordering::Greater,
                j > 0 ==> spec_key_cmp(v@[j - 1], v@[i as int], k) != Ordering::Greater,
            decreases j,
        {
            if j == 0 {
                break;
            }
            let c = entry_cmp(&v[j - 1], &v[i], k);
            match c {
                Ordering::Greater => {
                    j = j - 1;
                },
                _ => {
                    break;
                },
            }
        }
        let x = v.remove(i);
        v.insert(j, x);
        proof {
            let si = i as int;
            let sj = j as int;
            let sorted_pre = pre.take(si);
            assert(pre.remove(si).insert(sj, x) =~= sorted_pre.take(sj) + seq![x]
                + sorted_pre.skip(sj) + pre.skip(si + 1));
            assert forall|t: int| sj <= t < si implies spec_key_cmp(
                #[trigger] sorted_pre[t],
                x,
                k,
            ) == Ordering::Greater by {
                assert(sorted_pre[t] == pre[t]);
            }
            if sj > 0 {
                assert(sorted_pre[sj - 1] == pre[sj - 1]);
            }
            lemma_insert_at(sorted_pre, x, k, sj);
            assert(orig.take(si + 1).drop_last() =~= orig.take(si));
            assert(orig.take(si + 1).last() == orig[si]);
            assert(pre.skip(si)[0] == pre[si]);
            assert(orig.skip(si)[0] == orig[si]);
            assert(x == orig[si]);
            assert(spec_sort(orig.take(si + 1), k) == spec_insert(spec_sort(orig.take(si), k),
                x, k));
            assert(v@.take(si + 1) =~= sorted_pre.take(sj) + seq![x] + sorted_pre.skip(sj));
            assert(v@.take(si + 1) == spec_sort(orig.take(si + 1), k));
            assert forall|t: int| 0 <= t < v@.len() - (si + 1) implies #[trigger] v@.skip(
                si + 1,
            )[t] == orig.skip(si + 1)[t] by {
                assert(v@[si + 1 + t] == pre[si + 1 + t]);
                assert(pre.skip(si)[t + 1] == pre[si + 1 + t]);
                assert(orig.skip(si)[t + 1] == orig[si + 1 + t]);
            }
            assert(v@.skip(si + 1) =~= orig.skip(si + 1));
        }
        i = i + 1;
    }
    proof {
        assert(orig.take(orig.len() as int) == orig);
        assert(v@.take(v@.len() as int) == v@);
    }
}

/// What one full sorting pass leaves behind: nothing under the unsorted
/// flags; otherwise the stable primary sort, then the stable
/// directories-first pass when asked for, and a final whole-sequence reversal
/// when asked for, which also flips the grouping.
pub open spec fn spec_sort_entries(s: Seq<FileEntry>, a: Args) -> Seq<FileEntry> {
    if spec_no_sort(a) {
        s
    } else {
        let primary = spec_sort(s, spec_primary_key(a));
        let grouped = if a.group_directories_first {
            spec_sort(primary, SortKey::DirsFirst)
        } else {
            primary
        };
        if a.reverse {
            grouped.reverse()
        } else {
            grouped
        }
    }
}

/// The primary sorting rule: size, then time, then extension, then version,
/// each checked in that order, with lowercased names as the default.
pub open spec fn spec_primary_key(a: Args) -> SortKey {
    if a.sort_size {
        SortKey::Size
    } else if a.sort_time {
        SortKey::Time
    } else if a.sort_extension {
        SortKey::Extension
    } else if a.version_sort {
        SortKey::Version
    } else {
        SortKey::Name
    }
}

fn reverse_entries(v: &mut Vec<FileEntry>)
    ensures
        final(v)@ == old(v)@.reverse(),
{
    let ghost orig = v@;
    let mut out: Vec<FileEntry> = Vec::new();
    proof {
        assert(orig.take(orig.len() as int) =~= orig);
        assert(orig.skip(orig.len() as int) =~= Seq::<FileEntry>::empty());
        assert(Seq::<FileEntry>::empty().reverse() =~= Seq::<FileEntry>::empty());
    }
    while v.len() > 0
        invariant
            v@.len() <= orig.len(),
            v@ == orig.take(v@.len() as int),
            out@ == orig.skip(v@.len() as int).reverse(),
        decreases v@.len(),
    {
        let ghost n = v@.len() as int;
        let x = v.pop().unwrap();
        out.push(x);
        proof {
            assert(v@ =~= orig.take(n - 1));
            assert(x == orig[n - 1]);
            assert(orig.skip(n - 1).reverse() =~= orig.skip(n).reverse().push(orig[n - 1]));
            assert(out@ =~= orig.skip(n - 1).reverse());
        }
    }
    proof {
        assert(orig.skip(0) =~= orig);
        assert(out@ == orig.reverse());
    }
    *v = out;
}

/// Sort entries as the options ask: one primary criterion (size over time
/// over extension over version over name), then the stable
/// directories-first pass, then reversal, in that order.
pub fn sort_entries(entries: &mut Vec<FileEntry>, args: &Args)
    ensures
        final(entries)@ == spec_sort_entries(old(entries)@, *args),
{
    if args.no_sort() {
        return;
    }
    let key = if args.sort_size {
        SortKey::Size
    } else if args.sort_time {
        SortKey::Time
    } else if args.sort_extension {
        SortKey::Extension
    } else if args.version_sort {
        SortKey::Version
    } else {
        SortKey::Name
    };
    sort_by_key(entries, key);
    if args.group_directories_first {
        sort_by_key(entries, SortKey::DirsFirst);
    }
    if args.reverse {
        reverse_entries(entries);
    }
}

/// The name column's text for a database answer: the resolved name when the
/// database gave one, the numeric id rendered in decimal when it did not.
pub fn name_or_id(id: u32, answer: Option<String>) -> (r: String)
    ensures
        answer matches Some(n) ==> r == n,
        answer is None ==> r@ == spec_dec(id as nat),
{
    match answer {
        Some(n) => n,
        None => u64_to_string(id as u64),
    }
}

/// The user name for a uid, from the cache or the system user database, the
/// numeric id when the lookup fails; the answer is recorded in the cache,
/// which otherwise keeps what it held.
pub fn get_username(uid: u32, cache: &mut HashMap<u32, String>) -> (r: String)
    ensures
        final(cache)@.contains_key(uid),
        r == final(cache)@[uid],
        forall|k: u32| #[trigger] old(cache)@.contains_key(k) ==> final(cache)@.contains_key(k)
            && final(cache)@[k] == old(cache)@[k],
        forall|k: u32| #[trigger] final(cache)@.contains_key(k) ==> old(cache)@.contains_key(k)
            || k == uid,
{
    if let Some(name) = cache.get(&uid) {
        let r = name.clone();
        proof {
            assert(final(cache)@ =~= old(cache)@);
        }
        return r;
    }
    let name = name_or_id(uid, lookup_username(uid));
    let copy = name.clone();
    cache.insert(uid, copy);
    name
}

/// The group name for a gid, with the same caching as the user lookup.
pub fn get_groupname(gid: u32, cache: &mut HashMap<u32, String>) -> (r: String)
    ensures
        final(cache)@.contains_key(gid),
        r == final(cache)@[gid],
        forall|k: u32| #[trigger] old(cache)@.contains_key(k) ==> final(cache)@.contains_key(k)
            && final(cache)@[k] == old(cache)@[k],
        forall|k: u32| #[trigger] final(cache)@.contains_key(k) ==> old(cache)@.contains_key(k)
            || k == gid,
{
    if let Some(name) = cache.get(&gid) {
        let r = name.clone();
        proof {
            assert(final(cache)@ =~= old(cache)@);
        }
        return r;
    }
    let name = name_or_id(gid, lookup_groupname(gid));
    let copy = name.clone();
    cache.insert(gid, copy);
    name
}

} // verus!

verus! {

proof fn lemma_spec_insert_permutes(s: Seq<FileEntry>, x: FileEntry, k: SortKey)
    ensures
        spec_insert(s, x, k).to_multiset() == s.push(x).to_multiset(),
    decreases s.len(),
{
    broadcast use vstd::seq_lib::group_to_multiset_ensures;
    broadcast use vstd::multiset::group_multiset_axioms;

    if s.len() > 0 && spec_key_cmp(s.last(), x, k) == Ordering::Greater {
        let dl = s.drop_last();
        lemma_spec_insert_permutes(dl, x, k);
        assert(spec_insert(s, x, k).to_multiset() == spec_insert(dl, x, k).to_multiset().insert(
            s.last(),
        ));
        assert(dl.push(x).to_multiset() == dl.to_multiset().insert(x));
        assert(dl.push(s.last()) =~= s);
        assert(s.push(x).to_multiset() == dl.to_multiset().insert(s.last()).insert(x));
        assert(dl.to_multiset().insert(x).insert(s.last()) =~= dl.to_multiset().insert(
            s.last(),
        ).insert(x));
    }
}

/// A sorting pass only rearranges: the sorted run holds exactly the entries
/// the input held, with multiplicity.
pub proof fn lemma_spec_sort_permutes(s: Seq<FileEntry>, k: SortKey)
    ensures
        spec_sort(s, k).to_multiset() == s.to_multiset(),
    decreases s.len(),
{
    broadcast use vstd::seq_lib::group_to_multiset_ensures;

    if s.len() > 0 {
        lemma_spec_sort_permutes(s.drop_last(), k);
        lemma_spec_insert_permutes(spec_sort(s.drop_last(), k), s.last(), k);
        assert(s.drop_last().push(s.last()) =~= s);
        assert(spec_sort(s, k).to_multiset() =~= s.to_multiset());
    }
}

/// The whole sorting pipeline only rearranges, reversal included: every
/// entry of the input appears exactly once in the output.
pub proof fn lemma_sort_entries_permutes(s: Seq<FileEntry>, a: Args)
    ensures
        spec_sort_entries(s, a).to_multiset() == s.to_multiset(),
{
    broadcast use vstd::seq_lib::group_to_multiset_ensures;

    if !spec_no_sort(a) {
        lemma_spec_sort_permutes(s, spec_primary_key(a));
        let primary = spec_sort(s, spec_primary_key(a));
        let grouped = if a.group_directories_first {
            spec_sort(primary, SortKey::DirsFirst)
        } else {
            primary
        };
        if a.group_directories_first {
            lemma_spec_sort_permutes(primary, SortKey::DirsFirst);
        }
        if a.reverse {
            grouped.lemma_reverse_to_multiset();
        }
    }
}

} // verus!

verus! {

/// An entry sorts at or before another: the comparison is not Greater.
pub open spec fn spec_key_le(a: FileEntry, b: FileEntry, k: SortKey) -> bool {
    spec_key_cmp(a, b, k) != Ordering::Greater
}

/// Exchanging the entries exchanges Less and Greater under every sorting
/// rule.
pub proof fn lemma_key_cmp_antisymmetric(a: FileEntry, b: FileEntry, k: SortKey)
    ensures
        spec_key_cmp(a, b, k) == crate::compare::flip(spec_key_cmp(b, a, k)),
{
    match k {
        SortKey::Version => {
            crate::compare::lemma_version_cmp_antisymmetric(a.name@, b.name@);
        },
        SortKey::Name => {
            crate::text::lemma_lex_cmp_antisymmetric(lower_of(a.name@), lower_of(b.name@));
        },
        SortKey::Extension => {
            crate::text::lemma_lex_cmp_antisymmetric(a.extension@, b.extension@);
            crate::text::lemma_lex_cmp_antisymmetric(lower_of(a.name@), lower_of(b.name@));
        },
        _ => {},
    }
}

/// At-or-before is transitive under every sorting rule.
pub proof fn lemma_key_le_transitive(a: FileEntry, b: FileEntry, c: FileEntry, k: SortKey)
    requires
        spec_key_le(a, b, k),
        spec_key_le(b, c, k),
    ensures
        spec_key_le(a, c, k),
{
    match k {
        SortKey::Version => {
            lemma_version_le_trans(a.name@, b.name@, c.name@);
        },
        SortKey::Name => {
            lemma_lex_le_trans(lower_of(a.name@), lower_of(b.name@), lower_of(c.name@));
        },
        SortKey::Extension => {
            let ea = a.extension@;
            let eb = b.extension@;
            let ec = c.extension@;
            let cab = spec_lex_cmp(ea, eb);
            let cbc = spec_lex_cmp(eb, ec);
            if cab == Ordering::Equal {
                crate::text::lemma_lex_cmp_equal_is_eq(ea, eb);
            }
            if cbc == Ordering::Equal {
                crate::text::lemma_lex_cmp_equal_is_eq(eb, ec);
            }
            if cab == Ordering::Less && cbc == Ordering::Less {
                crate::text::lemma_lex_cmp_transitive(ea, eb, ec);
            }
            if cab == Ordering::Equal && cbc == Ordering::Equal {
                lemma_lex_le_trans(lower_of(a.name@), lower_of(b.name@), lower_of(c.name@));
            }
        },
        _ => {},
    }
}

/// At-or-before transitivity for the lexicographic order.
proof fn lemma_lex_le_trans(a: Seq<char>, b: Seq<char>, c: Seq<char>)
    requires
        spec_lex_cmp(a, b) != Ordering::Greater,
        spec_lex_cmp(b, c) != Ordering::Greater,
    ensures
        spec_lex_cmp(a, c) != Ordering::Greater,
{
    if spec_lex_cmp(a, b) == Ordering::Equal {
        crate::text::lemma_lex_cmp_equal_is_eq(a, b);
    } else if spec_lex_cmp(b, c) == Ordering::Equal {
        crate::text::lemma_lex_cmp_equal_is_eq(b, c);
    } else {
        crate::text::lemma_lex_cmp_transitive(a, b, c);
    }
}

/// At-or-before transitivity for the natural/version order.
proof fn lemma_version_le_trans(a: Seq<char>, b: Seq<char>, c: Seq<char>)
    requires
        spec_version_cmp(a, b) != Ordering::Greater,
        spec_version_cmp(b, c) != Ordering::Greater,
    ensures
        spec_version_cmp(a, c) != Ordering::Greater,
{
    if spec_version_cmp(a, b) == Ordering::Equal {
        crate::compare::lemma_version_cmp_equal_composes(a, b, c);
    } else if spec_version_cmp(b, c) == Ordering::Equal {
        crate::compare::lemma_version_cmp_antisymmetric(b, c);
        crate::compare::lemma_version_cmp_equal_composes(c, b, a);
        crate::compare::lemma_version_cmp_antisymmetric(a, b);
        crate::compare::lemma_version_cmp_antisymmetric(a, c);
    } else {
        crate::compare::lemma_version_cmp_transitive(a, b, c);
    }
}

/// A run is sorted under a rule when no entry compares Greater than one
/// after it.
pub open spec fn spec_sorted_by(s: Seq<FileEntry>, k: SortKey) -> bool {
    forall|i: int, j: int| 0 <= i < j < s.len() ==> spec_key_le(#[trigger] s[i],
        #[trigger] s[j], k)
}

proof fn lemma_insert_position(s: Seq<FileEntry>, x: FileEntry, k: SortKey) -> (m: int)
    ensures
        0 <= m <= s.len(),
        forall|j: int| m <= j < s.len() ==> spec_key_cmp(#[trigger] s[j], x, k)
            == Ordering::Greater,
        m > 0 ==> spec_key_cmp(s[m - 1], x, k) != Ordering::Greater,
        spec_insert(s, x, k) == s.take(m) + seq![x] + s.skip(m),
    decreases s.len(),
{
    let m: int = if s.len() > 0 && spec_key_cmp(s.last(), x, k) == Ordering::Greater {
        let m0 = lemma_insert_position(s.drop_last(), x, k);
        assert forall|j: int| m0 <= j < s.len() implies spec_key_cmp(#[trigger] s[j], x, k)
            == Ordering::Greater by {
            if j < s.len() - 1 {
                assert(s.drop_last()[j] == s[j]);
            }
        }
        if m0 > 0 {
            assert(s.drop_last()[m0 - 1] == s[m0 - 1]);
        }
        m0
    } else {
        s.len() as int
    };
    lemma_insert_at(s, x, k, m);
    m
}

proof fn lemma_insert_keeps_sorted(s: Seq<FileEntry>, x: FileEntry, k: SortKey)
    requires
        spec_sorted_by(s, k),
    ensures
        spec_sorted_by(spec_insert(s, x, k), k),
{
    let m = lemma_insert_position(s, x, k);
    let r = spec_insert(s, x, k);
    assert forall|i: int, j: int| 0 <= i < j < r.len() implies spec_key_le(#[trigger] r[i],
        #[trigger] r[j], k) by {
        if i < m {
            assert(r[i] == s[i]);
        } else if i == m {
            assert(r[i] == x);
        } else {
            assert(r[i] == s[i - 1]);
        }
        if j < m {
            assert(r[j] == s[j]);
        } else if j == m {
            assert(r[j] == x);
        } else {
            assert(r[j] == s[j - 1]);
        }
        if j == m {
            // Everything before the insertion point sorts at or before the
            // inserted entry, through its left neighbour.
            assert(i < m);
            assert(spec_key_cmp(s[m - 1], x, k) != Ordering::Greater);
            if i < m - 1 {
                lemma_key_le_transitive(s[i], s[m - 1], x, k);
            }
        } else if i == m {
            assert(j > m);
            assert(spec_key_cmp(s[j - 1], x, k) == Ordering::Greater);
            lemma_key_cmp_antisymmetric(s[j - 1], x, k);
        }
    }
}

/// A sorting pass leaves the run sorted under its rule.
pub proof fn lemma_spec_sort_sorted(s: Seq<FileEntry>, k: SortKey)
    ensures
        spec_sorted_by(spec_sort(s, k), k),
    decreases s.len(),
{
    if s.len() > 0 {
        lemma_spec_sort_sorted(s.drop_last(), k);
        lemma_insert_keeps_sorted(spec_sort(s.drop_last(), k), s.last(), k);
    }
}

/// The `/`-separated segments of a path read left to right: `cur` holds the
/// segment being read and `acc` those already read; empty and `.` segments
/// are dropped, as path component counting drops them.
pub open spec fn spec_segments_rec(p: Seq<char>, cur: Seq<char>, acc: Seq<Seq<char>>) -> Seq<
    Seq<char>,
>
    decreases p.len(),
{
    if p.len() == 0 {
        if cur.len() == 0 || cur == "."@ {
            acc
        } else {
            acc.push(cur)
        }
    } else if p[0] == '/' {
        spec_segments_rec(p.skip(1), Seq::empty(), if cur.len() == 0 || cur == "."@ {
            acc
        } else {
            acc.push(cur)
        })
    } else {
        spec_segments_rec(p.skip(1), cur.push(p[0]), acc)
    }
}

/// The `/`-separated segments of a path, empty and `.` segments dropped.
pub open spec fn spec_path_segments(p: Seq<char>) -> Seq<Seq<char>> {
    spec_segments_rec(p, Seq::empty(), Seq::empty())
}

/// Split a path into its segments.
pub fn path_segments(p: &str) -> (r: Vec<Vec<char>>)
    ensures
        r@.map_values(|v: Vec<char>| v@) == spec_path_segments(p@),
{
    let pv = str_to_chars(p);
    let mut out: Vec<Vec<char>> = Vec::new();
    let mut cur: Vec<char> = Vec::new();
    let mut i: usize = 0;
    proof {
        assert(pv@.skip(0) == pv@);
        assert(out@.map_values(|v: Vec<char>| v@) =~= Seq::<Seq<char>>::empty());
        assert(cur@ =~= Seq::<char>::empty());
    }
    while i < pv.len()
        invariant
            i <= pv.len(),
            pv@ == p@,
            spec_path_segments(p@) == spec_segments_rec(pv@.skip(i as int), cur@,
                out@.map_values(|v: Vec<char>| v@)),
        decreases pv.len() - i,
    {
        let c = pv[i];
        proof {
            assert(pv@.skip(i as int)[0] == pv@[i as int]);
            assert(pv@.skip(i as int).skip(1) == pv@.skip(i + 1 as int));
        }
        if c == '/' {
            let keep = cur.len() > 0 && !crate::text::chars_eq_str(&cur, ".");
            let ghost pre = out@.map_values(|v: Vec<char>| v@);
            let ghost cv = cur@;
            if keep {
                out.push(cur);
                proof {
                    assert(out@.map_values(|v: Vec<char>| v@) =~= pre.push(cv));
                }
            }
            cur = Vec::new();
            proof {
                assert(cur@ =~= Seq::<char>::empty());
            }
        } else {
            cur.push(c);
        }
        i = i + 1;
    }
    proof {
        assert(pv@.skip(pv@.len() as int) =~= Seq::<char>::empty());
    }
    let keep = cur.len() > 0 && !crate::text::chars_eq_str(&cur, ".");
    if keep {
        let ghost pre = out@.map_values(|v: Vec<char>| v@);
        let ghost cv = cur@;
        out.push(cur);
        proof {
            assert(out@.map_values(|v: Vec<char>| v@) =~= pre.push(cv));
        }
    }
    out
}

/// One segment run is a prefix of another.
pub open spec fn spec_seg_prefix(base: Seq<Seq<char>>, sub: Seq<Seq<char>>) -> bool {
    base.len() <= sub.len() && forall|i: int| 0 <= i < base.len() ==> base[i] == sub[i]
}

/// The recursion depth of a subpath relative to a base path: how many
/// segments the subpath adds beyond the base when the base's segments are a
/// prefix of its own, and zero when they are not.
pub open spec fn spec_rel_depth(base: Seq<char>, sub: Seq<char>) -> nat {
    let b = spec_path_segments(base);
    let s = spec_path_segments(sub);
    if spec_seg_prefix(b, s) {
        (s.len() - b.len()) as nat
    } else {
        0
    }
}

/// Whether a subdirectory lies beyond the recursion depth cutoff: its depth
/// relative to the original directory argument — not the immediate parent —
/// exceeds the limit, when one is set.
pub fn depth_exceeds(base: &str, sub: &str, max_depth: Option<usize>) -> (r: bool)
    ensures
        match max_depth {
            Some(limit) => r == (spec_rel_depth(base@, sub@) > limit),
            None => r == false,
        },
{
    let limit: usize = match max_depth {
        None => {
            return false;
        },
        Some(l) => l,
    };
    let b = path_segments(base);
    let s = path_segments(sub);
    let ghost bm = b@.map_values(|v: Vec<char>| v@);
    let ghost sm = s@.map_values(|v: Vec<char>| v@);
    if b.len() > s.len() {
        proof {
            assert(bm.len() == b@.len());
            assert(sm.len() == s@.len());
            assert(!spec_seg_prefix(bm, sm));
            assert(spec_rel_depth(base@, sub@) == 0);
        }
        return false;
    }
    let mut i: usize = 0;
    while i < b.len()
        invariant
            i <= b.len(),
            b@.len() <= s@.len(),
            bm == b@.map_values(|v: Vec<char>| v@),
            sm == s@.map_values(|v: Vec<char>| v@),
            bm == spec_path_segments(base@),
            sm == spec_path_segments(sub@),
            forall|j: int| 0 <= j < i ==> bm[j] == sm[j],
        decreases b.len() - i,
    {
        if !crate::text::chars_eq(&b[i], &s[i]) {
            proof {
                assert(bm[i as int] != sm[i as int]);
                assert(!spec_seg_prefix(bm, sm));
                assert(spec_rel_depth(base@, sub@) == 0);
            }
            return false;
        }
        i = i + 1;
    }
    proof {
        assert(spec_seg_prefix(bm, sm));
    }
    let depth = s.len() - b.len();
    depth > limit
}

/// Without the grouping pass and without reversal, the whole sorting
/// pipeline leaves the entries sorted under the primary rule; and with the
/// grouping pass but no reversal, directories all stand before
/// non-directories.
pub proof fn lemma_sort_entries_sorted(s: Seq<FileEntry>, a: Args)
    requires
        !spec_no_sort(a),
        !a.reverse,
    ensures
        !a.group_directories_first ==> spec_sorted_by(spec_sort_entries(s, a),
            spec_primary_key(a)),
        a.group_directories_first ==> spec_sorted_by(spec_sort_entries(s, a),
            SortKey::DirsFirst),
{
    lemma_spec_sort_sorted(s, spec_primary_key(a));
    if a.group_directories_first {
        lemma_spec_sort_sorted(spec_sort(s, spec_primary_key(a)), SortKey::DirsFirst);
    }
}

} // verus!
