//! The rendering drivers: one item string per entry for the flat layouts,
//! the long-format block with its column widths, the dispatch between
//! layouts, headers and total lines, and the tree renderer.
use vstd::prelude::*;
use std::collections::HashMap;

use crate::cli::{Args, spec_is_long};
use crate::entry::FileEntry;
use crate::format::{classify_indicator, colorize_filename, format_long_entry, format_size,
    format_time, spec_classify_indicator, spec_colorize_filename, spec_color_wrap, spec_dec,
    spec_format_size, spec_group_name, spec_long_line, spec_owner_name};
use crate::foreign::{chars_to_string, str_to_chars};
use crate::grid::{format_comma, format_grid, format_single_column, spec_format_comma,
    spec_format_grid, spec_single_column};
use crate::icons::{IconEntry, get_icon, spec_get_icon};
use crate::text::{push_str_chars, spec_spaces, u64_to_string};

verus! {

/// The icon text an entry gets in a rendering: the glyph wrapped in its color
/// when coloring is on, the bare glyph otherwise, and nothing when icons are
/// off.
pub open spec fn spec_icon_text(
    t: Seq<(&'static str, IconEntry)>,
    e: FileEntry,
    use_color: bool,
    show_icons: bool,
) -> Seq<char> {
    if !show_icons {
        Seq::empty()
    } else {
        let ic = spec_get_icon(t, e.name@, e.is_dir, e.is_hidden, e.is_symlink, e.is_executable,
            e.is_pipe, e.is_socket, e.is_block_device, e.is_char_device);
        if use_color {
            spec_color_wrap(ic.1, ic.0)
        } else {
            ic.0
        }
    }
}

fn icon_text(t: &Vec<(&'static str, IconEntry)>, e: &FileEntry, use_color: bool,
    show_icons: bool) -> (r: String)
    ensures
        r@ == spec_icon_text(t@, *e, use_color, show_icons),
{
    if !show_icons {
        return String::new();
    }
    let ic = get_icon(t, e.name.as_str(), e.is_dir, e.is_hidden, e.is_symlink, e.is_executable,
        e.is_pipe, e.is_socket, e.is_block_device, e.is_char_device);
    if use_color {
        ic.colored()
    } else {
        ic.plain()
    }
}

/// The suffix the classify options add: the full indicator set under the
/// classify flag, a slash on directories under the slash flag, and nothing
/// otherwise.
pub open spec fn spec_item_suffix(e: FileEntry, a: Args) -> Seq<char> {
    if a.classify {
        spec_classify_indicator(e, true)
    } else if a.slash_dirs && e.is_dir {
        "/"@
    } else {
        Seq::empty()
    }
}

/// One pre-rendered item for the grid, one-per-line and comma layouts: the
/// optional inode and block fields, the optional icon, the colored name, the
/// classify suffix, and — one-per-line only — the symlink target.
pub open spec fn spec_item(
    e: FileEntry,
    a: Args,
    t: Seq<(&'static str, IconEntry)>,
    use_color: bool,
    show_icons: bool,
) -> Seq<char> {
    (if a.inode {
        spec_dec(e.inode as nat) + seq![' ']
    } else {
        Seq::empty()
    }) + (if a.show_size {
        spec_dec((e.blocks / 2) as nat) + seq![' ']
    } else {
        Seq::empty()
    }) + (if show_icons {
        spec_icon_text(t, e, use_color, show_icons) + seq![' ']
    } else {
        Seq::empty()
    }) + spec_colorize_filename(e, use_color) + spec_item_suffix(e, a) + (
    if e.is_symlink && a.one_per_line && e.symlink_target is Some {
        " -> "@ + (if use_color {
            spec_color_wrap("36"@, e.symlink_target->0@)
        } else {
            e.symlink_target->0@
        })
    } else {
        Seq::empty()
    })
}

#[verifier::rlimit(100)]
fn format_one_item(e: &FileEntry, args: &Args, t: &Vec<(&'static str, IconEntry)>,
    use_color: bool, show_icons: bool) -> (r: String)
    ensures
        r@ == spec_item(*e, *args, t@, use_color, show_icons),
{
    let mut v: Vec<char> = Vec::new();
    let ghost mut acc: Seq<char> = Seq::empty();
    proof {
        assert(v@ =~= acc);
    }
    let ghost p1: Seq<char> = if args.inode {
        spec_dec(e.inode as nat) + seq![' ']
    } else {
        Seq::empty()
    };
    if args.inode {
        let ghost m0 = v@;
        let d = u64_to_string(e.inode);
        push_str_chars(&mut v, d.as_str());
        v.push(' ');
        proof {
            assert(v@ =~= m0 + p1);
        }
    }
    proof {
        if !args.inode {
            assert(acc + p1 =~= acc);
        }
        assert(acc + p1 =~= v@);
        acc = acc + p1;
    }
    let ghost p2: Seq<char> = if args.show_size {
        spec_dec((e.blocks / 2) as nat) + seq![' ']
    } else {
        Seq::empty()
    };
    if args.show_size {
        let ghost m0 = v@;
        let d = u64_to_string(e.blocks / 2);
        push_str_chars(&mut v, d.as_str());
        v.push(' ');
        proof {
            assert(v@ =~= m0 + p2);
        }
    }
    proof {
        assert(acc + p2 =~= v@);
        acc = acc + p2;
    }
    let ghost p3: Seq<char> = if show_icons {
        spec_icon_text(t@, *e, use_color, show_icons) + seq![' ']
    } else {
        Seq::empty()
    };
    if show_icons {
        let ghost m0 = v@;
        let ic = icon_text(t, e, use_color, show_icons);
        push_str_chars(&mut v, ic.as_str());
        v.push(' ');
        proof {
            assert(v@ =~= m0 + p3);
        }
    }
    proof {
        assert(acc + p3 =~= v@);
        acc = acc + p3;
    }
    let cname = colorize_filename(e, use_color);
    push_str_chars(&mut v, cname.as_str());
    proof {
        assert(acc + spec_colorize_filename(*e, use_color) =~= v@);
        acc = acc + spec_colorize_filename(*e, use_color);
    }
    let ghost p4: Seq<char> = spec_item_suffix(*e, *args);
    if args.classify {
        push_str_chars(&mut v, classify_indicator(e, true));
    } else if args.slash_dirs && e.is_dir {
        v.push('/');
        proof {
            reveal_strlit("/");
            assert(seq!['/'] =~= "/"@);
        }
    }
    proof {
        assert(acc + p4 =~= v@);
        acc = acc + p4;
    }
    let ghost p5: Seq<char> = if e.is_symlink && args.one_per_line && e.symlink_target
        is Some {
        " -> "@ + (if use_color {
            spec_color_wrap("36"@, e.symlink_target->0@)
        } else {
            e.symlink_target->0@
        })
    } else {
        Seq::empty()
    };
    if e.is_symlink && args.one_per_line {
        if let Some(target) = &e.symlink_target {
            let ghost m0 = v@;
            push_str_chars(&mut v, " -> ");
            if use_color {
                let tc = str_to_chars(target.as_str());
                crate::format::push_color_wrap(&mut v, "36", &tc);
            } else {
                push_str_chars(&mut v, target.as_str());
            }
            proof {
                assert(v@ =~= m0 + p5);
            }
        }
    }
    proof {
        assert(acc + p5 =~= v@);
        acc = acc + p5;
        assert(acc == spec_item(*e, *args, t@, use_color, show_icons));
    }
    chars_to_string(&v)
}

/// The pre-rendered items of all entries, in order.
pub open spec fn spec_items(
    entries: Seq<FileEntry>,
    a: Args,
    t: Seq<(&'static str, IconEntry)>,
    use_color: bool,
    show_icons: bool,
) -> Seq<Seq<char>> {
    entries.map_values(|e: FileEntry| spec_item(e, a, t, use_color, show_icons))
}

/// Format items for the grid, one-per-line and comma views.
pub fn format_items(entries: &Vec<FileEntry>, args: &Args, icon_map: &Vec<(&'static str,
    IconEntry)>, use_color: bool, show_icons: bool) -> (r: Vec<String>)
    ensures
        r@.map_values(|s: String| s@) == spec_items(entries@, *args, icon_map@, use_color,
            show_icons),
{
    let mut out: Vec<String> = Vec::new();
    let mut i: usize = 0;
    while i < entries.len()
        invariant
            i <= entries.len(),
            out@.len() == i,
            forall|j: int| 0 <= j < i ==> #[trigger] out@[j]@ == spec_item(entries@[j], *args,
                icon_map@, use_color, show_icons),
        decreases entries.len() - i,
    {
        let s = format_one_item(&entries[i], args, icon_map, use_color, show_icons);
        out.push(s);
        i = i + 1;
    }
    proof {
        assert(out@.map_values(|s: String| s@) =~= spec_items(entries@, *args, icon_map@,
            use_color, show_icons));
    }
    out
}

/// The larger of two column widths.
pub open spec fn spec_max_nat(a: nat, b: nat) -> nat {
    if a >= b {
        a
    } else {
        b
    }
}

/// The hard-link column's width: the widest rendered link count over the
/// run, one column at least.
pub open spec fn spec_nlink_col_width(entries: Seq<FileEntry>) -> nat
    decreases entries.len(),
{
    if entries.len() == 0 {
        1
    } else {
        spec_max_nat(spec_nlink_col_width(entries.drop_last()), spec_dec(
            entries.last().nlink as nat,
        ).len())
    }
}

/// The size column's width: the widest rendered size over the run, one
/// column at least.
pub open spec fn spec_size_col_width(entries: Seq<FileEntry>, human: bool, si: bool) -> nat
    decreases entries.len(),
{
    if entries.len() == 0 {
        1
    } else {
        spec_max_nat(spec_size_col_width(entries.drop_last(), human, si), spec_format_size(
            entries.last().size,
            human,
            si,
        ).len())
    }
}

/// The inode column's width: the widest rendered inode number over the run,
/// one column at least.
pub open spec fn spec_inode_col_width(entries: Seq<FileEntry>) -> nat
    decreases entries.len(),
{
    if entries.len() == 0 {
        1
    } else {
        spec_max_nat(spec_inode_col_width(entries.drop_last()), spec_dec(
            entries.last().inode as nat,
        ).len())
    }
}

/// The block column's width: the widest rendered 1K block count over the
/// run, one column at least.
pub open spec fn spec_blocks_col_width(entries: Seq<FileEntry>) -> nat
    decreases entries.len(),
{
    if entries.len() == 0 {
        1
    } else {
        spec_max_nat(spec_blocks_col_width(entries.drop_last()), spec_dec(
            (entries.last().blocks / 2) as nat,
        ).len())
    }
}

/// The owner column's width: the widest owner text the name table gives the
/// entries' ids, one column at least.
pub open spec fn spec_owner_col_width(
    entries: Seq<FileEntry>,
    numeric_ids: bool,
    names: Map<u32, String>,
) -> nat
    decreases entries.len(),
{
    if entries.len() == 0 {
        1
    } else {
        spec_max_nat(spec_owner_col_width(entries.drop_last(), numeric_ids, names),
            spec_owner_name(entries.last(), numeric_ids, names).len())
    }
}

/// The group column's width, by the same rule.
pub open spec fn spec_group_col_width(
    entries: Seq<FileEntry>,
    numeric_ids: bool,
    names: Map<u32, String>,
) -> nat
    decreases entries.len(),
{
    if entries.len() == 0 {
        1
    } else {
        spec_max_nat(spec_group_col_width(entries.drop_last(), numeric_ids, names),
            spec_group_name(entries.last(), numeric_ids, names).len())
    }
}

/// The owner column's width does not change when the name table later learns
/// new ids: it reads only the ids the entries hold, and those keep their
/// names.
proof fn lemma_owner_col_width_stable(
    entries: Seq<FileEntry>,
    numeric_ids: bool,
    names0: Map<u32, String>,
    names1: Map<u32, String>,
)
    requires
        forall|k: u32| #[trigger] names0.contains_key(k) ==> names1.contains_key(k)
            && names1[k] == names0[k],
        !numeric_ids ==> forall|i: int| 0 <= i < entries.len() ==> names0.contains_key(
            #[trigger] entries[i].uid,
        ),
    ensures
        spec_owner_col_width(entries, numeric_ids, names1) == spec_owner_col_width(entries,
            numeric_ids, names0),
    decreases entries.len(),
{
    if entries.len() > 0 {
        assert forall|i: int| 0 <= i < entries.drop_last().len() implies #[trigger] entries.drop_last()[
            i
        ] == entries[i] by {}
        lemma_owner_col_width_stable(entries.drop_last(), numeric_ids, names0, names1);
        if !numeric_ids {
            assert(entries[entries.len() - 1] == entries.last());
            assert(names0.contains_key(entries.last().uid));
        }
    }
}

/// The group column's width is stable in the same way.
proof fn lemma_group_col_width_stable(
    entries: Seq<FileEntry>,
    numeric_ids: bool,
    names0: Map<u32, String>,
    names1: Map<u32, String>,
)
    requires
        forall|k: u32| #[trigger] names0.contains_key(k) ==> names1.contains_key(k)
            && names1[k] == names0[k],
        !numeric_ids ==> forall|i: int| 0 <= i < entries.len() ==> names0.contains_key(
            #[trigger] entries[i].gid,
        ),
    ensures
        spec_group_col_width(entries, numeric_ids, names1) == spec_group_col_width(entries,
            numeric_ids, names0),
    decreases entries.len(),
{
    if entries.len() > 0 {
        assert forall|i: int| 0 <= i < entries.drop_last().len() implies #[trigger] entries.drop_last()[
            i
        ] == entries[i] by {}
        lemma_group_col_width_stable(entries.drop_last(), numeric_ids, names0, names1);
        if !numeric_ids {
            assert(entries[entries.len() - 1] == entries.last());
            assert(names0.contains_key(entries.last().gid));
        }
    }
}

/// The owner column's width under the flags: measured over the run when the
/// owner column is on, one column otherwise.
pub open spec fn spec_long_owner_width(
    entries: Seq<FileEntry>,
    a: Args,
    owners: Map<u32, String>,
) -> nat {
    if a.long_no_owner {
        1
    } else {
        spec_owner_col_width(entries, a.numeric_uid_gid, owners)
    }
}

/// The group column's width under the flags.
pub open spec fn spec_long_group_width(
    entries: Seq<FileEntry>,
    a: Args,
    groups: Map<u32, String>,
) -> nat {
    if !a.long_no_group && !a.no_group {
        spec_group_col_width(entries, a.numeric_uid_gid, groups)
    } else {
        1
    }
}

/// The inode column's width under the flags.
pub open spec fn spec_long_inode_width(entries: Seq<FileEntry>, a: Args) -> nat {
    if a.inode {
        spec_inode_col_width(entries)
    } else {
        1
    }
}

/// The block column's width under the flags.
pub open spec fn spec_long_blocks_width(entries: Seq<FileEntry>, a: Args) -> nat {
    if a.show_size {
        spec_blocks_col_width(entries)
    } else {
        1
    }
}

/// The long format's output, for some owner and group name tables and
/// timestamp texts: one line per entry in order, the numeric columns
/// right-justified and the name columns left-justified, each to the width of
/// the widest rendered field of its own column over the whole run, and every
/// missing timestamp rendered as twelve spaces. The names and the present
/// timestamps come from the environment, so the tables and texts stand as
/// witnesses; the column widths are pinned against them.
pub open spec fn spec_long_output(
    r: Seq<char>,
    entries: Seq<FileEntry>,
    a: Args,
    t: Seq<(&'static str, IconEntry)>,
    use_color: bool,
    show_icons: bool,
) -> bool {
    exists|owners: Map<u32, String>, groups: Map<u32, String>, times: Seq<Seq<char>>|
        {
            &&& times.len() == entries.len()
            &&& (forall|i: int|
                #![trigger times[i]]
                0 <= i < entries.len() && entries[i].modified is None ==> times[i]
                    == spec_spaces(12))
            &&& r == spec_long_lines(entries, a, t, use_color, show_icons, owners, groups,
                times, spec_nlink_col_width(entries), spec_long_owner_width(entries, a, owners),
                spec_long_group_width(entries, a, groups), spec_size_col_width(entries,
                    a.human_readable, a.si), spec_long_inode_width(entries, a),
                spec_long_blocks_width(entries, a))
        }
}

/// All lines of a long-format listing: one line per entry, each ending in a
/// newline, with owner and group names drawn from the given name tables and
/// the timestamp texts given per entry.
pub open spec fn spec_long_lines(
    entries: Seq<FileEntry>,
    a: Args,
    t: Seq<(&'static str, IconEntry)>,
    use_color: bool,
    show_icons: bool,
    owners: Map<u32, String>,
    groups: Map<u32, String>,
    times: Seq<Seq<char>>,
    nlink_width: nat,
    owner_width: nat,
    group_width: nat,
    size_width: nat,
    inode_width: nat,
    blocks_width: nat,
) -> Seq<char>
    decreases entries.len(),
{
    if entries.len() == 0 {
        Seq::empty()
    } else {
        let e = entries.last();
        let show_owner = !a.long_no_owner;
        let show_group = !a.long_no_group && !a.no_group;
        spec_long_lines(entries.drop_last(), a, t, use_color, show_icons, owners, groups,
            times.drop_last(), nlink_width, owner_width, group_width, size_width, inode_width,
            blocks_width) + spec_long_line(e, spec_icon_text(t, e, use_color, show_icons),
            show_icons, show_owner, show_group, a.inode, a.show_size, a.author,
            a.human_readable, a.si, use_color, spec_owner_name(e, a.numeric_uid_gid, owners),
            spec_group_name(e, a.numeric_uid_gid, groups), times.last(), nlink_width,
            owner_width, group_width, size_width, inode_width, blocks_width)
            + spec_item_suffix(e, a) + seq!['\n']
    }
}

/// One long-format line with its classify suffix and newline; the timestamp
/// text that was used comes back as a ghost witness.
fn render_one_long(e: &FileEntry, args: &Args, icon_map: &Vec<(&'static str, IconEntry)>,
    use_color: bool, show_icons: bool, user_cache: &mut HashMap<u32, String>,
    group_cache: &mut HashMap<u32, String>, nlink_width: usize, owner_width: usize,
    group_width: usize, size_width: usize, inode_width: usize, blocks_width: usize) -> (r: (
    String,
    Ghost<Seq<char>>,
))
    ensures
        r.0@ == spec_long_line(*e, spec_icon_text(icon_map@, *e, use_color, show_icons),
            show_icons, !args.long_no_owner, !args.long_no_group && !args.no_group, args.inode,
            args.show_size, args.author, args.human_readable, args.si, use_color,
            spec_owner_name(*e, args.numeric_uid_gid, final(user_cache)@), spec_group_name(*e,
            args.numeric_uid_gid, final(group_cache)@), r.1@, nlink_width as nat,
            owner_width as nat, group_width as nat, size_width as nat, inode_width as nat,
            blocks_width as nat) + spec_item_suffix(*e, *args) + seq!['\n'],
        forall|k: u32| #[trigger] old(user_cache)@.contains_key(k) ==> final(user_cache)@.contains_key(k) && final(user_cache)@[k] == old(user_cache)@[k],
        forall|k: u32| #[trigger] final(user_cache)@.contains_key(k) ==> old(user_cache)@.contains_key(k) || k == e.uid,
        forall|k: u32| #[trigger] old(group_cache)@.contains_key(k) ==> final(group_cache)@.contains_key(k) && final(group_cache)@[k] == old(group_cache)@[k],
        forall|k: u32| #[trigger] final(group_cache)@.contains_key(k) ==> old(group_cache)@.contains_key(k) || k == e.gid,
        (!args.long_no_owner || args.author) && !args.numeric_uid_gid ==> final(user_cache)@.contains_key(e.uid),
        (!args.long_no_group && !args.no_group) && !args.numeric_uid_gid ==> final(group_cache)@.contains_key(e.gid),
        e.modified is None ==> r.1@ == spec_spaces(12),
{
    let show_owner = !args.long_no_owner;
    let show_group = !args.long_no_group && !args.no_group;
    let ic = icon_text(icon_map, e, use_color, show_icons);
    let time_str = format_time(e.modified);
    let line = format_long_entry(e, ic.as_str(), show_icons, show_owner, show_group,
        args.inode, args.show_size, args.author, args.human_readable, args.si,
        args.numeric_uid_gid, use_color, time_str.as_str(), user_cache, group_cache,
        nlink_width, owner_width, group_width, size_width, inode_width, blocks_width);
    let mut v: Vec<char> = Vec::new();
    push_str_chars(&mut v, line.as_str());
    if args.classify {
        push_str_chars(&mut v, classify_indicator(e, true));
    } else if args.slash_dirs && e.is_dir {
        v.push('/');
        proof {
            reveal_strlit("/");
            assert(seq!['/'] =~= "/"@);
        }
    }
    v.push('\n');
    proof {
        assert(v@ =~= line@ + spec_item_suffix(*e, *args) + seq!['\n']);
    }
    (chars_to_string(&v), Ghost(time_str@))
}

/// Print entries in long format: column widths are measured first, then one
/// line per entry is rendered. The owner and group names and the timestamp
/// texts come from the environment, so the name tables and timestamp texts
/// stand as witnesses in the contract, and every column width is pinned
/// against them as the widest rendered field of its own column.
#[verifier::rlimit(100)]
pub fn print_long(entries: &Vec<FileEntry>, args: &Args, icon_map: &Vec<(&'static str,
    IconEntry)>, use_color: bool, show_icons: bool) -> (r: String)
    ensures
        spec_long_output(r@, entries@, *args, icon_map@, use_color, show_icons),
{
    let show_owner = !args.long_no_owner;
    let show_group = !args.long_no_group && !args.no_group;
    let numeric_ids = args.numeric_uid_gid;
    let mut user_cache: HashMap<u32, String> = HashMap::new();
    let mut group_cache: HashMap<u32, String> = HashMap::new();

    let mut nlink_width: usize = 1;
    let mut owner_width: usize = 1;
    let mut group_width: usize = 1;
    let mut size_width: usize = 1;
    let mut inode_width: usize = 1;
    let mut blocks_width: usize = 1;
    let mut i: usize = 0;
    proof {
        assert(entries@.take(0) =~= Seq::<FileEntry>::empty());
    }
    while i < entries.len()
        invariant
            i <= entries.len(),
            show_owner == !args.long_no_owner,
            show_group == (!args.long_no_group && !args.no_group),
            numeric_ids == args.numeric_uid_gid,
            nlink_width as nat == spec_nlink_col_width(entries@.take(i as int)),
            size_width as nat == spec_size_col_width(entries@.take(i as int),
                args.human_readable, args.si),
            show_owner ==> owner_width as nat == spec_owner_col_width(entries@.take(i as int),
                numeric_ids, user_cache@),
            !show_owner ==> owner_width == 1,
            show_group ==> group_width as nat == spec_group_col_width(entries@.take(i as int),
                numeric_ids, group_cache@),
            !show_group ==> group_width == 1,
            args.inode ==> inode_width as nat == spec_inode_col_width(entries@.take(i as int)),
            !args.inode ==> inode_width == 1,
            args.show_size ==> blocks_width as nat == spec_blocks_col_width(entries@.take(
                i as int,
            )),
            !args.show_size ==> blocks_width == 1,
            show_owner && !numeric_ids ==> forall|u: int|
                0 <= u < i ==> user_cache@.contains_key(#[trigger] entries@[u].uid),
            show_group && !numeric_ids ==> forall|u: int|
                0 <= u < i ==> group_cache@.contains_key(#[trigger] entries@[u].gid),
        decreases entries.len() - i,
    {
        let e = &entries[i];
        proof {
            assert(entries@.take(i + 1 as int).drop_last() =~= entries@.take(i as int));
            assert(entries@.take(i + 1 as int).last() == entries@[i as int]);
        }
        let nl = u64_to_string(e.nlink);
        let nll = nl.as_str().unicode_len();
        if nll > nlink_width {
            nlink_width = nll;
        }
        if show_owner {
            let ghost pre_user = user_cache@;
            let s: String = if numeric_ids {
                u64_to_string(e.uid as u64)
            } else {
                crate::entry::get_username(e.uid, &mut user_cache)
            };
            proof {
                if !numeric_ids {
                    lemma_owner_col_width_stable(entries@.take(i as int), numeric_ids,
                        pre_user, user_cache@);
                }
                assert(s@ == spec_owner_name(entries@[i as int], numeric_ids, user_cache@));
            }
            let l = s.as_str().unicode_len();
            if l > owner_width {
                owner_width = l;
            }
        }
        if show_group {
            let ghost pre_group = group_cache@;
            let s: String = if numeric_ids {
                u64_to_string(e.gid as u64)
            } else {
                crate::entry::get_groupname(e.gid, &mut group_cache)
            };
            proof {
                if !numeric_ids {
                    lemma_group_col_width_stable(entries@.take(i as int), numeric_ids,
                        pre_group, group_cache@);
                }
                assert(s@ == spec_group_name(entries@[i as int], numeric_ids, group_cache@));
            }
            let l = s.as_str().unicode_len();
            if l > group_width {
                group_width = l;
            }
        }
        let sz = format_size(e.size, args.human_readable, args.si);
        let szl = sz.as_str().unicode_len();
        if szl > size_width {
            size_width = szl;
        }
        if args.inode {
            let d = u64_to_string(e.inode);
            let l = d.as_str().unicode_len();
            if l > inode_width {
                inode_width = l;
            }
        }
        if args.show_size {
            let d = u64_to_string(e.blocks / 2);
            let l = d.as_str().unicode_len();
            if l > blocks_width {
                blocks_width = l;
            }
        }
        i = i + 1;
    }
    proof {
        assert(entries@.take(entries@.len() as int) == entries@);
    }

    let ghost g_nlw = nlink_width as nat;
    let ghost g_ow = owner_width as nat;
    let ghost g_gw = group_width as nat;
    let ghost g_sw = size_width as nat;
    let ghost g_iw = inode_width as nat;
    let ghost g_bw = blocks_width as nat;
    let ghost gm_user = user_cache@;
    let ghost gm_group = group_cache@;
    let ghost mut times: Seq<Seq<char>> = Seq::empty();
    let mut out: Vec<char> = Vec::new();
    let mut j: usize = 0;
    proof {
        assert(entries@.take(0) =~= Seq::<FileEntry>::empty());
    }
    while j < entries.len()
        invariant
            j <= entries.len(),
            times.len() == j,
            show_owner == !args.long_no_owner,
            show_group == (!args.long_no_group && !args.no_group),
            numeric_ids == args.numeric_uid_gid,
            g_nlw == nlink_width as nat,
            g_ow == owner_width as nat,
            g_gw == group_width as nat,
            g_sw == size_width as nat,
            g_iw == inode_width as nat,
            g_bw == blocks_width as nat,
            forall|k: u32| #[trigger] gm_user.contains_key(k) ==> user_cache@.contains_key(k)
                && user_cache@[k] == gm_user[k],
            forall|k: u32| #[trigger] gm_group.contains_key(k) ==> group_cache@.contains_key(
                k,
            ) && group_cache@[k] == gm_group[k],
            out@ == spec_long_lines(entries@.take(j as int), *args, icon_map@, use_color,
                show_icons, user_cache@, group_cache@, times, g_nlw, g_ow, g_gw, g_sw, g_iw,
                g_bw),
            (!args.long_no_owner || args.author) && !args.numeric_uid_gid ==> forall|u: int|
                0 <= u < j ==> user_cache@.contains_key(#[trigger] entries@[u].uid),
            (!args.long_no_group && !args.no_group) && !args.numeric_uid_gid ==> forall|
                u: int,
            |
                0 <= u < j ==> group_cache@.contains_key(#[trigger] entries@[u].gid),
            forall|u: int|
                #![trigger times[u]]
                0 <= u < j && entries@[u].modified is None ==> times[u] == spec_spaces(12),
        decreases entries.len() - j,
    {
        let e = &entries[j];
        let ghost pre_out = out@;
        let ghost pre_user = user_cache@;
        let ghost pre_group = group_cache@;
        let ghost pre_times = times;
        let (line, tv) = render_one_long(e, args, icon_map, use_color, show_icons,
            &mut user_cache, &mut group_cache, nlink_width, owner_width, group_width,
            size_width, inode_width, blocks_width);
        proof {
            times = times.push(tv@);
        }
        push_str_chars(&mut out, line.as_str());
        proof {
            let si = j as int;
            let ee = entries@[si];
            assert(entries@.take(si + 1).drop_last() =~= entries@.take(si));
            assert(entries@.take(si + 1).last() == ee);
            assert(times.drop_last() == pre_times);
            assert(times.last() == tv@);
            assert forall|u: int| 0 <= u < j implies #[trigger] entries@.take(si)[u]
                == entries@[u] by {}
            lemma_long_lines_stable(entries@.take(si), *args, icon_map@, use_color,
                show_icons, pre_user, user_cache@, pre_group, group_cache@, pre_times, g_nlw,
                g_ow, g_gw, g_sw, g_iw, g_bw);
            assert(pre_out == spec_long_lines(entries@.take(si), *args, icon_map@, use_color,
                show_icons, user_cache@, group_cache@, pre_times, g_nlw, g_ow, g_gw, g_sw,
                g_iw, g_bw));
            assert(out@ =~= spec_long_lines(entries@.take(si + 1), *args, icon_map@,
                use_color, show_icons, user_cache@, group_cache@, times, g_nlw, g_ow, g_gw,
                g_sw, g_iw, g_bw));
        }
        j = j + 1;
    }
    let r = chars_to_string(&out);
    proof {
        assert(entries@.take(entries@.len() as int) == entries@);
        if show_owner {
            lemma_owner_col_width_stable(entries@, numeric_ids, gm_user, user_cache@);
        }
        if show_group {
            lemma_group_col_width_stable(entries@, numeric_ids, gm_group, group_cache@);
        }
        assert(g_ow == spec_long_owner_width(entries@, *args, user_cache@));
        assert(g_gw == spec_long_group_width(entries@, *args, group_cache@));
        assert(g_iw == spec_long_inode_width(entries@, *args));
        assert(g_bw == spec_long_blocks_width(entries@, *args));
        assert(r@ == spec_long_lines(entries@, *args, icon_map@, use_color, show_icons,
            user_cache@, group_cache@, times, spec_nlink_col_width(entries@),
            spec_long_owner_width(entries@, *args, user_cache@), spec_long_group_width(
                entries@, *args, group_cache@), spec_size_col_width(entries@,
                args.human_readable, args.si), spec_long_inode_width(entries@, *args),
            spec_long_blocks_width(entries@, *args)));
        assert(spec_long_output(r@, entries@, *args, icon_map@, use_color, show_icons));
    }
    r
}

/// Lines already rendered do not change when the name caches later learn new
/// ids: every line only reads ids its entry holds, and those stay what they
/// were.
proof fn lemma_long_lines_stable(
    entries: Seq<FileEntry>,
    a: Args,
    t: Seq<(&'static str, IconEntry)>,
    use_color: bool,
    show_icons: bool,
    owners0: Map<u32, String>,
    owners1: Map<u32, String>,
    groups0: Map<u32, String>,
    groups1: Map<u32, String>,
    times: Seq<Seq<char>>,
    nlink_width: nat,
    owner_width: nat,
    group_width: nat,
    size_width: nat,
    inode_width: nat,
    blocks_width: nat,
)
    requires
        forall|k: u32| #[trigger] owners0.contains_key(k) ==> owners1.contains_key(k)
            && owners1[k] == owners0[k],
        forall|k: u32| #[trigger] groups0.contains_key(k) ==> groups1.contains_key(k)
            && groups1[k] == groups0[k],
        (!a.long_no_owner || a.author) && !a.numeric_uid_gid ==> forall|i: int|
            0 <= i < entries.len() ==> owners0.contains_key(#[trigger] entries[i].uid),
        (!a.long_no_group && !a.no_group) && !a.numeric_uid_gid ==> forall|i: int|
            0 <= i < entries.len() ==> groups0.contains_key(#[trigger] entries[i].gid),
    ensures
        spec_long_lines(entries, a, t, use_color, show_icons, owners1, groups1, times,
            nlink_width, owner_width, group_width, size_width, inode_width, blocks_width)
            == spec_long_lines(entries, a, t, use_color, show_icons, owners0, groups0, times,
            nlink_width, owner_width, group_width, size_width, inode_width, blocks_width),
    decreases entries.len(),
{
    if entries.len() > 0 {
        assert forall|i: int| 0 <= i < entries.drop_last().len() implies #[trigger] entries.drop_last()[
            i
        ] == entries[i] by {}
        lemma_long_lines_stable(entries.drop_last(), a, t, use_color, show_icons, owners0,
            owners1, groups0, groups1, times.drop_last(), nlink_width, owner_width,
            group_width, size_width, inode_width, blocks_width);
        assert(entries[entries.len() - 1] == entries.last());
    }
}

} // verus!

verus! {

/// The flat (non-long) layouts' output: one per line, comma, NUL-terminated,
/// or the grid, over the pre-rendered items.
pub open spec fn spec_flat_output(
    entries: Seq<FileEntry>,
    a: Args,
    t: Seq<(&'static str, IconEntry)>,
    use_color: bool,
    show_icons: bool,
    term_width: nat,
    terminator: char,
) -> Seq<char> {
    let items = spec_items(entries, a, t, use_color, show_icons);
    if a.one_per_line {
        spec_single_column(items, terminator)
    } else if a.comma {
        spec_format_comma(items, term_width)
    } else if a.zero {
        spec_single_column(items, '\u{0}')
    } else {
        spec_format_grid(items, term_width, a.tabsize as nat, a.across)
    }
}

/// Render the entries of one directory under the chosen layout: nothing for
/// no entries, the long format under its flags, and the flat layouts
/// otherwise.
pub fn print_entries(entries: &Vec<FileEntry>, args: &Args, icon_map: &Vec<(&'static str,
    IconEntry)>, use_color: bool, show_icons: bool, term_width: usize, terminator: char) -> (r:
    String)
    ensures
        entries@.len() == 0 ==> r@ == Seq::<char>::empty(),
        entries@.len() > 0 && !spec_is_long(*args) ==> r@ == spec_flat_output(entries@, *args,
            icon_map@, use_color, show_icons, term_width as nat, terminator),
        entries@.len() > 0 && spec_is_long(*args) ==> spec_long_output(r@, entries@, *args,
            icon_map@, use_color, show_icons),
{
    if entries.len() == 0 {
        proof {
            reveal_strlit("");
        }
        return String::new();
    }
    if args.is_long() {
        print_long(entries, args, icon_map, use_color, show_icons)
    } else if args.one_per_line {
        let items = format_items(entries, args, icon_map, use_color, show_icons);
        format_single_column(&items, terminator)
    } else if args.comma {
        let items = format_items(entries, args, icon_map, use_color, show_icons);
        format_comma(&items, term_width)
    } else if args.zero {
        let items = format_items(entries, args, icon_map, use_color, show_icons);
        format_single_column(&items, '\u{0}')
    } else {
        let items = format_items(entries, args, icon_map, use_color, show_icons);
        format_grid(&items, term_width, args.tabsize, args.across)
    }
}

/// A directory header line: the path, a colon, and a newline, colored when
/// color is on.
pub open spec fn spec_header(path: Seq<char>, use_color: bool) -> Seq<char> {
    if use_color {
        spec_color_wrap("1;34"@, path + ":"@) + "\n"@
    } else {
        path + ":"@ + "\n"@
    }
}

/// Render a directory header line.
pub fn format_header(path: &str, use_color: bool) -> (r: String)
    ensures
        r@ == spec_header(path@, use_color),
{
    let mut v: Vec<char> = Vec::new();
    if use_color {
        let mut text: Vec<char> = str_to_chars(path);
        text.push(':');
        proof {
            reveal_strlit(":");
            assert(text@ =~= path@ + ":"@);
        }
        crate::format::push_color_wrap(&mut v, "1;34", &text);
        v.push('\n');
        proof {
            reveal_strlit("\n");
            assert(v@ =~= spec_header(path@, use_color));
        }
    } else {
        push_str_chars(&mut v, path);
        v.push(':');
        v.push('\n');
        proof {
            reveal_strlit(":");
            reveal_strlit("\n");
            assert(v@ =~= spec_header(path@, use_color));
        }
    }
    chars_to_string(&v)
}

/// The long format's summary line: `total`, the 1K block count, a newline.
pub open spec fn spec_total_line(total: u64) -> Seq<char> {
    "total "@ + spec_dec(total as nat) + "\n"@
}

/// Render the long format's `total` line.
pub fn format_total_line(total: u64) -> (r: String)
    ensures
        r@ == spec_total_line(total),
{
    let mut v: Vec<char> = Vec::new();
    push_str_chars(&mut v, "total ");
    let d = u64_to_string(total);
    push_str_chars(&mut v, d.as_str());
    v.push('\n');
    proof {
        reveal_strlit("\n");
        assert(v@ =~= spec_total_line(total));
    }
    chars_to_string(&v)
}

/// One node of a pre-read directory tree.
pub struct TreeNode {
    pub entry: FileEntry,
    pub children: Vec<TreeNode>,
}

/// The tree rendering of one node: its own line (prefix, connector, icon,
/// colored name), then, for a directory, its children in order with the
/// continuation prefix, each either rendered in turn or skipped when it is a
/// synthetic dot entry. The last child by position gets the closing
/// connector, and the root gets none.
pub open spec fn spec_tree_lines(
    node: TreeNode,
    t: Seq<(&'static str, IconEntry)>,
    use_color: bool,
    show_icons: bool,
    prefix: Seq<char>,
    is_last: bool,
    is_root: bool,
) -> Seq<char>
    decreases node, 1int,
{
    let connector: Seq<char> = if is_root {
        Seq::empty()
    } else if is_last {
        "└── "@
    } else {
        "├── "@
    };
    let icon: Seq<char> = if show_icons {
        spec_icon_text(t, node.entry, use_color, show_icons) + seq![' ']
    } else {
        Seq::empty()
    };
    let line = prefix + connector + icon + spec_colorize_filename(node.entry, use_color)
        + seq!['\n'];
    if node.entry.is_dir {
        let child_prefix: Seq<char> = if is_root {
            Seq::empty()
        } else {
            prefix + (if is_last {
                "    "@
            } else {
                "│   "@
            })
        };
        line + spec_tree_children(node.children@, 0, node.children@.len(), t, use_color,
            show_icons, child_prefix)
    } else {
        line
    }
}

/// The renderings of the children from index `j` on; `total` fixes which
/// index counts as last.
pub open spec fn spec_tree_children(
    children: Seq<TreeNode>,
    j: int,
    total: nat,
    t: Seq<(&'static str, IconEntry)>,
    use_color: bool,
    show_icons: bool,
    prefix: Seq<char>,
) -> Seq<char>
    decreases children, children.len() - j,
{
    if j < 0 || j >= children.len() {
        Seq::empty()
    } else {
        let piece: Seq<char> = if children[j].entry.name@ == "."@ || children[j].entry.name@
            == ".."@ {
            Seq::empty()
        } else {
            spec_tree_lines(children[j], t, use_color, show_icons, prefix, j == total - 1,
                false)
        };
        piece + spec_tree_children(children, j + 1, total, t, use_color, show_icons, prefix)
    }
}

/// Render a pre-read tree depth-first with box-drawing connectors. The depth
/// only distinguishes the root (depth zero) in the rendering; recursion depth
/// limits are applied when the tree is read.
pub fn print_tree(node: &TreeNode, icon_map: &Vec<(&'static str, IconEntry)>, use_color: bool,
    show_icons: bool, prefix: &str, is_last: bool, depth: usize) -> (r: String)
    ensures
        r@ == spec_tree_lines(*node, icon_map@, use_color, show_icons, prefix@, is_last, depth
            == 0),
    decreases *node, 1int,
{
    let is_root = depth == 0;
    let mut v: Vec<char> = Vec::new();
    push_str_chars(&mut v, prefix);
    if !is_root {
        if is_last {
            push_str_chars(&mut v, "└── ");
        } else {
            push_str_chars(&mut v, "├── ");
        }
    }
    if show_icons {
        let ic = icon_text(icon_map, &node.entry, use_color, show_icons);
        push_str_chars(&mut v, ic.as_str());
        v.push(' ');
    }
    let cname = colorize_filename(&node.entry, use_color);
    push_str_chars(&mut v, cname.as_str());
    v.push('\n');
    let ghost line = v@;
    proof {
        let connector: Seq<char> = if is_root {
            Seq::empty()
        } else if is_last {
            "└── "@
        } else {
            "├── "@
        };
        let icon: Seq<char> = if show_icons {
            spec_icon_text(icon_map@, node.entry, use_color, show_icons) + seq![' ']
        } else {
            Seq::empty()
        };
        assert(line =~= prefix@ + connector + icon + spec_colorize_filename(node.entry,
            use_color) + seq!['\n']);
    }
    if node.entry.is_dir {
        let mut child_prefix: Vec<char> = Vec::new();
        if !is_root {
            push_str_chars(&mut child_prefix, prefix);
            if is_last {
                push_str_chars(&mut child_prefix, "    ");
            } else {
                push_str_chars(&mut child_prefix, "│   ");
            }
        }
        let ghost cp = child_prefix@;
        proof {
            if is_root {
                assert(cp =~= Seq::<char>::empty());
            }
        }
        let cps = chars_to_string(&child_prefix);
        let child_depth: usize = if depth < usize::MAX {
            depth + 1
        } else {
            depth
        };
        let total = node.children.len();
        let mut i: usize = 0;
        while i < total
            invariant
                i <= total,
                total == node.children@.len(),
                cps@ == cp,
                child_depth >= 1,
                line + spec_tree_children(node.children@, 0, total as nat, icon_map@,
                    use_color, show_icons, cp) == v@ + spec_tree_children(node.children@,
                    i as int, total as nat, icon_map@, use_color, show_icons, cp),
            decreases total - i,
        {
            let child = &node.children[i];
            let ghost pre = v@;
            let nv = str_to_chars(child.entry.name.as_str());
            let skip_dot = crate::text::chars_eq_str(&nv, ".") || crate::text::chars_eq_str(
                &nv,
                "..",
            );
            if !skip_dot {
                proof {
                    assert(decreases_to!(*node => node.children));
                    assert(decreases_to!(node.children => node.children@));
                    assert(decreases_to!(node.children@ => node.children@[i as int]));
                }
                let s = print_tree(child, icon_map, use_color, show_icons, cps.as_str(), i
                    == total - 1, child_depth);
                push_str_chars(&mut v, s.as_str());
            }
            proof {
                let ghost piece: Seq<char> = if node.children@[i as int].entry.name@ == "."@
                    || node.children@[i as int].entry.name@ == ".."@ {
                    Seq::empty()
                } else {
                    spec_tree_lines(node.children@[i as int], icon_map@, use_color,
                        show_icons, cp, i as int == total - 1, false)
                };
                assert(v@ =~= pre + piece);
                assert(pre + (piece + spec_tree_children(node.children@, i + 1 as int,
                    total as nat, icon_map@, use_color, show_icons, cp)) =~= v@
                    + spec_tree_children(node.children@, i + 1 as int, total as nat,
                    icon_map@, use_color, show_icons, cp));
            }
            i = i + 1;
        }
        proof {
            assert(spec_tree_children(node.children@, total as int, total as nat, icon_map@,
                use_color, show_icons, cp) =~= Seq::<char>::empty());
            assert(line + spec_tree_children(node.children@, 0, total as nat, icon_map@,
                use_color, show_icons, cp) =~= v@);
        }
        chars_to_string(&v)
    } else {
        chars_to_string(&v)
    }
}

} // verus!

verus! {

use crate::format::{spec_is_archive_ext, spec_is_audio_ext, spec_is_image_ext,
    spec_is_video_ext};
use crate::grid::{ansi_state, esc_closed, esc_free, lemma_esc_closed_append,
    lemma_esc_free_closed, lemma_esc_free_state_from_inside, lemma_max_width_ge,
    lemma_strip_append, lemma_grid_line_width, spec_col_width, spec_cols,
    spec_grid_row_prefix, spec_max_width, spec_rows, spec_strip_ansi, spec_width};
use crate::icons::spec_table_esc_free;
use crate::text::{lemma_dec_digits, spec_is_digit};

/// A color-wrapped piece carries only closed escape sequences when the code
/// is escape-free and the wrapped text is closed: the introducer is shut by
/// the explicit `m`, and the trailer is one whole sequence.
proof fn lemma_color_wrap_closed(code: Seq<char>, text: Seq<char>)
    requires
        esc_free(code),
        esc_closed(text),
    ensures
        esc_closed(spec_color_wrap(code, text)),
{
    reveal_strlit("\u{1b}[");
    reveal_strlit("m");
    reveal_strlit("\u{1b}[0m");
    let intro = "\u{1b}["@;
    let mm = "m"@;
    let tail = "\u{1b}[0m"@;
    assert(intro.len() == 2 && intro[0] == '\u{1b}' && intro[1] == '[');
    assert(intro.skip(1) =~= seq!['[']);
    assert(seq!['['].skip(1) =~= Seq::<char>::empty());
    assert(ansi_state(Seq::<char>::empty(), true));
    assert(ansi_state(seq!['['], true));
    assert(ansi_state(intro, false));
    lemma_esc_free_state_from_inside(code);
    assert(mm.len() == 1 && mm[0] == 'm');
    assert(mm.skip(1) =~= Seq::<char>::empty());
    assert(!ansi_state(Seq::<char>::empty(), false));
    assert(!ansi_state(mm, true));
    assert(!ansi_state(mm, false));
    assert(tail.len() == 4 && tail[0] == '\u{1b}' && tail[1] == '[' && tail[2] == '0'
        && tail[3] == 'm');
    assert(tail.skip(1) =~= seq!['[', '0', 'm']);
    assert(seq!['[', '0', 'm'].skip(1) =~= seq!['0', 'm']);
    assert(seq!['0', 'm'].skip(1) =~= seq!['m']);
    assert(seq!['m'].skip(1) =~= Seq::<char>::empty());
    assert(!ansi_state(seq!['m'], true));
    assert(!ansi_state(seq!['0', 'm'], true));
    assert(!ansi_state(seq!['[', '0', 'm'], true));
    assert(!ansi_state(tail, false));
    lemma_strip_append(intro, code, false);
    lemma_strip_append(intro + code, mm, false);
    lemma_strip_append(intro + code + mm, text, false);
    lemma_strip_append(intro + code + mm + text, tail, false);
    assert(!ansi_state(intro + code + mm, false));
    assert(!ansi_state(intro + code + mm + text, false));
    assert(spec_color_wrap(code, text) == intro + code + mm + text + tail);
}

/// A decimal field followed by its separating space holds digits and a
/// space only.
proof fn lemma_dec_field_closed(n: nat)
    ensures
        esc_closed(spec_dec(n) + seq![' ']),
{
    lemma_dec_digits(n);
    let s = spec_dec(n) + seq![' '];
    assert forall|k: int| 0 <= k < s.len() implies s[k] != '\u{1b}' by {
        if k < spec_dec(n).len() {
            assert(s[k] == spec_dec(n)[k]);
            assert(spec_is_digit(s[k]));
        } else {
            assert(s[k] == ' ');
        }
    }
    lemma_esc_free_closed(s);
}

/// The colored name carries only closed escape sequences when the name is
/// free of the raw escape character: every branch is the plain name or the
/// name wrapped in one fixed color code.
proof fn lemma_colorize_filename_closed(e: FileEntry, use_color: bool)
    requires
        esc_free(e.name@),
    ensures
        esc_closed(spec_colorize_filename(e, use_color)),
{
    reveal_strlit("1;34");
    reveal_strlit("36");
    reveal_strlit("1;32");
    reveal_strlit("33");
    reveal_strlit("1;35");
    reveal_strlit("1;33");
    reveal_strlit("1;31");
    reveal_strlit("35");
    lemma_esc_free_closed(e.name@);
    if !use_color {
    } else if e.is_dir {
        lemma_color_wrap_closed("1;34"@, e.name@);
    } else if e.is_symlink {
        lemma_color_wrap_closed("36"@, e.name@);
    } else if e.is_executable {
        lemma_color_wrap_closed("1;32"@, e.name@);
    } else if e.is_pipe {
        lemma_color_wrap_closed("33"@, e.name@);
    } else if e.is_socket {
        lemma_color_wrap_closed("1;35"@, e.name@);
    } else if e.is_block_device || e.is_char_device {
        lemma_color_wrap_closed("1;33"@, e.name@);
    } else {
        let ext = e.extension@;
        if spec_is_archive_ext(ext) {
            lemma_color_wrap_closed("1;31"@, e.name@);
        } else if spec_is_image_ext(ext) {
            lemma_color_wrap_closed("35"@, e.name@);
        } else if spec_is_audio_ext(ext) {
            lemma_color_wrap_closed("36"@, e.name@);
        } else if spec_is_video_ext(ext) {
            lemma_color_wrap_closed("1;35"@, e.name@);
        }
    }
}

/// An entry whose name and symlink target are free of the raw escape
/// character, as every ordinary filesystem name is.
pub open spec fn spec_entry_esc_free(e: FileEntry) -> bool {
    &&& esc_free(e.name@)
    &&& (e.symlink_target matches Some(tg) ==> esc_free(tg@))
}

/// One rendered item carries only closed escape sequences whenever its
/// entry and the rule table are free of the raw escape character: the only
/// escapes the renderer emits are color wraps it closes itself.
pub proof fn lemma_item_esc_closed(
    e: FileEntry,
    a: Args,
    t: Seq<(&'static str, IconEntry)>,
    use_color: bool,
    show_icons: bool,
)
    requires
        spec_entry_esc_free(e),
        spec_table_esc_free(t),
    ensures
        esc_closed(spec_item(e, a, t, use_color, show_icons)),
{
    let p1: Seq<char> = if a.inode {
        spec_dec(e.inode as nat) + seq![' ']
    } else {
        Seq::empty()
    };
    let p2: Seq<char> = if a.show_size {
        spec_dec((e.blocks / 2) as nat) + seq![' ']
    } else {
        Seq::empty()
    };
    let p3: Seq<char> = if show_icons {
        spec_icon_text(t, e, use_color, show_icons) + seq![' ']
    } else {
        Seq::empty()
    };
    let p4 = spec_colorize_filename(e, use_color);
    let p5 = spec_item_suffix(e, a);
    let p6: Seq<char> = if e.is_symlink && a.one_per_line && e.symlink_target is Some {
        " -> "@ + (if use_color {
            spec_color_wrap("36"@, e.symlink_target->0@)
        } else {
            e.symlink_target->0@
        })
    } else {
        Seq::empty()
    };
    assert(esc_free(Seq::<char>::empty()));
    lemma_esc_free_closed(Seq::<char>::empty());
    if a.inode {
        lemma_dec_field_closed(e.inode as nat);
    }
    if a.show_size {
        lemma_dec_field_closed((e.blocks / 2) as nat);
    }
    if show_icons {
        let ic = spec_get_icon(t, e.name@, e.is_dir, e.is_hidden, e.is_symlink,
            e.is_executable, e.is_pipe, e.is_socket, e.is_block_device, e.is_char_device);
        crate::icons::lemma_get_icon_esc_free(t, e.name@, e.is_dir, e.is_hidden, e.is_symlink,
            e.is_executable, e.is_pipe, e.is_socket, e.is_block_device, e.is_char_device);
        lemma_esc_free_closed(ic.0);
        if use_color {
            lemma_color_wrap_closed(ic.1, ic.0);
        }
        assert(esc_free(seq![' ']));
        lemma_esc_free_closed(seq![' ']);
        lemma_esc_closed_append(spec_icon_text(t, e, use_color, show_icons), seq![' ']);
    }
    lemma_colorize_filename_closed(e, use_color);
    reveal_strlit("/");
    reveal_strlit("@");
    reveal_strlit("|");
    reveal_strlit("=");
    reveal_strlit("*");
    reveal_strlit("");
    assert(esc_free("/"@) && esc_free("@"@) && esc_free("|"@) && esc_free("="@) && esc_free(
        "*"@,
    ) && esc_free(""@));
    assert(esc_free(p5));
    lemma_esc_free_closed(p5);
    if e.is_symlink && a.one_per_line && e.symlink_target is Some {
        reveal_strlit(" -> ");
        reveal_strlit("36");
        assert(esc_free(" -> "@));
        lemma_esc_free_closed(" -> "@);
        let tg = e.symlink_target->0@;
        lemma_esc_free_closed(tg);
        if use_color {
            lemma_color_wrap_closed("36"@, tg);
            lemma_esc_closed_append(" -> "@, spec_color_wrap("36"@, tg));
        } else {
            lemma_esc_closed_append(" -> "@, tg);
        }
    }
    lemma_esc_closed_append(p1, p2);
    lemma_esc_closed_append(p1 + p2, p3);
    lemma_esc_closed_append(p1 + p2 + p3, p4);
    lemma_esc_closed_append(p1 + p2 + p3 + p4, p5);
    lemma_esc_closed_append(p1 + p2 + p3 + p4 + p5, p6);
    assert(spec_item(e, a, t, use_color, show_icons) == p1 + p2 + p3 + p4 + p5 + p6);
}

/// Every line of the grid layout, measured after escape sequences are
/// stripped, fits the terminal width — unless a single item alone is wider
/// than the terminal, in which case its line is at most that widest item.
/// This holds of the renderer's items for any entries and rule table free
/// of the raw escape character, whenever the layout's measurements fit the
/// machine word.
pub proof fn lemma_grid_output_fits(
    entries: Seq<FileEntry>,
    a: Args,
    t: Seq<(&'static str, IconEntry)>,
    use_color: bool,
    show_icons: bool,
    term_width: nat,
    i: int,
)
    requires
        entries.len() > 0,
        forall|u: int| 0 <= u < entries.len() ==> spec_entry_esc_free(#[trigger] entries[u]),
        spec_table_esc_free(t),
        spec_max_width(spec_items(entries, a, t, use_color, show_icons)) + (if a.tabsize == 0 {
            8nat
        } else {
            a.tabsize as nat
        }) <= usize::MAX,
        term_width <= usize::MAX,
    ensures
        ({
            let items = spec_items(entries, a, t, use_color, show_icons);
            let tabsize = if a.tabsize == 0 {
                8nat
            } else {
                a.tabsize as nat
            };
            let max_len = spec_max_width(items);
            let col_width = spec_col_width(max_len, tabsize);
            let cols = spec_cols(term_width, col_width);
            let rows = spec_rows(items.len(), cols);
            spec_width(spec_strip_ansi(spec_grid_row_prefix(items, i, cols as int, cols, rows,
                a.across, col_width, tabsize))) <= (if term_width > max_len {
                term_width
            } else {
                max_len
            })
        }),
{
    let items = spec_items(entries, a, t, use_color, show_icons);
    assert(items.len() == entries.len());
    assert forall|u: int| 0 <= u < items.len() implies esc_closed(#[trigger] items[u]) by {
        assert(items[u] == spec_item(entries[u], a, t, use_color, show_icons));
        lemma_item_esc_closed(entries[u], a, t, use_color, show_icons);
    }
    let tabsize = if a.tabsize == 0 {
        8nat
    } else {
        a.tabsize as nat
    };
    assert forall|u: int| 0 <= u < items.len() implies spec_width(spec_strip_ansi(
        #[trigger] items[u],
    )) <= usize::MAX by {
        lemma_max_width_ge(items, u);
        if spec_width(spec_strip_ansi(items[u])) > usize::MAX {
            assert(crate::grid::spec_item_width(items[u]) == usize::MAX as nat);
            assert(spec_max_width(items) >= usize::MAX as nat);
        }
    }
    lemma_grid_line_width(items, term_width, a.tabsize as nat, a.across, i);
}

} // verus!
