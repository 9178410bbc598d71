use lsf::cli::Args;
use lsf::entry::{sort_entries, FileEntry};
use lsf::icons::build_icon_map;
use lsf::output::{format_header, format_items, format_total_line, print_entries, print_tree,
    TreeNode};

fn base_args() -> Args {
    Args {
        paths: vec![".".to_string()],
        long: false,
        all: false,
        almost_all: false,
        recursive: false,
        no_icons: true,
        sort_size: false,
        sort_time: false,
        sort_extension: false,
        unsorted: false,
        version_sort: false,
        reverse: false,
        across: false,
        one_per_line: false,
        comma: false,
        directory: false,
        classify: false,
        slash_dirs: false,
        show_size: false,
        inode: false,
        numeric_uid_gid: false,
        long_no_group: false,
        long_no_owner: false,
        no_group: false,
        human_readable: false,
        si: false,
        dereference_command_line: false,
        dereference: false,
        group_directories_first: false,
        zero: false,
        tabsize: 8,
        term_width: Some(80),
        ignore_pattern: None,
        ignore_backups: false,
        author: false,
        color: "never".to_string(),
        no_color: false,
        tree: false,
        max_depth: None,
        no_sort_all: false,
        hide_pattern: None,
        stdout_is_tty: false,
    }
}

fn entry(name: &str, is_dir: bool) -> FileEntry {
    FileEntry {
        name: name.to_string(),
        path: name.to_string(),
        is_dir,
        is_symlink: false,
        is_executable: false,
        is_hidden: name.starts_with('.'),
        is_pipe: false,
        is_socket: false,
        is_block_device: false,
        is_char_device: false,
        size: 999,
        modified: None,
        accessed: None,
        created: None,
        mode: if is_dir { 0o040755 } else { 0o100644 },
        nlink: 1,
        uid: 42,
        gid: 43,
        blocks: 0,
        inode: 1,
        symlink_target: None,
        extension: name.rsplit_once('.').map(|(_, e)| e.to_lowercase()).unwrap_or_default(),
    }
}

#[test]
fn natural_sort_grid_end_to_end() {
    let mut v = vec![
        entry("file1.txt", false),
        entry("file10.txt", false),
        entry("file2.txt", false),
        entry("zzz", true),
    ];
    let mut args = base_args();
    args.version_sort = true;
    sort_entries(&mut v, &args);
    let table = build_icon_map();
    let out = print_entries(&v, &args, &table, false, false, 80, '\n');
    assert_eq!(
        out,
        "file1.txt       file2.txt       file10.txt      zzz\n"
    );
}

#[test]
fn one_per_line_with_indicators() {
    let mut args = base_args();
    args.one_per_line = true;
    args.classify = true;
    let v = vec![entry("src", true), entry("notes.txt", false)];
    let table = build_icon_map();
    let out = print_entries(&v, &args, &table, false, false, 80, '\n');
    assert_eq!(out, "src/\nnotes.txt\n");
}

#[test]
fn one_per_line_shows_symlink_target() {
    let mut args = base_args();
    args.one_per_line = true;
    let mut e = entry("link", false);
    e.is_symlink = true;
    e.symlink_target = Some("real".to_string());
    let table = build_icon_map();
    let out = print_entries(&vec![e], &args, &table, false, false, 80, '\n');
    assert_eq!(out, "link -> real\n");
}

#[test]
fn empty_listing_renders_nothing() {
    let args = base_args();
    let table = build_icon_map();
    assert_eq!(print_entries(&vec![], &args, &table, false, false, 80, '\n'), "");
}

#[test]
fn items_carry_inode_and_blocks_fields() {
    let mut args = base_args();
    args.inode = true;
    args.show_size = true;
    let mut e = entry("a", false);
    e.inode = 77;
    e.blocks = 8;
    let table = build_icon_map();
    let items = format_items(&vec![e], &args, &table, false, false);
    assert_eq!(items, vec!["77 4 a".to_string()]);
}

#[test]
fn long_format_line_with_numeric_ids() {
    let mut args = base_args();
    args.long = true;
    args.numeric_uid_gid = true;
    let v = vec![entry("notes.txt", false)];
    let table = build_icon_map();
    let out = print_entries(&v, &args, &table, false, false, 80, '\n');
    // Permissions, link count, numeric uid and gid, the size, the blank
    // timestamp field for a missing timestamp, and the name.
    assert_eq!(out, "-rw-r--r-- 1 42 43 999              notes.txt\n");
}

#[test]
fn tree_connectors_and_nesting() {
    let tree = TreeNode {
        entry: entry("root", true),
        children: vec![
            TreeNode { entry: entry("a.txt", false), children: vec![] },
            TreeNode {
                entry: entry("sub", true),
                children: vec![
                    TreeNode { entry: entry("b.txt", false), children: vec![] },
                ],
            },
        ],
    };
    let table = build_icon_map();
    let out = print_tree(&tree, &table, false, false, "", true, 0);
    assert_eq!(
        out,
        "root\n\u{251c}\u{2500}\u{2500} a.txt\n\u{2514}\u{2500}\u{2500} sub\n    \u{2514}\u{2500}\u{2500} b.txt\n"
    );
}

#[test]
fn tree_skips_synthetic_dot_entries() {
    let tree = TreeNode {
        entry: entry("root", true),
        children: vec![
            TreeNode { entry: entry(".", true), children: vec![] },
            TreeNode { entry: entry("x", false), children: vec![] },
        ],
    };
    let table = build_icon_map();
    let out = print_tree(&tree, &table, false, false, "", true, 0);
    assert_eq!(out, "root\n\u{2514}\u{2500}\u{2500} x\n");
}

#[test]
fn headers_and_total_lines() {
    assert_eq!(format_header("somedir", false), "somedir:\n");
    assert_eq!(format_header("somedir", true), "\x1b[1;34msomedir:\x1b[0m\n");
    assert_eq!(format_total_line(12), "total 12\n");
}

#[test]
fn color_mode_decision() {
    let mut args = base_args();
    args.color = "always".to_string();
    assert!(args.use_color());
    args.no_color = true;
    assert!(!args.use_color());
    args.no_color = false;
    args.color = "auto".to_string();
    args.stdout_is_tty = false;
    assert!(!args.use_color());
    args.stdout_is_tty = true;
    assert!(args.use_color());
    args.color = "never".to_string();
    assert!(!args.use_color());
}

#[test]
fn flag_predicates() {
    let mut args = base_args();
    assert!(!args.is_long());
    args.long_no_group = true;
    assert!(args.is_long());
    args.no_sort_all = true;
    assert!(args.show_hidden());
    assert!(args.show_dot_dirs());
    assert!(args.no_sort());
}
