use std::collections::HashMap;

use lsf::cli::Args;
use lsf::entry::{entry_visible, get_username, sort_entries, FileEntry};

fn base_args() -> Args {
    Args {
        paths: vec![".".to_string()],
        long: false,
        all: false,
        almost_all: false,
        recursive: false,
        no_icons: true,
        sort_size: false,
        sort_time: false,
        sort_extension: false,
        unsorted: false,
        version_sort: false,
        reverse: false,
        across: false,
        one_per_line: false,
        comma: false,
        directory: false,
        classify: false,
        slash_dirs: false,
        show_size: false,
        inode: false,
        numeric_uid_gid: false,
        long_no_group: false,
        long_no_owner: false,
        no_group: false,
        human_readable: false,
        si: false,
        dereference_command_line: false,
        dereference: false,
        group_directories_first: false,
        zero: false,
        tabsize: 8,
        term_width: None,
        ignore_pattern: None,
        ignore_backups: false,
        author: false,
        color: "never".to_string(),
        no_color: false,
        tree: false,
        max_depth: None,
        no_sort_all: false,
        hide_pattern: None,
        stdout_is_tty: false,
    }
}

fn entry(name: &str, is_dir: bool) -> FileEntry {
    FileEntry {
        name: name.to_string(),
        path: name.to_string(),
        is_dir,
        is_symlink: false,
        is_executable: false,
        is_hidden: name.starts_with('.'),
        is_pipe: false,
        is_socket: false,
        is_block_device: false,
        is_char_device: false,
        size: 0,
        modified: None,
        accessed: None,
        created: None,
        mode: 0o100644,
        nlink: 1,
        uid: 0,
        gid: 0,
        blocks: 0,
        inode: 1,
        symlink_target: None,
        extension: name.rsplit_once('.').map(|(_, e)| e.to_lowercase()).unwrap_or_default(),
    }
}

fn names(v: &Vec<FileEntry>) -> Vec<String> {
    v.iter().map(|e| e.name.clone()).collect()
}

#[test]
fn hidden_names_filtered_unless_shown() {
    let args = base_args();
    assert!(!entry_visible(".git", &args));
    assert!(entry_visible("src", &args));
    let mut all = base_args();
    all.all = true;
    assert!(entry_visible(".git", &all));
}

#[test]
fn hide_pattern_is_overridden_by_show_hidden() {
    let mut args = base_args();
    args.hide_pattern = Some("*.log".to_string());
    assert!(!entry_visible("build.log", &args));
    args.all = true;
    assert!(entry_visible("build.log", &args));
}

#[test]
fn ignore_pattern_always_applies() {
    let mut args = base_args();
    args.ignore_pattern = Some("*.tmp".to_string());
    args.all = true;
    assert!(!entry_visible("x.tmp", &args));
    assert!(entry_visible("x.txt", &args));
}

#[test]
fn backup_suffix_filtered_when_asked() {
    let mut args = base_args();
    args.ignore_backups = true;
    assert!(!entry_visible("notes~", &args));
    assert!(entry_visible("notes", &args));
}

#[test]
fn natural_sort_orders_digit_runs_numerically() {
    let mut v = vec![
        entry("file1.txt", false),
        entry("file10.txt", false),
        entry("file2.txt", false),
        entry("zzz", true),
    ];
    let mut args = base_args();
    args.version_sort = true;
    sort_entries(&mut v, &args);
    assert_eq!(names(&v), vec!["file1.txt", "file2.txt", "file10.txt", "zzz"]);
}

#[test]
fn default_sort_is_lowercase_alphabetical() {
    let mut v = vec![entry("Beta", false), entry("alpha", false), entry("Gamma", false)];
    let args = base_args();
    sort_entries(&mut v, &args);
    assert_eq!(names(&v), vec!["alpha", "Beta", "Gamma"]);
}

#[test]
fn size_sort_is_descending() {
    let mut a = entry("a", false);
    a.size = 10;
    let mut b = entry("b", false);
    b.size = 30;
    let mut c = entry("c", false);
    c.size = 20;
    let mut v = vec![a, b, c];
    let mut args = base_args();
    args.sort_size = true;
    sort_entries(&mut v, &args);
    assert_eq!(names(&v), vec!["b", "c", "a"]);
}

#[test]
fn time_sort_treats_missing_as_oldest() {
    let mut a = entry("a", false);
    a.modified = Some(100);
    let mut b = entry("b", false);
    b.modified = None;
    let mut c = entry("c", false);
    c.modified = Some(200);
    let mut v = vec![a, b, c];
    let mut args = base_args();
    args.sort_time = true;
    sort_entries(&mut v, &args);
    assert_eq!(names(&v), vec!["c", "a", "b"]);
}

#[test]
fn extension_sort_groups_then_names() {
    let mut v = vec![
        entry("b.rs", false),
        entry("a.txt", false),
        entry("A.rs", false),
    ];
    let mut args = base_args();
    args.sort_extension = true;
    sort_entries(&mut v, &args);
    assert_eq!(names(&v), vec!["A.rs", "b.rs", "a.txt"]);
}

#[test]
fn group_directories_first_is_stable() {
    let mut v = vec![
        entry("bdir", true),
        entry("afile", false),
        entry("adir", true),
        entry("bfile", false),
    ];
    let mut args = base_args();
    args.group_directories_first = true;
    sort_entries(&mut v, &args);
    // Primary sort gives adir, afile, bdir, bfile; the grouping pass then
    // moves directories ahead without disturbing their relative order.
    assert_eq!(names(&v), vec!["adir", "bdir", "afile", "bfile"]);
}

#[test]
fn reverse_applies_after_grouping() {
    let mut v = vec![
        entry("bdir", true),
        entry("afile", false),
        entry("adir", true),
        entry("bfile", false),
    ];
    let mut args = base_args();
    args.group_directories_first = true;
    args.reverse = true;
    sort_entries(&mut v, &args);
    // Reversing the grouped order flips the grouping too: files come first.
    assert_eq!(names(&v), vec!["bfile", "afile", "bdir", "adir"]);
}

#[test]
fn unsorted_keeps_directory_order() {
    let mut v = vec![entry("z", false), entry("a", false)];
    let mut args = base_args();
    args.unsorted = true;
    sort_entries(&mut v, &args);
    assert_eq!(names(&v), vec!["z", "a"]);
}

#[test]
fn dot_entries_rename_snapshots() {
    let d = entry("somedir", true);
    let p = entry("parent", true);
    let v = FileEntry::dot_entries(Some(d), Some(p));
    assert_eq!(v.len(), 2);
    assert_eq!(v[0].name, ".");
    assert_eq!(v[1].name, "..");
    assert!(v[0].is_dir && v[1].is_dir);
    let only = FileEntry::dot_entries(None, Some(entry("parent", true)));
    assert_eq!(only.len(), 1);
    assert_eq!(only[0].name, "..");
}

#[test]
fn username_cache_is_authoritative() {
    let mut cache: HashMap<u32, String> = HashMap::new();
    cache.insert(7, "alice".to_string());
    assert_eq!(get_username(7, &mut cache), "alice");
    // A fresh lookup records its answer, and the recorded answer is reused.
    let mut fresh: HashMap<u32, String> = HashMap::new();
    let first = get_username(0, &mut fresh);
    let second = get_username(0, &mut fresh);
    assert_eq!(first, second);
    assert_eq!(fresh.get(&0), Some(&first));
}

#[test]
fn degraded_entry_is_hidden_and_zeroed() {
    let e = FileEntry::degraded("mystery".to_string(), "dir/mystery".to_string());
    assert_eq!(e.name, "mystery");
    assert_eq!(e.path, "dir/mystery");
    assert!(e.is_hidden);
    assert!(!e.is_dir && !e.is_symlink && !e.is_executable);
    assert_eq!(e.size, 0);
    assert_eq!(e.modified, None);
    assert_eq!(e.mode, 0);
    assert_eq!(e.nlink, 0);
    assert_eq!(e.symlink_target, None);
    assert_eq!(e.extension, "");
}

#[test]
fn derived_fields_follow_name_and_mode() {
    let (hidden, exec, ext) = lsf::entry::derive_entry_fields("notes.txt", 0o100644, false);
    assert!(!hidden && !exec);
    assert_eq!(ext, "txt");
    let (hidden, exec, ext) = lsf::entry::derive_entry_fields(".bashrc", 0o100644, false);
    assert!(hidden && !exec);
    assert_eq!(ext, "");
    let (_, exec, ext) = lsf::entry::derive_entry_fields("run.sh", 0o100755, false);
    assert!(exec);
    assert_eq!(ext, "sh");
    // Execute bits on a directory do not make it "executable".
    let (_, exec, _) = lsf::entry::derive_entry_fields("bin", 0o040755, true);
    assert!(!exec);
    let (_, _, ext) = lsf::entry::derive_entry_fields("archive.tar.gz", 0o100644, false);
    assert_eq!(ext, "gz");
    let (_, _, ext) = lsf::entry::derive_entry_fields("README", 0o100644, false);
    assert_eq!(ext, "");
    // The stored attribute is the lowercased suffix.
    let (_, _, ext) = lsf::entry::derive_entry_fields("NOTES.TXT", 0o100644, false);
    assert_eq!(ext, "txt");
}

#[test]
fn depth_cutoff_counts_components_from_the_base() {
    // No limit: never too deep.
    assert!(!lsf::entry::depth_exceeds("root", "root/a/b/c/d", None));
    // Depth is components beyond the base.
    assert!(!lsf::entry::depth_exceeds("root", "root/a", Some(1)));
    assert!(lsf::entry::depth_exceeds("root", "root/a/b", Some(1)));
    assert!(!lsf::entry::depth_exceeds("root", "root/a/b", Some(2)));
    // Extra separators and dot segments do not count.
    assert!(!lsf::entry::depth_exceeds("root", "root//a/./b", Some(2)));
    // A subpath that does not extend the base counts as depth zero.
    assert!(!lsf::entry::depth_exceeds("elsewhere", "root/a/b", Some(0)));
    // The base itself is depth zero.
    assert!(!lsf::entry::depth_exceeds("root", "root", Some(0)));
}

#[test]
fn name_or_id_falls_back_to_the_numeric_id() {
    assert_eq!(lsf::entry::name_or_id(7, Some("alice".to_string())), "alice");
    assert_eq!(lsf::entry::name_or_id(7, None), "7");
    assert_eq!(lsf::entry::name_or_id(0, None), "0");
}
