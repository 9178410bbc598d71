use lsf::entry::FileEntry;
use lsf::format::{classify_indicator, colorize_filename, colorize_permissions,
    format_permissions, format_size, format_time, total_blocks};

fn plain_entry(name: &str) -> FileEntry {
    FileEntry {
        name: name.to_string(),
        path: name.to_string(),
        is_dir: false,
        is_symlink: false,
        is_executable: false,
        is_hidden: false,
        is_pipe: false,
        is_socket: false,
        is_block_device: false,
        is_char_device: false,
        size: 0,
        modified: None,
        accessed: None,
        created: None,
        mode: 0o100644,
        nlink: 1,
        uid: 0,
        gid: 0,
        blocks: 0,
        inode: 1,
        symlink_target: None,
        extension: String::new(),
    }
}

#[test]
fn permissions_regular_file() {
    assert_eq!(format_permissions(0o100644, false, false), "-rw-r--r--");
    assert_eq!(format_permissions(0o100755, false, false), "-rwxr-xr-x");
}

#[test]
fn permissions_directory_and_symlink() {
    assert_eq!(format_permissions(0o040755, true, false), "drwxr-xr-x");
    assert_eq!(format_permissions(0o120777, false, true), "lrwxrwxrwx");
}

#[test]
fn permissions_special_bits() {
    // Setuid with the execute bit shows s, without it S; sticky shows t/T.
    assert_eq!(format_permissions(0o104755, false, false), "-rwsr-xr-x");
    assert_eq!(format_permissions(0o104655, false, false), "-rwSr-xr-x");
    assert_eq!(format_permissions(0o101777, false, false), "-rwxrwxrwt");
    assert_eq!(format_permissions(0o101776, false, false), "-rwxrwxrwT");
    assert_eq!(format_permissions(0o102655, false, false), "-rw-r-sr-x");
}

#[test]
fn permissions_node_kinds() {
    assert_eq!(&format_permissions(0o010644, false, false)[0..1], "p");
    assert_eq!(&format_permissions(0o020644, false, false)[0..1], "c");
    assert_eq!(&format_permissions(0o060644, false, false)[0..1], "b");
    assert_eq!(&format_permissions(0o140644, false, false)[0..1], "s");
}

#[test]
fn size_plain_and_human() {
    assert_eq!(format_size(999, true, false), "999");
    assert_eq!(format_size(1536, true, false), "1.5K");
    assert_eq!(format_size(1500000, true, true), "1.5MB");
    assert_eq!(format_size(999, false, false), "999");
    assert_eq!(format_size(0, true, true), "0B");
    assert_eq!(format_size(0, true, false), "0");
    assert_eq!(format_size(999, true, true), "999B");
    assert_eq!(format_size(10240, true, false), "10K");
    assert_eq!(format_size(1048576, true, false), "1.0M");
}

#[test]
fn time_missing_is_blank_field() {
    assert_eq!(format_time(None), "            ");
    assert_eq!(format_time(None).len(), 12);
}

#[test]
fn time_present_renders_something() {
    // An old timestamp renders with its year; the exact text depends on the
    // local time zone, but it is never the blank field.
    let rendered = format_time(Some(0));
    assert!(!rendered.is_empty());
    assert!(rendered.contains("19"));
}

#[test]
fn classify_indicators() {
    let mut e = plain_entry("f");
    assert_eq!(classify_indicator(&e, true), "");
    e.is_executable = true;
    assert_eq!(classify_indicator(&e, true), "*");
    assert_eq!(classify_indicator(&e, false), "");
    e.is_dir = true;
    assert_eq!(classify_indicator(&e, true), "/");
    e.is_dir = false;
    e.is_symlink = true;
    assert_eq!(classify_indicator(&e, true), "@");
    e.is_symlink = false;
    e.is_pipe = true;
    assert_eq!(classify_indicator(&e, true), "|");
    e.is_pipe = false;
    e.is_socket = true;
    assert_eq!(classify_indicator(&e, true), "=");
}

#[test]
fn total_blocks_halves_512_byte_counts() {
    let mut a = plain_entry("a");
    a.blocks = 8;
    let mut b = plain_entry("b");
    b.blocks = 3;
    assert_eq!(total_blocks(&vec![a, b]), 5);
    assert_eq!(total_blocks(&vec![]), 0);
}

#[test]
fn colorize_by_type_and_extension() {
    let mut e = plain_entry("d");
    e.is_dir = true;
    assert_eq!(colorize_filename(&e, true), "\x1b[1;34md\x1b[0m");
    assert_eq!(colorize_filename(&e, false), "d");
    // The extension attribute is the lowercased suffix, as derivation
    // stores it.
    let mut z = plain_entry("x.ZIP");
    let (_, _, ext) = lsf::entry::derive_entry_fields("x.ZIP", 0o100644, false);
    z.extension = ext;
    assert_eq!(z.extension, "zip");
    assert_eq!(colorize_filename(&z, true), "\x1b[1;31mx.ZIP\x1b[0m");
    let p = plain_entry("notes");
    assert_eq!(colorize_filename(&p, true), "notes");
}

#[test]
fn colorized_permissions_wrap_each_character() {
    let out = colorize_permissions("-d");
    assert_eq!(out, "\x1b[90m-\x1b[0m\x1b[1;34md\x1b[0m");
}

#[test]
fn year_layout_for_old_and_future_timestamps() {
    let now: i64 = 1_700_000_000;
    // Just modified: time-of-day layout.
    assert!(!lsf::format::wants_year(now, now));
    // Within the last 182 days: time-of-day layout.
    assert!(!lsf::format::wants_year(now - 182 * 86400, now));
    // Older than 182 days: year layout.
    assert!(lsf::format::wants_year(now - 182 * 86400 - 1, now));
    // Up to an hour ahead of the clock: time-of-day layout.
    assert!(!lsf::format::wants_year(now + 3600, now));
    // More than an hour ahead: year layout.
    assert!(lsf::format::wants_year(now + 3601, now));
}

#[test]
fn time_text_substitutes_the_blank_field() {
    assert_eq!(lsf::format::time_text(Some("Jan  1 00:00".to_string())), "Jan  1 00:00");
    assert_eq!(lsf::format::time_text(None), "            ");
}
