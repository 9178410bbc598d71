use lsf::icons::{build_icon_map, get_icon, IconEntry};

fn icon_of(name: &str, is_dir: bool, is_hidden: bool, is_symlink: bool, is_executable: bool)
    -> IconEntry {
    let table = build_icon_map();
    get_icon(&table, name, is_dir, is_hidden, is_symlink, is_executable, false, false, false,
        false)
}

#[test]
fn last_registration_wins_for_shared_suffix() {
    // `.ts` is registered for video first and re-registered for TypeScript
    // last, so the later registration is authoritative.
    let e = icon_of("main.ts", false, false, false, false);
    assert_eq!(e.icon, "\u{e628}");
    assert_eq!(e.color, "94");
}

#[test]
fn exact_name_beats_extension() {
    let e = icon_of("cargo.toml", false, false, false, false);
    assert_eq!(e.icon, "\u{e7a8}");
    let mixed_case = icon_of("Cargo.toml", false, false, false, false);
    assert_eq!(mixed_case.icon, "\u{e7a8}");
    let other_toml = icon_of("other.toml", false, false, false, false);
    assert_eq!(other_toml.icon, "\u{e60b}");
}

#[test]
fn unresolvable_symlink_gets_symlink_icon() {
    // A symlink whose name matches nothing falls back to the symlink icon,
    // never to the plain-file icon, even with the executable bit set.
    let e = icon_of("mystery", false, false, true, true);
    assert_eq!(e.icon, "\u{f0c1}");
    assert_eq!(e.color, "36");
}

#[test]
fn symlink_with_known_extension_uses_it() {
    let e = icon_of("link.rs", false, false, true, false);
    assert_eq!(e.icon, "\u{e7a8}");
}

#[test]
fn hidden_directory_gets_hidden_icon() {
    let e = icon_of(".hiddenstuff", true, true, false, false);
    assert_eq!(e.icon, "\u{f114}");
    let plain = icon_of("src", true, false, false, false);
    assert_eq!(plain.icon, "\u{f115}");
    let named = icon_of(".github", true, true, false, false);
    assert_eq!(named.icon, "\u{e702}");
}

#[test]
fn special_kinds_beat_everything() {
    let table = build_icon_map();
    let pipe = get_icon(&table, "x.rs", false, false, false, false, true, false, false, false);
    assert_eq!(pipe.icon, "\u{f731}");
    let sock = get_icon(&table, "x.rs", false, false, false, false, false, true, false, false);
    assert_eq!(sock.icon, "\u{f6a7}");
    let blk = get_icon(&table, "x.rs", false, false, false, false, false, false, true, false);
    assert_eq!(blk.icon, "\u{f0a0}");
    let chr = get_icon(&table, "x.rs", false, false, false, false, false, false, false, true);
    assert_eq!(chr.icon, "\u{e601}");
}

#[test]
fn executable_fallback_and_default() {
    let exec = icon_of("a.out.bin2", false, false, false, true);
    assert_eq!(exec.icon, "\u{f489}");
    let plain = icon_of("mystery", false, false, false, false);
    assert_eq!(plain.icon, "\u{f016}");
}

#[test]
fn extension_lookup_is_case_insensitive() {
    let e = icon_of("PHOTO.PNG", false, false, false, false);
    assert_eq!(e.icon, "\u{f1c5}");
}

#[test]
fn compound_extension_falls_back_to_simple() {
    let e = icon_of("bundle.tar.gz", false, false, false, false);
    assert_eq!(e.icon, "\u{f1c6}");
}

#[test]
fn colored_and_plain_icon_text() {
    let e = IconEntry::new("\u{e7a8}", "91");
    assert_eq!(e.colored(), "\x1b[91m\u{e7a8}\x1b[0m");
    assert_eq!(e.plain(), "\u{e7a8}");
}

#[test]
fn table_has_the_registered_size() {
    assert_eq!(build_icon_map().len(), 374);
}
