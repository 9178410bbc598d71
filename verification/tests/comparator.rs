use core::cmp::Ordering;
use lsf::compare::version_compare;

#[test]
fn natural_order_digit_runs() {
    assert_eq!(version_compare("img2", "img10"), Ordering::Less);
    assert_eq!(version_compare("img10", "img2"), Ordering::Greater);
    assert_eq!(version_compare("img2", "img2"), Ordering::Equal);
}

#[test]
fn plain_lowercase_order_differs() {
    // Under plain lowercase (byte-wise) ordering, "img10" sorts before
    // "img2"; the natural order reverses that.
    assert!("img10" < "img2");
    assert_eq!(version_compare("img2", "img10"), Ordering::Less);
}

#[test]
fn equal_value_runs_continue_scan() {
    assert_eq!(version_compare("a09b", "a9b"), Ordering::Equal);
    assert_eq!(version_compare("a09c", "a9b"), Ordering::Greater);
    assert_eq!(version_compare("a09a", "a9b"), Ordering::Less);
}

#[test]
fn prefix_sorts_less() {
    assert_eq!(version_compare("file", "file1"), Ordering::Less);
    assert_eq!(version_compare("file1", "file"), Ordering::Greater);
}

#[test]
fn case_tie_break_is_deterministic() {
    let first = version_compare("File", "file");
    for _ in 0..10 {
        assert_eq!(version_compare("File", "file"), first);
    }
    // Lowercase-equal names fall back to raw code points: 'F' < 'f'.
    assert_eq!(version_compare("File", "file"), Ordering::Less);
    assert_eq!(version_compare("file", "File"), Ordering::Greater);
}

#[test]
fn digits_sort_before_letters() {
    assert_eq!(version_compare("1a", "ab"), Ordering::Less);
    assert_eq!(version_compare("ab", "1a"), Ordering::Greater);
}

#[test]
fn overlong_digit_runs_saturate() {
    // Both runs overflow a machine word and saturate to the same value, so
    // the scan continues past them.
    assert_eq!(
        version_compare("x99999999999999999999998y", "x99999999999999999999999y"),
        Ordering::Equal
    );
    assert_eq!(
        version_compare("x99999999999999999999998a", "x99999999999999999999999b"),
        Ordering::Less
    );
}

#[test]
fn version_like_names() {
    assert_eq!(version_compare("v1.2.9", "v1.2.10"), Ordering::Less);
    assert_eq!(version_compare("v1.10.0", "v1.9.9"), Ordering::Greater);
}

#[test]
fn folding_is_unicode_wide() {
    // Both fold to the same lowercase letter, so the raw code points break
    // the tie; a capital E-acute sorts before the small one.
    assert_eq!(version_compare("\u{c9}", "\u{e9}"), Ordering::Less);
    // Distinct folded letters compare by their folded code points: a small
    // e-acute sorts after a plain z, where raw code points would also say
    // so, but a capital E-acute still sorts after z once folded.
    assert_eq!(version_compare("\u{c9}", "z"), Ordering::Greater);
}
