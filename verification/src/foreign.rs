//! Wrappers around functions of outside crates, and of std where vstd gives
//! them no specification. Each wrapper's body only makes the call and converts
//! values; its contract is what the callee's source or documentation shows.
use vstd::prelude::*;

verus! {

/// Relies on str::chars: the iterator yields exactly the characters of the
/// string, in order, which are the string's view.
#[verifier::external_body]
pub fn str_to_chars(s: &str) -> (v: Vec<char>)
    ensures
        v@ == s@,
{
    s.chars().collect()
}

/// Relies on String's FromIterator over char: collecting characters builds
/// the string of exactly those characters, which are then its view.
#[verifier::external_body]
pub fn chars_to_string(v: &Vec<char>) -> (s: String)
    ensures
        s@ == v@,
{
    v.iter().collect()
}

/// The column width of one character beyond printable ASCII, as
/// unicode_width reports it.
pub uninterp spec fn unicode_char_width(c: char) -> nat;

/// The column width of one character: printable ASCII is one column wide,
/// and anything else is what the width tables report.
pub open spec fn char_display_width(c: char) -> nat {
    if 0x20 <= c as u32 && (c as u32) < 0x7f {
        1
    } else {
        unicode_char_width(c)
    }
}

/// Relies on unicode_width's UnicodeWidthChar::width: a pure table lookup of
/// one character's column width, at most three columns; printable ASCII is
/// one column wide, and control characters report no width and count as 0
/// here.
#[verifier::external_body]
pub fn width_of_char(c: char) -> (w: usize)
    ensures
        w == char_display_width(c),
        !(0x20 <= c as u32 && (c as u32) < 0x7f) ==> w == unicode_char_width(c),
        w <= 3,
{
    unicode_width::UnicodeWidthChar::width(c).unwrap_or(0)
}

/// The Unicode lower case of a run of characters, as str::to_lowercase
/// folds it.
pub uninterp spec fn lower_of(s: Seq<char>) -> Seq<char>;

/// Relies on str::to_lowercase: the result depends on the characters alone
/// (no locale plays a part), so it can carry a name.
#[verifier::external_body]
pub fn lowercase(s: &str) -> (r: String)
    ensures
        r@ == lower_of(s@),
        s@.len() == 0 ==> r@.len() == 0,
{
    s.to_lowercase()
}

/// The Unicode lower case of one character: the first character of
/// char::to_lowercase's mapping, which is the character itself where the
/// mapping is the identity.
pub uninterp spec fn lower_char_of(c: char) -> char;

/// Relies on char::to_lowercase: a pure table lookup, a function of the
/// character alone; the wrapper takes the mapping's first character. The
/// conversion tables map ASCII letters `A`-`Z` down by 32 and leave all
/// other ASCII unchanged, and no character maps into the ASCII digit range.
#[verifier::external_body]
pub fn char_fold_lower(c: char) -> (r: char)
    ensures
        r == lower_char_of(c),
        (c as u32) < 0x80 ==> r == crate::text::spec_lower_char(c),
        !crate::text::spec_is_digit(c) ==> !crate::text::spec_is_digit(r),
{
    c.to_lowercase().next().unwrap_or(c)
}

/// Relies on uzers::get_user_by_uid: the result depends on the system's user
/// database, so nothing is promised of it.
#[verifier::external_body]
pub fn lookup_username(uid: u32) -> (r: Option<String>)
{
    uzers::get_user_by_uid(uid).map(|u| u.name().to_string_lossy().into_owned())
}

/// Relies on uzers::get_group_by_gid: the result depends on the system's group
/// database, so nothing is promised of it.
#[verifier::external_body]
pub fn lookup_groupname(gid: u32) -> (r: Option<String>)
{
    uzers::get_group_by_gid(gid).map(|g| g.name().to_string_lossy().into_owned())
}

/// Relies on chrono::Local::now and its timestamp method: the clock's current
/// time in seconds since the epoch. The result depends on the clock, so
/// nothing is promised of it.
#[verifier::external_body]
pub fn now_secs() -> (r: i64)
{
    chrono::Local::now().timestamp()
}

/// Relies on chrono's DateTime::from_timestamp, with_timezone and format:
/// renders a timestamp under the given strftime layout in the local time
/// zone. The result depends on the machine's time zone, so nothing is
/// promised of it; None comes only when chrono cannot represent the
/// timestamp. The layout is restricted to the two fixed ones the long format
/// uses, which chrono's format parser accepts, so the rendering itself cannot
/// fail.
#[verifier::external_body]
pub fn calendar_time_string(secs: i64, layout: &str) -> (r: Option<String>)
    requires
        layout@ == "%b %e  %Y"@ || layout@ == "%b %e %H:%M"@,
{
    let dt = chrono::DateTime::<chrono::Utc>::from_timestamp(secs, 0)?;
    Some(dt.with_timezone(&chrono::Local).format(layout).to_string())
}

/// Relies on terminal_size::terminal_size: the width in columns of the
/// attached terminal, if any. The result depends on the environment, so
/// nothing is promised of it.
#[verifier::external_body]
pub fn query_terminal_width() -> (r: Option<u16>)
{
    terminal_size::terminal_size().map(|(w, _)| w.0)
}

} // verus!
