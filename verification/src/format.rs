//! Field renderers for the long format and the colored views: the permission
//! string, sizes (plain or human-readable), timestamps, colorized names, the
//! classify indicator, the total-blocks line, and the long-format line.
use vstd::prelude::*;
use std::collections::HashMap;

use crate::entry::{FileEntry, get_groupname, get_username};
use crate::foreign::{calendar_time_string, chars_to_string, now_secs, str_to_chars};
use crate::text::{chars_eq_str, push_chars, push_pad_left, push_pad_right,
    push_spaces, push_str_chars, spec_pad_left, spec_pad_right,
    spec_spaces, u64_to_string};
pub use crate::text::spec_dec;

verus! {

/// The type character of an `ls -l` permission string: `l` for symlinks, `d`
/// for directories, then pipes, character and block devices and sockets by
/// their mode bits, and `-` for regular files.
pub open spec fn spec_file_type_char(mode: u32, is_dir: bool, is_symlink: bool) -> char {
    if is_symlink {
        'l'
    } else if is_dir {
        'd'
    } else if mode & 0o170000 == 0o010000 {
        'p'
    } else if mode & 0o170000 == 0o020000 {
        'c'
    } else if mode & 0o170000 == 0o060000 {
        'b'
    } else if mode & 0o170000 == 0o140000 {
        's'
    } else {
        '-'
    }
}

pub fn file_type_char(mode: u32, is_dir: bool, is_symlink: bool) -> (c: char)
    ensures
        c == spec_file_type_char(mode, is_dir, is_symlink),
{
    if is_symlink {
        'l'
    } else if is_dir {
        'd'
    } else if mode & 0o170000 == 0o010000 {
        'p'
    } else if mode & 0o170000 == 0o020000 {
        'c'
    } else if mode & 0o170000 == 0o060000 {
        'b'
    } else if mode & 0o170000 == 0o140000 {
        's'
    } else {
        '-'
    }
}

/// One permission slot that may carry a setuid/setgid/sticky overlay: the
/// overlay letter when the overlay bit is set (lowercase with the execute
/// bit, uppercase without), else `x` or `-` by the execute bit alone.
pub open spec fn spec_exec_slot(
    mode: u32,
    overlay_bit: u32,
    exec_bit: u32,
    with_exec: char,
    without_exec: char,
) -> char {
    if mode & overlay_bit != 0 {
        if mode & exec_bit != 0 {
            with_exec
        } else {
            without_exec
        }
    } else {
        if mode & exec_bit != 0 {
            'x'
        } else {
            '-'
        }
    }
}

/// The full ten-character permission string.
pub open spec fn spec_permissions(mode: u32, is_dir: bool, is_symlink: bool) -> Seq<char> {
    seq![
        spec_file_type_char(mode, is_dir, is_symlink),
        if mode & 0o400 != 0 { 'r' } else { '-' },
        if mode & 0o200 != 0 { 'w' } else { '-' },
        spec_exec_slot(mode, 0o4000, 0o100, 's', 'S'),
        if mode & 0o040 != 0 { 'r' } else { '-' },
        if mode & 0o020 != 0 { 'w' } else { '-' },
        spec_exec_slot(mode, 0o2000, 0o010, 's', 'S'),
        if mode & 0o004 != 0 { 'r' } else { '-' },
        if mode & 0o002 != 0 { 'w' } else { '-' },
        spec_exec_slot(mode, 0o1000, 0o001, 't', 'T'),
    ]
}

fn exec_slot(mode: u32, overlay_bit: u32, exec_bit: u32, with_exec: char, without_exec: char)
    -> (c: char)
    ensures
        c == spec_exec_slot(mode, overlay_bit, exec_bit, with_exec, without_exec),
{
    if mode & overlay_bit != 0 {
        if mode & exec_bit != 0 {
            with_exec
        } else {
            without_exec
        }
    } else {
        if mode & exec_bit != 0 {
            'x'
        } else {
            '-'
        }
    }
}

/// Format the permission mode as an `ls -l` style string such as
/// `drwxr-xr-x`, with setuid/setgid/sticky overlays.
pub fn format_permissions(mode: u32, is_dir: bool, is_symlink: bool) -> (r: String)
    ensures
        r@ == spec_permissions(mode, is_dir, is_symlink),
{
    let mut v: Vec<char> = Vec::new();
    v.push(file_type_char(mode, is_dir, is_symlink));
    v.push(if mode & 0o400 != 0 { 'r' } else { '-' });
    v.push(if mode & 0o200 != 0 { 'w' } else { '-' });
    v.push(exec_slot(mode, 0o4000, 0o100, 's', 'S'));
    v.push(if mode & 0o040 != 0 { 'r' } else { '-' });
    v.push(if mode & 0o020 != 0 { 'w' } else { '-' });
    v.push(exec_slot(mode, 0o2000, 0o010, 's', 'S'));
    v.push(if mode & 0o004 != 0 { 'r' } else { '-' });
    v.push(if mode & 0o002 != 0 { 'w' } else { '-' });
    v.push(exec_slot(mode, 0o1000, 0o001, 't', 'T'));
    proof {
        assert(v@ =~= spec_permissions(mode, is_dir, is_symlink));
    }
    chars_to_string(&v)
}

/// A piece of text wrapped in one ANSI color code.
pub open spec fn spec_color_wrap(code: Seq<char>, text: Seq<char>) -> Seq<char> {
    "\u{1b}["@ + code + "m"@ + text + "\u{1b}[0m"@
}

pub fn push_color_wrap(out: &mut Vec<char>, code: &str, text: &Vec<char>)
    ensures
        final(out)@ == old(out)@ + spec_color_wrap(code@, text@),
{
    push_str_chars(out, "\u{1b}[");
    push_str_chars(out, code);
    push_str_chars(out, "m");
    push_chars(out, text);
    push_str_chars(out, "\u{1b}[0m");
    proof {
        assert(out@ =~= old(out)@ + spec_color_wrap(code@, text@));
    }
}

/// The color each permission character gets.
pub open spec fn spec_perm_char_color(c: char) -> Seq<char> {
    if c == 'd' {
        "1;34"@
    } else if c == 'l' {
        "1;36"@
    } else if c == 'r' {
        "33"@
    } else if c == 'w' {
        "31"@
    } else if c == 'x' || c == 's' || c == 't' {
        "1;32"@
    } else if c == 'S' || c == 'T' {
        "32"@
    } else {
        "90"@
    }
}

/// A permission string colored character by character; only `-` and the
/// known permission letters occur, and each is wrapped in its color.
pub open spec fn spec_colorize_permissions(s: Seq<char>) -> Seq<char>
    decreases s.len(),
{
    if s.len() == 0 {
        Seq::empty()
    } else {
        let c = s.last();
        let piece = if c == 'd' || c == 'l' || c == 'r' || c == 'w' || c == 'x' || c == 's'
            || c == 't' || c == 'S' || c == 'T' || c == '-' {
            spec_color_wrap(spec_perm_char_color(c), seq![c])
        } else {
            seq![c]
        };
        spec_colorize_permissions(s.drop_last()) + piece
    }
}

/// Colorize a permission string.
pub fn colorize_permissions(perms: &str) -> (r: String)
    ensures
        r@ == spec_colorize_permissions(perms@),
{
    let pv = str_to_chars(perms);
    let mut out: Vec<char> = Vec::new();
    let mut i: usize = 0;
    while i < pv.len()
        invariant
            i <= pv.len(),
            pv@ == perms@,
            out@ == spec_colorize_permissions(pv@.take(i as int)),
        decreases pv.len() - i,
    {
        let c = pv[i];
        let ghost pre = out@;
        if c == 'd' || c == 'l' || c == 'r' || c == 'w' || c == 'x' || c == 's' || c == 't'
            || c == 'S' || c == 'T' || c == '-' {
            let code: &str = if c == 'd' {
                "1;34"
            } else if c == 'l' {
                "1;36"
            } else if c == 'r' {
                "33"
            } else if c == 'w' {
                "31"
            } else if c == 'x' || c == 's' || c == 't' {
                "1;32"
            } else if c == 'S' || c == 'T' {
                "32"
            } else {
                "90"
            };
            let mut single: Vec<char> = Vec::new();
            single.push(c);
            push_color_wrap(&mut out, code, &single);
            proof {
                assert(single@ =~= seq![c]);
            }
        } else {
            out.push(c);
            proof {
                assert(out@ =~= pre + seq![c]);
            }
        }
        proof {
            assert(pv@.take(i + 1 as int).drop_last() =~= pv@.take(i as int));
            assert(pv@.take(i + 1 as int).last() == pv@[i as int]);
        }
        i = i + 1;
    }
    proof {
        assert(pv@.take(pv@.len() as int) == pv@);
    }
    chars_to_string(&out)
}

/// The units ladder index for a size: the largest power of the base that the
/// size reaches, capped at the table's last entry.
pub open spec fn spec_unit_idx(size: nat, si: bool) -> nat {
    if si {
        if size < 1000 {
            0
        } else if size < 1000000 {
            1
        } else if size < 1000000000 {
            2
        } else if size < 1000000000000 {
            3
        } else if size < 1000000000000000 {
            4
        } else {
            5
        }
    } else {
        if size < 1024 {
            0
        } else if size < 1048576 {
            1
        } else if size < 1073741824 {
            2
        } else if size < 1099511627776 {
            3
        } else if size < 1125899906842624 {
            4
        } else {
            5
        }
    }
}

/// The divisor that goes with a units ladder index.
pub open spec fn spec_unit_div(idx: nat, si: bool) -> nat {
    if si {
        if idx == 0 {
            1
        } else if idx == 1 {
            1000
        } else if idx == 2 {
            1000000
        } else if idx == 3 {
            1000000000
        } else if idx == 4 {
            1000000000000
        } else {
            1000000000000000
        }
    } else {
        if idx == 0 {
            1
        } else if idx == 1 {
            1024
        } else if idx == 2 {
            1048576
        } else if idx == 3 {
            1073741824
        } else if idx == 4 {
            1099511627776
        } else {
            1125899906842624
        }
    }
}

/// The unit suffix that goes with a units ladder index.
pub open spec fn spec_unit_suffix(idx: nat, si: bool) -> Seq<char> {
    if si {
        if idx == 0 {
            "B"@
        } else if idx == 1 {
            "kB"@
        } else if idx == 2 {
            "MB"@
        } else if idx == 3 {
            "GB"@
        } else if idx == 4 {
            "TB"@
        } else {
            "PB"@
        }
    } else {
        if idx == 0 {
            ""@
        } else if idx == 1 {
            "K"@
        } else if idx == 2 {
            "M"@
        } else if idx == 3 {
            "G"@
        } else if idx == 4 {
            "T"@
        } else {
            "P"@
        }
    }
}

/// A size for display: the plain decimal count of bytes, or a human-readable
/// form. The human form shows `0B`/`0` for zero, the plain count below one
/// unit, one rounded decimal place below ten units, and a rounded whole
/// number above (rounding half up).
pub open spec fn spec_format_size(size: u64, human: bool, si: bool) -> Seq<char> {
    if !human {
        spec_dec(size as nat)
    } else if size == 0 {
        if si {
            "0B"@
        } else {
            "0"@
        }
    } else {
        let idx = spec_unit_idx(size as nat, si);
        if idx == 0 {
            spec_dec(size as nat) + spec_unit_suffix(0, si)
        } else {
            let b = spec_unit_div(idx, si);
            if size < 10 * b {
                let t = (size * 10 + b / 2) / (b as int);
                spec_dec((t / 10) as nat) + seq!['.'] + spec_dec((t % 10) as nat)
                    + spec_unit_suffix(idx, si)
            } else {
                spec_dec(((size + b / 2) / (b as int)) as nat) + spec_unit_suffix(idx, si)
            }
        }
    }
}

/// Format a file size for display.
pub fn format_size(size: u64, human: bool, si: bool) -> (r: String)
    ensures
        r@ == spec_format_size(size, human, si),
{
    if !human {
        return u64_to_string(size);
    }
    if size == 0 {
        let r: &str = if si {
            "0B"
        } else {
            "0"
        };
        return r.to_owned();
    }
    let idx: u64 = if si {
        if size < 1000 {
            0
        } else if size < 1000000 {
            1
        } else if size < 1000000000 {
            2
        } else if size < 1000000000000 {
            3
        } else if size < 1000000000000000 {
            4
        } else {
            5
        }
    } else {
        if size < 1024 {
            0
        } else if size < 1048576 {
            1
        } else if size < 1073741824 {
            2
        } else if size < 1099511627776 {
            3
        } else if size < 1125899906842624 {
            4
        } else {
            5
        }
    };
    let suffix: &str = if si {
        if idx == 0 {
            "B"
        } else if idx == 1 {
            "kB"
        } else if idx == 2 {
            "MB"
        } else if idx == 3 {
            "GB"
        } else if idx == 4 {
            "TB"
        } else {
            "PB"
        }
    } else {
        if idx == 0 {
            ""
        } else if idx == 1 {
            "K"
        } else if idx == 2 {
            "M"
        } else if idx == 3 {
            "G"
        } else if idx == 4 {
            "T"
        } else {
            "P"
        }
    };
    proof {
        assert(idx as nat == spec_unit_idx(size as nat, si));
        assert(suffix@ == spec_unit_suffix(idx as nat, si));
    }
    let mut v: Vec<char> = Vec::new();
    if idx == 0 {
        let d = u64_to_string(size);
        push_str_chars(&mut v, d.as_str());
        push_str_chars(&mut v, suffix);
    } else {
        let b: u64 = if si {
            if idx == 1 {
                1000
            } else if idx == 2 {
                1000000
            } else if idx == 3 {
                1000000000
            } else if idx == 4 {
                1000000000000
            } else {
                1000000000000000
            }
        } else {
            if idx == 1 {
                1024
            } else if idx == 2 {
                1048576
            } else if idx == 3 {
                1073741824
            } else if idx == 4 {
                1099511627776
            } else {
                1125899906842624
            }
        };
        proof {
            assert(b as nat == spec_unit_div(idx as nat, si));
        }
        if size < u64::MAX / 10 && size < 10 * b {
            let t128: u128 = (size as u128 * 10 + (b / 2) as u128) / (b as u128);
            proof {
                assert((size as u128 * 10 + (b / 2) as u128) < u128::MAX) by (nonlinear_arith)
                    requires
                        size as u128 <= 0xffff_ffff_ffff_ffffu128,
                        (b / 2) as u128 <= 0xffff_ffff_ffff_ffffu128,
                ;
                assert(t128 <= size as u128 * 10 + (b / 2) as u128);
            }
            proof {
                assert((size as int * 10 + b / 2) / (b as int) < 101) by (nonlinear_arith)
                    requires
                        size < 10 * b,
                        b >= 1000,
                ;
                assert(t128 == (size as int * 10 + b / 2) / (b as int));
                assert(t128 < 101);
            }
            let t: u64 = t128 as u64;
            let whole = u64_to_string(t / 10);
            let tenth = u64_to_string(t % 10);
            push_str_chars(&mut v, whole.as_str());
            v.push('.');
            push_str_chars(&mut v, tenth.as_str());
            push_str_chars(&mut v, suffix);
        } else {
            proof {
                if size >= u64::MAX / 10 {
                    assert(size >= 10 * b || size as int * 10 >= 10 * b) by (nonlinear_arith)
                        requires
                            size >= u64::MAX / 10,
                            b <= 1125899906842624,
                    ;
                    assert(size >= 10 * b);
                }
            }
            let w128: u128 = (size as u128 + (b / 2) as u128) / (b as u128);
            proof {
                assert(w128 <= size as u128 + (b / 2) as u128);
                assert((size as int + b / 2) / (b as int) <= size as int) by (nonlinear_arith)
                    requires
                        b >= 1000,
                        size >= 1,
                ;
                assert(w128 == (size as int + b / 2) / (b as int));
            }
            let w: u64 = w128 as u64;
            let whole = u64_to_string(w);
            push_str_chars(&mut v, whole.as_str());
            push_str_chars(&mut v, suffix);
        }
    }
    proof {
        assert(v@ =~= spec_format_size(size, human, si));
    }
    chars_to_string(&v)
}

/// Whether a timestamp gets its year rather than its time of day in the long
/// format: entries older than about six months (182 days) or more than an
/// hour in the future show the year.
pub open spec fn spec_wants_year(mtime: int, now: int) -> bool {
    mtime < now - 182 * 86400 || mtime > now + 3600
}

/// Decide, from the timestamp and the clock reading, whether the long format
/// shows the year or the time of day.
pub fn wants_year(mtime: i64, now: i64) -> (r: bool)
    ensures
        r == spec_wants_year(mtime as int, now as int),
{
    let m: i128 = mtime as i128;
    let n: i128 = now as i128;
    m < n - 182 * 86400 || m > n + 3600
}

/// The timestamp field for a calendar answer: the rendered text when the
/// calendar gave one, twelve spaces when it could not represent the
/// timestamp.
pub open spec fn spec_time_text(answer: Option<String>) -> Seq<char> {
    match answer {
        Some(s) => s@,
        None => spec_spaces(12),
    }
}

/// Substitute the blank field for a timestamp the calendar could not
/// represent.
pub fn time_text(answer: Option<String>) -> (r: String)
    ensures
        answer matches Some(s) ==> r == s,
        answer is None ==> r@ == spec_spaces(12),
        r@ == spec_time_text(answer),
{
    match answer {
        Some(s) => s,
        None => {
            let mut v: Vec<char> = Vec::new();
            push_spaces(&mut v, 12);
            proof {
                assert(v@ =~= spec_spaces(12));
            }
            chars_to_string(&v)
        },
    }
}

/// Format a timestamp for display. A missing timestamp renders as twelve
/// spaces; a present one is handed to the time-zone-dependent calendar
/// formatter under the layout `wants_year` picks against the clock, and the
/// field is what `time_text` makes of the calendar's answer.
pub fn format_time(time: Option<i64>) -> (r: String)
    ensures
        time is None ==> r@ == spec_spaces(12),
{
    match time {
        None => time_text(None),
        Some(secs) => {
            let now = now_secs();
            let layout: &str = if wants_year(secs, now) {
                "%b %e  %Y"
            } else {
                "%b %e %H:%M"
            };
            time_text(calendar_time_string(secs, layout))
        },
    }
}

/// Extensions colored as archives in plain (iconless) name coloring.
pub open spec fn spec_is_archive_ext(e: Seq<char>) -> bool {
    ||| e == "zip"@
    ||| e == "tar"@
    ||| e == "gz"@
    ||| e == "bz2"@
    ||| e == "xz"@
    ||| e == "7z"@
    ||| e == "rar"@
    ||| e == "tgz"@
    ||| e == "tbz2"@
    ||| e == "txz"@
    ||| e == "zst"@
    ||| e == "deb"@
    ||| e == "rpm"@
    ||| e == "iso"@
    ||| e == "dmg"@
}

pub open spec fn spec_is_image_ext(e: Seq<char>) -> bool {
    ||| e == "png"@
    ||| e == "jpg"@
    ||| e == "jpeg"@
    ||| e == "gif"@
    ||| e == "svg"@
    ||| e == "webp"@
    ||| e == "bmp"@
    ||| e == "ico"@
    ||| e == "tiff"@
    ||| e == "tif"@
    ||| e == "psd"@
    ||| e == "heic"@
    ||| e == "avif"@
}

pub open spec fn spec_is_audio_ext(e: Seq<char>) -> bool {
    ||| e == "mp3"@
    ||| e == "wav"@
    ||| e == "flac"@
    ||| e == "aac"@
    ||| e == "ogg"@
    ||| e == "m4a"@
    ||| e == "wma"@
    ||| e == "opus"@
}

pub open spec fn spec_is_video_ext(e: Seq<char>) -> bool {
    ||| e == "mp4"@
    ||| e == "mov"@
    ||| e == "avi"@
    ||| e == "mkv"@
    ||| e == "webm"@
    ||| e == "flv"@
    ||| e == "wmv"@
    ||| e == "m4v"@
    ||| e == "mpg"@
    ||| e == "mpeg"@
}

fn is_archive_ext(e: &Vec<char>) -> (r: bool)
    ensures
        r == spec_is_archive_ext(e@),
{
    chars_eq_str(e, "zip") || chars_eq_str(e, "tar") || chars_eq_str(e, "gz") || chars_eq_str(
        e,
        "bz2",
    ) || chars_eq_str(e, "xz") || chars_eq_str(e, "7z") || chars_eq_str(e, "rar")
        || chars_eq_str(e, "tgz") || chars_eq_str(e, "tbz2") || chars_eq_str(e, "txz")
        || chars_eq_str(e, "zst") || chars_eq_str(e, "deb") || chars_eq_str(e, "rpm")
        || chars_eq_str(e, "iso") || chars_eq_str(e, "dmg")
}

fn is_image_ext(e: &Vec<char>) -> (r: bool)
    ensures
        r == spec_is_image_ext(e@),
{
    chars_eq_str(e, "png") || chars_eq_str(e, "jpg") || chars_eq_str(e, "jpeg") || chars_eq_str(
        e,
        "gif",
    ) || chars_eq_str(e, "svg") || chars_eq_str(e, "webp") || chars_eq_str(e, "bmp")
        || chars_eq_str(e, "ico") || chars_eq_str(e, "tiff") || chars_eq_str(e, "tif")
        || chars_eq_str(e, "psd") || chars_eq_str(e, "heic") || chars_eq_str(e, "avif")
}

fn is_audio_ext(e: &Vec<char>) -> (r: bool)
    ensures
        r == spec_is_audio_ext(e@),
{
    chars_eq_str(e, "mp3") || chars_eq_str(e, "wav") || chars_eq_str(e, "flac") || chars_eq_str(
        e,
        "aac",
    ) || chars_eq_str(e, "ogg") || chars_eq_str(e, "m4a") || chars_eq_str(e, "wma")
        || chars_eq_str(e, "opus")
}

fn is_video_ext(e: &Vec<char>) -> (r: bool)
    ensures
        r == spec_is_video_ext(e@),
{
    chars_eq_str(e, "mp4") || chars_eq_str(e, "mov") || chars_eq_str(e, "avi") || chars_eq_str(
        e,
        "mkv",
    ) || chars_eq_str(e, "webm") || chars_eq_str(e, "flv") || chars_eq_str(e, "wmv")
        || chars_eq_str(e, "m4v") || chars_eq_str(e, "mpg") || chars_eq_str(e, "mpeg")
}

/// How a name is colored: by entry type first, then by a few well-known
/// extension families against the extension attribute (which the data model
/// keeps lowercased), and plain otherwise.
pub open spec fn spec_colorize_filename(e: FileEntry, use_color: bool) -> Seq<char> {
    if !use_color {
        e.name@
    } else if e.is_dir {
        spec_color_wrap("1;34"@, e.name@)
    } else if e.is_symlink {
        spec_color_wrap("36"@, e.name@)
    } else if e.is_executable {
        spec_color_wrap("1;32"@, e.name@)
    } else if e.is_pipe {
        spec_color_wrap("33"@, e.name@)
    } else if e.is_socket {
        spec_color_wrap("1;35"@, e.name@)
    } else if e.is_block_device || e.is_char_device {
        spec_color_wrap("1;33"@, e.name@)
    } else {
        let ext = e.extension@;
        if spec_is_archive_ext(ext) {
            spec_color_wrap("1;31"@, e.name@)
        } else if spec_is_image_ext(ext) {
            spec_color_wrap("35"@, e.name@)
        } else if spec_is_audio_ext(ext) {
            spec_color_wrap("36"@, e.name@)
        } else if spec_is_video_ext(ext) {
            spec_color_wrap("1;35"@, e.name@)
        } else {
            e.name@
        }
    }
}

/// Colorize a filename based on its type and extension.
pub fn colorize_filename(entry: &FileEntry, use_color: bool) -> (r: String)
    ensures
        r@ == spec_colorize_filename(*entry, use_color),
{
    if !use_color {
        return entry.name.clone();
    }
    let name = str_to_chars(entry.name.as_str());
    let code: &str = if entry.is_dir {
        "1;34"
    } else if entry.is_symlink {
        "36"
    } else if entry.is_executable {
        "1;32"
    } else if entry.is_pipe {
        "33"
    } else if entry.is_socket {
        "1;35"
    } else if entry.is_block_device || entry.is_char_device {
        "1;33"
    } else {
        let ext = str_to_chars(entry.extension.as_str());
        if is_archive_ext(&ext) {
            "1;31"
        } else if is_image_ext(&ext) {
            "35"
        } else if is_audio_ext(&ext) {
            "36"
        } else if is_video_ext(&ext) {
            "1;35"
        } else {
            return entry.name.clone();
        }
    };
    let mut v: Vec<char> = Vec::new();
    push_color_wrap(&mut v, code, &name);
    proof {
        assert(v@ =~= spec_colorize_filename(*entry, use_color));
    }
    chars_to_string(&v)
}

/// The classify indicator for an entry: `/` for directories, `@` for
/// symlinks, `|` for pipes, `=` for sockets, `*` for executables in the full
/// mode, and nothing otherwise.
pub open spec fn spec_classify_indicator(e: FileEntry, full: bool) -> Seq<char> {
    if e.is_dir {
        "/"@
    } else if e.is_symlink {
        "@"@
    } else if e.is_pipe {
        "|"@
    } else if e.is_socket {
        "="@
    } else if full && e.is_executable {
        "*"@
    } else {
        ""@
    }
}

/// Get the classify indicator for an entry.
pub fn classify_indicator(entry: &FileEntry, full: bool) -> (r: &'static str)
    ensures
        r@ == spec_classify_indicator(*entry, full),
{
    if entry.is_dir {
        "/"
    } else if entry.is_symlink {
        "@"
    } else if entry.is_pipe {
        "|"
    } else if entry.is_socket {
        "="
    } else if full && entry.is_executable {
        "*"
    } else {
        ""
    }
}

/// The allocated 512-byte blocks of a run of entries, summed with
/// saturation.
pub open spec fn spec_sum_blocks(s: Seq<FileEntry>) -> nat
    decreases s.len(),
{
    if s.len() == 0 {
        0
    } else {
        let rest = spec_sum_blocks(s.drop_last());
        let b = s.last().blocks as nat;
        if rest + b > u64::MAX {
            u64::MAX as nat
        } else {
            rest + b
        }
    }
}

/// The total 1K blocks of a listing, for the long format's `total` line: the
/// entries' 512-byte block counts summed (saturating at the machine word)
/// and halved.
pub fn total_blocks(entries: &Vec<FileEntry>) -> (r: u64)
    ensures
        r as nat == spec_sum_blocks(entries@) / 2,
{
    let mut sum: u64 = 0;
    let mut i: usize = 0;
    proof {
        assert(entries@.take(0) =~= Seq::<FileEntry>::empty());
    }
    while i < entries.len()
        invariant
            i <= entries.len(),
            sum as nat == spec_sum_blocks(entries@.take(i as int)),
        decreases entries.len() - i,
    {
        let b = entries[i].blocks;
        proof {
            assert(entries@.take(i + 1 as int).drop_last() =~= entries@.take(i as int));
            assert(entries@.take(i + 1 as int).last() == entries@[i as int]);
        }
        if sum > u64::MAX - b {
            sum = u64::MAX;
        } else {
            sum = sum + b;
        }
        i = i + 1;
    }
    proof {
        assert(entries@.take(entries@.len() as int) == entries@);
    }
    sum / 2
}

} // verus!

verus! {

/// The owner column's text: the numeric uid, or the resolved name recorded
/// in the cache.
pub open spec fn spec_owner_name(e: FileEntry, numeric_ids: bool, names: Map<u32, String>)
    -> Seq<char> {
    if numeric_ids {
        spec_dec(e.uid as nat)
    } else {
        names[e.uid]@
    }
}

/// The group column's text, by the same rule.
pub open spec fn spec_group_name(e: FileEntry, numeric_ids: bool, names: Map<u32, String>)
    -> Seq<char> {
    if numeric_ids {
        spec_dec(e.gid as nat)
    } else {
        names[e.gid]@
    }
}

/// The left half of a long-format line: the optional inode, block and icon
/// fields, the permission string (colored or not), and the hard-link count.
pub open spec fn spec_long_left(
    e: FileEntry,
    icon: Seq<char>,
    show_icons: bool,
    show_inode: bool,
    show_blocks: bool,
    use_color: bool,
    nlink_width: nat,
    inode_width: nat,
    blocks_width: nat,
) -> Seq<char> {
    (if show_inode {
        spec_pad_left(spec_dec(e.inode as nat), inode_width) + seq![' ']
    } else {
        Seq::empty()
    }) + (if show_blocks {
        spec_pad_left(spec_dec((e.blocks / 2) as nat), blocks_width) + seq![' ']
    } else {
        Seq::empty()
    }) + (if show_icons {
        icon + seq![' ']
    } else {
        Seq::empty()
    }) + (if use_color {
        spec_colorize_permissions(spec_permissions(e.mode, e.is_dir, e.is_symlink))
    } else {
        spec_permissions(e.mode, e.is_dir, e.is_symlink)
    }) + seq![' '] + spec_pad_left(spec_dec(e.nlink as nat), nlink_width)
}

/// The right half of a long-format line: the optional owner, group and
/// author columns, the size, the timestamp, the colored name, and the
/// symlink target when there is one.
pub open spec fn spec_long_right(
    e: FileEntry,
    show_owner: bool,
    show_group: bool,
    show_author: bool,
    human_readable: bool,
    si: bool,
    use_color: bool,
    owner: Seq<char>,
    group: Seq<char>,
    time: Seq<char>,
    owner_width: nat,
    group_width: nat,
    size_width: nat,
) -> Seq<char> {
    (if show_owner {
        seq![' '] + spec_pad_right(owner, owner_width)
    } else {
        Seq::empty()
    }) + (if show_group {
        seq![' '] + spec_pad_right(group, group_width)
    } else {
        Seq::empty()
    }) + (if show_author {
        seq![' '] + spec_pad_right(owner, owner_width)
    } else {
        Seq::empty()
    }) + seq![' '] + spec_pad_left(spec_format_size(e.size, human_readable, si), size_width)
        + seq![' '] + time + seq![' '] + spec_colorize_filename(e, use_color) + (
    if e.is_symlink && e.symlink_target is Some {
        " -> "@ + (if use_color {
            spec_color_wrap("36"@, e.symlink_target->0@)
        } else {
            e.symlink_target->0@
        })
    } else {
        Seq::empty()
    })
}

/// One long-format line: both halves, fields right- or left-justified to the
/// given column widths.
pub open spec fn spec_long_line(
    e: FileEntry,
    icon: Seq<char>,
    show_icons: bool,
    show_owner: bool,
    show_group: bool,
    show_inode: bool,
    show_blocks: bool,
    show_author: bool,
    human_readable: bool,
    si: bool,
    use_color: bool,
    owner: Seq<char>,
    group: Seq<char>,
    time: Seq<char>,
    nlink_width: nat,
    owner_width: nat,
    group_width: nat,
    size_width: nat,
    inode_width: nat,
    blocks_width: nat,
) -> Seq<char> {
    spec_long_left(e, icon, show_icons, show_inode, show_blocks, use_color, nlink_width,
        inode_width, blocks_width) + spec_long_right(e, show_owner, show_group, show_author,
        human_readable, si, use_color, owner, group, time, owner_width, group_width,
        size_width)
}

proof fn lemma_assoc_step(base: Seq<char>, acc: Seq<char>, piece: Seq<char>)
    ensures
        (base + acc) + piece == base + (acc + piece),
{
    assert((base + acc) + piece =~= base + (acc + piece));
}

#[verifier::rlimit(100)]
fn push_long_left(v: &mut Vec<char>, entry: &FileEntry, icon_str: &str, show_icons: bool,
    show_inode: bool, show_blocks: bool, use_color: bool, nlink_width: usize,
    inode_width: usize, blocks_width: usize)
    ensures
        final(v)@ == old(v)@ + spec_long_left(*entry, icon_str@, show_icons, show_inode,
            show_blocks, use_color, nlink_width as nat, inode_width as nat,
            blocks_width as nat),
{
    let ghost base = v@;
    let ghost mut acc: Seq<char> = Seq::empty();
    proof {
        assert(v@ =~= base + acc);
    }
    let ghost p1: Seq<char> = if show_inode {
        spec_pad_left(spec_dec(entry.inode as nat), inode_width as nat) + seq![' ']
    } else {
        Seq::empty()
    };
    if show_inode {
        let ghost m0 = v@;
        let d = u64_to_string(entry.inode);
        let dc = str_to_chars(d.as_str());
        push_pad_left(v, &dc, inode_width);
        v.push(' ');
        proof {
            assert(v@ =~= m0 + p1);
        }
    }
    proof {
        lemma_assoc_step(base, acc, p1);
        if !show_inode {
            assert(acc + p1 =~= acc);
        }
        acc = acc + p1;
        assert(v@ == base + acc);
    }
    let ghost p2: Seq<char> = if show_blocks {
        spec_pad_left(spec_dec((entry.blocks / 2) as nat), blocks_width as nat) + seq![' ']
    } else {
        Seq::empty()
    };
    if show_blocks {
        let ghost m0 = v@;
        let d = u64_to_string(entry.blocks / 2);
        let dc = str_to_chars(d.as_str());
        push_pad_left(v, &dc, blocks_width);
        v.push(' ');
        proof {
            assert(v@ =~= m0 + p2);
        }
    }
    proof {
        lemma_assoc_step(base, acc, p2);
        if !show_blocks {
            assert(acc + p2 =~= acc);
        }
        acc = acc + p2;
        assert(v@ == base + acc);
    }
    let ghost p3: Seq<char> = if show_icons {
        icon_str@ + seq![' ']
    } else {
        Seq::empty()
    };
    if show_icons {
        let ghost m0 = v@;
        push_str_chars(v, icon_str);
        v.push(' ');
        proof {
            assert(v@ =~= m0 + p3);
        }
    }
    proof {
        lemma_assoc_step(base, acc, p3);
        if !show_icons {
            assert(acc + p3 =~= acc);
        }
        acc = acc + p3;
        assert(v@ == base + acc);
    }
    let ghost p4: Seq<char> = if use_color {
        spec_colorize_permissions(spec_permissions(entry.mode, entry.is_dir, entry.is_symlink))
    } else {
        spec_permissions(entry.mode, entry.is_dir, entry.is_symlink)
    };
    let perms = format_permissions(entry.mode, entry.is_dir, entry.is_symlink);
    if use_color {
        let cp = colorize_permissions(perms.as_str());
        push_str_chars(v, cp.as_str());
    } else {
        push_str_chars(v, perms.as_str());
    }
    proof {
        lemma_assoc_step(base, acc, p4);
        acc = acc + p4;
        assert(v@ == base + acc);
    }
    v.push(' ');
    proof {
        let sp: Seq<char> = seq![' '];
        assert(v@ =~= (base + acc) + sp);
        lemma_assoc_step(base, acc, sp);
        acc = acc + sp;
        assert(v@ == base + acc);
    }
    let nl = u64_to_string(entry.nlink);
    let nlc = str_to_chars(nl.as_str());
    push_pad_left(v, &nlc, nlink_width);
    proof {
        let p6 = spec_pad_left(spec_dec(entry.nlink as nat), nlink_width as nat);
        lemma_assoc_step(base, acc, p6);
        acc = acc + p6;
        assert(v@ == base + acc);
        assert(acc == spec_long_left(*entry, icon_str@, show_icons, show_inode, show_blocks,
            use_color, nlink_width as nat, inode_width as nat, blocks_width as nat));
    }
}

#[verifier::rlimit(100)]
fn push_long_right(v: &mut Vec<char>, entry: &FileEntry, show_owner: bool, show_group: bool,
    show_author: bool, human_readable: bool, si: bool, use_color: bool, owner: &Vec<char>,
    group: &Vec<char>, time_str: &str, owner_width: usize, group_width: usize,
    size_width: usize)
    ensures
        final(v)@ == old(v)@ + spec_long_right(*entry, show_owner, show_group, show_author,
            human_readable, si, use_color, owner@, group@, time_str@, owner_width as nat,
            group_width as nat, size_width as nat),
{
    let ghost base = v@;
    let ghost mut acc: Seq<char> = Seq::empty();
    proof {
        assert(v@ =~= base + acc);
    }
    let ghost p1: Seq<char> = if show_owner {
        seq![' '] + spec_pad_right(owner@, owner_width as nat)
    } else {
        Seq::empty()
    };
    if show_owner {
        let ghost m0 = v@;
        v.push(' ');
        push_pad_right(v, owner, owner_width);
        proof {
            assert(v@ =~= m0 + p1);
        }
    }
    proof {
        lemma_assoc_step(base, acc, p1);
        if !show_owner {
            assert(acc + p1 =~= acc);
        }
        acc = acc + p1;
        assert(v@ == base + acc);
    }
    let ghost p2: Seq<char> = if show_group {
        seq![' '] + spec_pad_right(group@, group_width as nat)
    } else {
        Seq::empty()
    };
    if show_group {
        let ghost m0 = v@;
        v.push(' ');
        push_pad_right(v, group, group_width);
        proof {
            assert(v@ =~= m0 + p2);
        }
    }
    proof {
        lemma_assoc_step(base, acc, p2);
        if !show_group {
            assert(acc + p2 =~= acc);
        }
        acc = acc + p2;
        assert(v@ == base + acc);
    }
    let ghost p3: Seq<char> = if show_author {
        seq![' '] + spec_pad_right(owner@, owner_width as nat)
    } else {
        Seq::empty()
    };
    if show_author {
        let ghost m0 = v@;
        v.push(' ');
        push_pad_right(v, owner, owner_width);
        proof {
            assert(v@ =~= m0 + p3);
        }
    }
    proof {
        lemma_assoc_step(base, acc, p3);
        if !show_author {
            assert(acc + p3 =~= acc);
        }
        acc = acc + p3;
        assert(v@ == base + acc);
    }
    v.push(' ');
    proof {
        let sp: Seq<char> = seq![' '];
        assert(v@ =~= (base + acc) + sp);
        lemma_assoc_step(base, acc, sp);
        acc = acc + sp;
        assert(v@ == base + acc);
    }
    let sz = format_size(entry.size, human_readable, si);
    let szc = str_to_chars(sz.as_str());
    push_pad_left(v, &szc, size_width);
    proof {
        let p4 = spec_pad_left(spec_format_size(entry.size, human_readable, si),
            size_width as nat);
        lemma_assoc_step(base, acc, p4);
        acc = acc + p4;
        assert(v@ == base + acc);
    }
    v.push(' ');
    proof {
        let sp: Seq<char> = seq![' '];
        assert(v@ =~= (base + acc) + sp);
        lemma_assoc_step(base, acc, sp);
        acc = acc + sp;
        assert(v@ == base + acc);
    }
    push_str_chars(v, time_str);
    proof {
        lemma_assoc_step(base, acc, time_str@);
        acc = acc + time_str@;
        assert(v@ == base + acc);
    }
    v.push(' ');
    proof {
        let sp: Seq<char> = seq![' '];
        assert(v@ =~= (base + acc) + sp);
        lemma_assoc_step(base, acc, sp);
        acc = acc + sp;
        assert(v@ == base + acc);
    }
    let cname = colorize_filename(entry, use_color);
    push_str_chars(v, cname.as_str());
    proof {
        let p5 = spec_colorize_filename(*entry, use_color);
        lemma_assoc_step(base, acc, p5);
        acc = acc + p5;
        assert(v@ == base + acc);
    }
    let ghost p6: Seq<char> = if entry.is_symlink && entry.symlink_target is Some {
        " -> "@ + (if use_color {
            spec_color_wrap("36"@, entry.symlink_target->0@)
        } else {
            entry.symlink_target->0@
        })
    } else {
        Seq::empty()
    };
    if entry.is_symlink {
        if let Some(target) = &entry.symlink_target {
            let ghost m0 = v@;
            push_str_chars(v, " -> ");
            if use_color {
                let tc = str_to_chars(target.as_str());
                push_color_wrap(v, "36", &tc);
            } else {
                push_str_chars(v, target.as_str());
            }
            proof {
                assert(v@ =~= m0 + p6);
            }
        }
    }
    proof {
        lemma_assoc_step(base, acc, p6);
        if !(entry.is_symlink && entry.symlink_target is Some) {
            assert(acc + p6 =~= acc);
        }
        acc = acc + p6;
        assert(v@ == base + acc);
        assert(acc == spec_long_right(*entry, show_owner, show_group, show_author,
            human_readable, si, use_color, owner@, group@, time_str@, owner_width as nat,
            group_width as nat, size_width as nat));
    }
}

/// Format a long-listing line for a single entry. The timestamp text is
/// handed in already rendered; owner and group names go through the caches,
/// which keep what they held and record what was looked up.
pub fn format_long_entry(entry: &FileEntry, icon_str: &str, show_icons: bool, show_owner: bool,
    show_group: bool, show_inode: bool, show_blocks: bool, show_author: bool,
    human_readable: bool, si: bool, numeric_ids: bool, use_color: bool, time_str: &str,
    user_cache: &mut HashMap<u32, String>, group_cache: &mut HashMap<u32, String>,
    nlink_width: usize, owner_width: usize, group_width: usize, size_width: usize,
    inode_width: usize, blocks_width: usize) -> (r: String)
    ensures
        r@ == spec_long_line(*entry, icon_str@, show_icons, show_owner, show_group, show_inode,
            show_blocks, show_author, human_readable, si, use_color, spec_owner_name(*entry,
            numeric_ids, final(user_cache)@), spec_group_name(*entry, numeric_ids,
            final(group_cache)@), time_str@, nlink_width as nat, owner_width as nat,
            group_width as nat, size_width as nat, inode_width as nat, blocks_width as nat),
        forall|k: u32| #[trigger] old(user_cache)@.contains_key(k) ==> final(user_cache)@.contains_key(k) && final(user_cache)@[k] == old(user_cache)@[k],
        forall|k: u32| #[trigger] final(user_cache)@.contains_key(k) ==> old(user_cache)@.contains_key(k) || k == entry.uid,
        forall|k: u32| #[trigger] old(group_cache)@.contains_key(k) ==> final(group_cache)@.contains_key(k) && final(group_cache)@[k] == old(group_cache)@[k],
        forall|k: u32| #[trigger] final(group_cache)@.contains_key(k) ==> old(group_cache)@.contains_key(k) || k == entry.gid,
        (show_owner || show_author) && !numeric_ids ==> final(user_cache)@.contains_key(
            entry.uid,
        ),
        show_group && !numeric_ids ==> final(group_cache)@.contains_key(entry.gid),
{
    let owner_chars: Vec<char> = if numeric_ids {
        let s = u64_to_string(entry.uid as u64);
        str_to_chars(s.as_str())
    } else if show_owner || show_author {
        let s = get_username(entry.uid, user_cache);
        str_to_chars(s.as_str())
    } else {
        Vec::new()
    };
    let group_chars: Vec<char> = if numeric_ids {
        let s = u64_to_string(entry.gid as u64);
        str_to_chars(s.as_str())
    } else if show_group {
        let s = get_groupname(entry.gid, group_cache);
        str_to_chars(s.as_str())
    } else {
        Vec::new()
    };
    let mut v: Vec<char> = Vec::new();
    push_long_left(&mut v, entry, icon_str, show_icons, show_inode, show_blocks, use_color,
        nlink_width, inode_width, blocks_width);
    push_long_right(&mut v, entry, show_owner, show_group, show_author, human_readable, si,
        use_color, &owner_chars, &group_chars, time_str, owner_width, group_width, size_width);
    proof {
        assert(v@ =~= spec_long_line(*entry, icon_str@, show_icons, show_owner, show_group,
            show_inode, show_blocks, show_author, human_readable, si, use_color,
            spec_owner_name(*entry, numeric_ids, user_cache@), spec_group_name(*entry,
            numeric_ids, group_cache@), time_str@, nlink_width as nat, owner_width as nat,
            group_width as nat, size_width as nat, inode_width as nat, blocks_width as nat));
    }
    chars_to_string(&v)
}

} // verus!
