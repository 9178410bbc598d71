//! The layout engine: escape-aware width measurement, the multi-column grid,
//! the one-per-line and comma layouts, and the terminal width.
use vstd::prelude::*;

use crate::foreign::{char_display_width, chars_to_string, query_terminal_width, str_to_chars,
    width_of_char};
use crate::text::spec_spaces;

verus! {

/// What stripping leaves of a suffix, given whether the scan stands inside an
/// escape sequence: the escape introducer starts a dropped stretch that ends
/// at the next `m`, inclusive; an unterminated stretch drops the rest.
pub open spec fn strip_ansi_rec(s: Seq<char>, in_escape: bool) -> Seq<char>
    decreases s.len(),
{
    if s.len() == 0 {
        Seq::empty()
    } else if in_escape {
        if s[0] == 'm' {
            strip_ansi_rec(s.skip(1), false)
        } else {
            strip_ansi_rec(s.skip(1), true)
        }
    } else if s[0] == '\u{1b}' {
        strip_ansi_rec(s.skip(1), true)
    } else {
        seq![s[0]] + strip_ansi_rec(s.skip(1), false)
    }
}

/// The characters that remain visible once ANSI escape sequences are dropped.
pub open spec fn spec_strip_ansi(s: Seq<char>) -> Seq<char> {
    strip_ansi_rec(s, false)
}

fn strip_ansi_chars(v: &Vec<char>) -> (r: Vec<char>)
    ensures
        r@ == spec_strip_ansi(v@),
{
    let mut out: Vec<char> = Vec::new();
    let mut in_escape: bool = false;
    let mut i: usize = 0;
    proof {
        assert(v@.skip(0) == v@);
    }
    while i < v.len()
        invariant
            i <= v.len(),
            spec_strip_ansi(v@) == out@ + strip_ansi_rec(v@.skip(i as int), in_escape),
        decreases v.len() - i,
    {
        let c = v[i];
        proof {
            assert(v@.skip(i as int)[0] == v@[i as int]);
            assert(v@.skip(i as int).skip(1) == v@.skip(i + 1 as int));
        }
        if c == '\u{1b}' && !in_escape {
            in_escape = true;
        } else if in_escape {
            if c == 'm' {
                in_escape = false;
            }
        } else {
            let ghost prior = out@;
            out.push(c);
            proof {
                assert(prior + (seq![c] + strip_ansi_rec(v@.skip(i + 1 as int), false)) =~= out@
                    + strip_ansi_rec(v@.skip(i + 1 as int), false));
            }
        }
        i = i + 1;
    }
    proof {
        assert(v@.skip(v@.len() as int) =~= Seq::<char>::empty());
        assert(out@ + Seq::<char>::empty() =~= out@);
    }
    out
}

/// Strip ANSI escape sequences from a string.
pub fn strip_ansi(s: &str) -> (r: String)
    ensures
        r@ == spec_strip_ansi(s@),
{
    let v = str_to_chars(s);
    let out = strip_ansi_chars(&v);
    chars_to_string(&out)
}

/// The total column width of a run of characters: the sum of each
/// character's width.
pub open spec fn spec_width(s: Seq<char>) -> nat
    decreases s.len(),
{
    if s.len() == 0 {
        0
    } else {
        spec_width(s.drop_last()) + char_display_width(s.last())
    }
}

/// A count capped at the largest machine word, the saturation the layout
/// arithmetic uses.
pub open spec fn sat_usize(n: nat) -> nat {
    if n > usize::MAX {
        usize::MAX as nat
    } else {
        n
    }
}

/// The rendered column width of a string: escape sequences are stripped
/// first, then each remaining character contributes its own width.
pub open spec fn spec_display_width(s: Seq<char>) -> nat {
    sat_usize(spec_width(spec_strip_ansi(s)))
}

fn width_of_chars(v: &Vec<char>) -> (w: usize)
    ensures
        w as nat == sat_usize(spec_width(v@)),
{
    let mut w: usize = 0;
    let mut i: usize = 0;
    proof {
        assert(v@.take(0) =~= Seq::<char>::empty());
    }
    while i < v.len()
        invariant
            i <= v.len(),
            w as nat == sat_usize(spec_width(v@.take(i as int))),
        decreases v.len() - i,
    {
        let cw = width_of_char(v[i]);
        proof {
            assert(v@.take(i + 1 as int).drop_last() =~= v@.take(i as int));
            assert(v@.take(i + 1 as int).last() == v@[i as int]);
        }
        if w > usize::MAX - cw {
            w = usize::MAX;
        } else {
            w = w + cw;
        }
        i = i + 1;
    }
    proof {
        assert(v@.take(v@.len() as int) == v@);
    }
    w
}

/// Calculate the display width of a string, ignoring ANSI escape sequences.
pub fn display_width(s: &str) -> (w: usize)
    ensures
        w as nat == spec_display_width(s@),
{
    let v = str_to_chars(s);
    let stripped = strip_ansi_chars(&v);
    width_of_chars(&stripped)
}

/// One line per item, each followed by the terminator character.
pub open spec fn spec_single_column(items: Seq<Seq<char>>, terminator: char) -> Seq<char>
    decreases items.len(),
{
    if items.len() == 0 {
        Seq::empty()
    } else {
        spec_single_column(items.drop_last(), terminator) + items.last().push(terminator)
    }
}

/// Format entries one per line (or NUL-terminated when asked).
pub fn format_single_column(items: &Vec<String>, terminator: char) -> (r: String)
    ensures
        r@ == spec_single_column(items@.map_values(|s: String| s@), terminator),
{
    let ghost views = items@.map_values(|s: String| s@);
    let mut out: Vec<char> = Vec::new();
    let mut i: usize = 0;
    proof {
        assert(views.take(0) =~= Seq::<Seq<char>>::empty());
        assert(out@ =~= spec_single_column(views.take(0), terminator));
    }
    while i < items.len()
        invariant
            i <= items.len(),
            views == items@.map_values(|s: String| s@),
            out@ == spec_single_column(views.take(i as int), terminator),
        decreases items.len() - i,
    {
        let cs = str_to_chars(items[i].as_str());
        let mut j: usize = 0;
        while j < cs.len()
            invariant
                j <= cs.len(),
                cs@ == views[i as int],
                i < items.len(),
                views == items@.map_values(|s: String| s@),
                out@ == spec_single_column(views.take(i as int), terminator) + cs@.take(
                    j as int,
                ),
            decreases cs.len() - j,
        {
            out.push(cs[j]);
            proof {
                assert(cs@.take(j + 1 as int) =~= cs@.take(j as int).push(cs@[j as int]));
            }
            j = j + 1;
        }
        out.push(terminator);
        proof {
            assert(cs@.take(cs@.len() as int) == cs@);
            assert(views.take(i + 1 as int).drop_last() =~= views.take(i as int));
            assert(views.take(i + 1 as int).last() == views[i as int]);
            assert(out@ =~= spec_single_column(views.take(i as int), terminator)
                + views[i as int].push(terminator));
        }
        i = i + 1;
    }
    proof {
        assert(views.take(views.len() as int) == views);
    }
    chars_to_string(&out)
}

/// The width of one item as the layout measures it.
pub open spec fn spec_item_width(s: Seq<char>) -> nat {
    spec_display_width(s)
}

/// The comma layout from item `i` on, with `line_len` columns already used on
/// the current line: items joined by a comma and space, wrapping before any
/// item that would not fit.
pub open spec fn spec_comma_rec(
    items: Seq<Seq<char>>,
    i: int,
    line_len: nat,
    term_width: nat,
) -> Seq<char>
    decreases items.len() - i,
{
    if i < 0 || i >= items.len() {
        Seq::empty()
    } else {
        let sep: Seq<char> = if i < items.len() - 1 {
            ", "@
        } else {
            Seq::empty()
        };
        let needed = sat_usize(spec_item_width(items[i]) + sep.len());
        if line_len > 0 && sat_usize(line_len + needed) > term_width {
            seq!['\n'] + items[i] + sep + spec_comma_rec(items, i + 1, needed, term_width)
        } else {
            items[i] + sep + spec_comma_rec(items, i + 1, sat_usize(line_len + needed),
                term_width)
        }
    }
}

/// The comma layout of a whole list: empty for no items, and otherwise ending
/// with exactly one final newline unless the text already ends with one.
pub open spec fn spec_format_comma(items: Seq<Seq<char>>, term_width: nat) -> Seq<char> {
    if items.len() == 0 {
        Seq::empty()
    } else {
        let body = spec_comma_rec(items, 0, 0, term_width);
        if body.len() > 0 && body.last() == '\n' {
            body
        } else {
            body.push('\n')
        }
    }
}

/// Format entries as a comma separated list that wraps at the terminal width.
pub fn format_comma(items: &Vec<String>, term_width: usize) -> (r: String)
    ensures
        r@ == spec_format_comma(items@.map_values(|s: String| s@), term_width as nat),
{
    let ghost views = items@.map_values(|s: String| s@);
    if items.len() == 0 {
        return String::new();
    }
    let mut out: Vec<char> = Vec::new();
    let mut line_len: usize = 0;
    let mut i: usize = 0;
    while i < items.len()
        invariant
            i <= items.len(),
            items@.len() > 0,
            views == items@.map_values(|s: String| s@),
            spec_comma_rec(views, 0, 0, term_width as nat) == out@ + spec_comma_rec(
                views,
                i as int,
                line_len as nat,
                term_width as nat,
            ),
        decreases items.len() - i,
    {
        let ghost base = out@;
        let ghost w = term_width as nat;
        let cs = str_to_chars(items[i].as_str());
        let stripped = strip_ansi_chars(&cs);
        let d_len = width_of_chars(&stripped);
        let last = i == items.len() - 1;
        let sep_len: usize = if last {
            0
        } else {
            2
        };
        let needed: usize = if d_len > usize::MAX - sep_len {
            usize::MAX
        } else {
            d_len + sep_len
        };
        let total: usize = if line_len > usize::MAX - needed {
            usize::MAX
        } else {
            line_len + needed
        };
        let wraps = line_len > 0 && total > term_width;
        let ghost sep: Seq<char> = if i < views.len() - 1 {
            ", "@
        } else {
            Seq::<char>::empty()
        };
        proof {
            reveal_strlit(", ");
            assert(cs@ == views[i as int]);
            assert(needed as nat == sat_usize(spec_item_width(views[i as int]) + sep.len()));
            assert(total as nat == sat_usize(line_len as nat + needed as nat));
        }
        if wraps {
            out.push('\n');
        }
        let ghost mark = out@;
        let mut j: usize = 0;
        while j < cs.len()
            invariant
                j <= cs.len(),
                out@ == mark + cs@.take(j as int),
            decreases cs.len() - j,
        {
            out.push(cs[j]);
            proof {
                assert(cs@.take(j + 1 as int) =~= cs@.take(j as int).push(cs@[j as int]));
            }
            j = j + 1;
        }
        proof {
            assert(cs@.take(cs@.len() as int) == cs@);
        }
        if !last {
            out.push(',');
            out.push(' ');
        }
        let new_line_len: usize = if wraps {
            needed
        } else {
            total
        };
        proof {
            assert(out@ =~= mark + cs@ + sep);
            if wraps {
                assert(mark =~= base + seq!['\n']);
                assert(out@ =~= base + (seq!['\n'] + views[i as int] + sep));
            } else {
                assert(out@ =~= base + (views[i as int] + sep));
            }
            assert(spec_comma_rec(views, 0, 0, w) == out@ + spec_comma_rec(views, i + 1,
                new_line_len as nat, w));
        }
        line_len = new_line_len;
        i = i + 1;
    }
    proof {
        assert(spec_comma_rec(views, items@.len() as int, line_len as nat, term_width as nat)
            =~= Seq::<char>::empty());
        assert(out@ =~= spec_comma_rec(views, 0, 0, term_width as nat));
    }
    if out.len() == 0 || out[out.len() - 1] != '\n' {
        out.push('\n');
    }
    chars_to_string(&out)
}

/// The width used when neither an override nor a terminal answer is given.
pub open spec fn spec_default_width() -> nat {
    80
}

/// The width to use for a terminal answer: the answer itself, or 80 columns
/// when no terminal is attached.
pub fn terminal_width_or_default(q: Option<u16>) -> (r: usize)
    ensures
        q matches Some(w) ==> r == w as usize,
        q is None ==> r == spec_default_width(),
{
    match q {
        Some(w) => w as usize,
        None => 80,
    }
}

/// Get the terminal width: the override when one was given, else the attached
/// terminal's width, else 80 columns.
pub fn get_terminal_width(override_width: Option<usize>) -> (r: usize)
    ensures
        override_width matches Some(w) ==> r == w,
{
    match override_width {
        Some(w) => w,
        None => terminal_width_or_default(query_terminal_width()),
    }
}

} // verus!

verus! {

/// Largest display width among the items.
pub open spec fn spec_max_width(items: Seq<Seq<char>>) -> nat
    decreases items.len(),
{
    if items.len() == 0 {
        0
    } else {
        let rest = spec_max_width(items.drop_last());
        let lw = spec_item_width(items.last());
        if lw > rest {
            lw
        } else {
            rest
        }
    }
}

/// The column width: the largest item width rounded up to the next tab stop,
/// with a full extra tab when it already falls on one, capped at the machine
/// word.
pub open spec fn spec_col_width(max_len: nat, tabsize: nat) -> nat
    recommends
        tabsize > 0,
{
    if max_len == 0 {
        tabsize
    } else {
        let w = ((max_len + tabsize - 1) / (tabsize as int)) * tabsize;
        if w <= max_len {
            sat_usize(max_len + tabsize)
        } else {
            sat_usize(w as nat)
        }
    }
}

/// Number of grid columns: how many column widths fit the terminal, and at
/// least one.
pub open spec fn spec_cols(term_width: nat, col_width: nat) -> nat
    recommends
        col_width > 0,
{
    let c = (term_width as int) / (col_width as int);
    if c == 0 {
        1
    } else {
        c as nat
    }
}

/// Number of grid rows: the item count divided by the columns, rounded up.
pub open spec fn spec_rows(len: nat, cols: nat) -> nat
    recommends
        cols > 0,
{
    ((len as int) / (cols as int) + if (len as int) % (cols as int) == 0 {
        0int
    } else {
        1int
    }) as nat
}

/// Which item lands in row `i`, column `j`: row-major fills rows first, the
/// default fills each column top to bottom.
pub open spec fn spec_grid_index(i: int, j: int, cols: nat, rows: nat, by_rows: bool) -> int {
    if by_rows {
        i * cols + j
    } else {
        i + j * rows
    }
}

/// Whether another item follows in the same row, so padding is owed.
pub open spec fn spec_has_next(
    idx: int,
    j: int,
    len: nat,
    cols: nat,
    rows: nat,
    by_rows: bool,
) -> bool {
    j != cols - 1 && (if by_rows {
        idx + 1 < len
    } else {
        idx + rows < len
    })
}

/// Spaces after an item: up to the next tab stop relative to the column
/// width, or one full tab when the item already fills its column exactly.
pub open spec fn spec_padding(d_len: nat, col_width: nat, tabsize: nat) -> nat
    recommends
        col_width > 0,
{
    let offset = (d_len as int) % (col_width as int);
    if offset == 0 {
        tabsize
    } else {
        (col_width - offset) as nat
    }
}

/// One grid row's text up to column `j`, newline not included.
pub open spec fn spec_grid_row_prefix(
    items: Seq<Seq<char>>,
    i: int,
    j: int,
    cols: nat,
    rows: nat,
    by_rows: bool,
    col_width: nat,
    tabsize: nat,
) -> Seq<char>
    decreases j,
{
    if j <= 0 {
        Seq::empty()
    } else {
        let prev = spec_grid_row_prefix(items, i, j - 1, cols, rows, by_rows, col_width,
            tabsize);
        let idx = spec_grid_index(i, j - 1, cols, rows, by_rows);
        if 0 <= idx < items.len() {
            if spec_has_next(idx, j - 1, items.len(), cols, rows, by_rows) {
                prev + items[idx] + spec_spaces(spec_padding(spec_item_width(items[idx]),
                    col_width, tabsize))
            } else {
                prev + items[idx]
            }
        } else {
            prev
        }
    }
}

/// One full grid row, ending in its newline.
pub open spec fn spec_grid_row(
    items: Seq<Seq<char>>,
    i: int,
    cols: nat,
    rows: nat,
    by_rows: bool,
    col_width: nat,
    tabsize: nat,
) -> Seq<char> {
    spec_grid_row_prefix(items, i, cols as int, cols, rows, by_rows, col_width, tabsize).push(
        '\n',
    )
}

/// The first `i` grid rows.
pub open spec fn spec_grid_rows(
    items: Seq<Seq<char>>,
    i: int,
    cols: nat,
    rows: nat,
    by_rows: bool,
    col_width: nat,
    tabsize: nat,
) -> Seq<char>
    decreases i,
{
    if i <= 0 {
        Seq::empty()
    } else {
        spec_grid_rows(items, i - 1, cols, rows, by_rows, col_width, tabsize)
            + spec_grid_row(items, i - 1, cols, rows, by_rows, col_width, tabsize)
    }
}

/// The whole grid: empty input gives empty output; otherwise the items laid
/// out over the computed rows and columns.
pub open spec fn spec_format_grid(
    items: Seq<Seq<char>>,
    term_width: nat,
    tabsize0: nat,
    by_rows: bool,
) -> Seq<char> {
    if items.len() == 0 {
        Seq::empty()
    } else {
        let tabsize = if tabsize0 == 0 {
            8nat
        } else {
            tabsize0
        };
        let max_len = spec_max_width(items);
        let col_width = spec_col_width(max_len, tabsize);
        let cols = spec_cols(term_width, col_width);
        let rows = spec_rows(items.len(), cols);
        spec_grid_rows(items, rows as int, cols, rows, by_rows, col_width, tabsize)
    }
}

fn append_chars(out: &mut Vec<char>, cv: &Vec<char>)
    ensures
        final(out)@ == old(out)@ + cv@,
{
    let mut j: usize = 0;
    while j < cv.len()
        invariant
            j <= cv.len(),
            out@ == old(out)@ + cv@.take(j as int),
        decreases cv.len() - j,
    {
        out.push(cv[j]);
        proof {
            assert(cv@.take(j + 1 as int) =~= cv@.take(j as int).push(cv@[j as int]));
        }
        j = j + 1;
    }
    proof {
        assert(cv@.take(cv@.len() as int) == cv@);
        assert(out@ =~= old(out)@ + cv@);
    }
}

/// Lay out pre-rendered (possibly colored) items in a grid that fits the
/// terminal width, filling rows first or columns first.
pub fn format_grid(items: &Vec<String>, term_width: usize, tabsize: usize, by_rows: bool) -> (r:
    String)
    ensures
        r@ == spec_format_grid(items@.map_values(|s: String| s@), term_width as nat,
            tabsize as nat, by_rows),
{
    let ghost views = items@.map_values(|s: String| s@);
    if items.len() == 0 {
        return String::new();
    }
    let tabsize: usize = if tabsize == 0 {
        8
    } else {
        tabsize
    };
    let len = items.len();

    // Convert every item once and measure it.
    let mut charvecs: Vec<Vec<char>> = Vec::new();
    let mut widths: Vec<usize> = Vec::new();
    let mut max_len: usize = 0;
    let mut t: usize = 0;
    proof {
        assert(views.take(0) =~= Seq::<Seq<char>>::empty());
    }
    while t < len
        invariant
            t <= len,
            len == items@.len(),
            views == items@.map_values(|s: String| s@),
            charvecs@.len() == t,
            widths@.len() == t,
            forall|u: int| 0 <= u < t ==> #[trigger] charvecs@[u]@ == views[u],
            forall|u: int| 0 <= u < t ==> #[trigger] widths@[u] as nat == spec_item_width(
                views[u],
            ),
            max_len as nat == spec_max_width(views.take(t as int)),
        decreases len - t,
    {
        let cv = str_to_chars(items[t].as_str());
        let stripped = strip_ansi_chars(&cv);
        let w = width_of_chars(&stripped);
        if w > max_len {
            max_len = w;
        }
        proof {
            assert(views.take(t + 1 as int).drop_last() =~= views.take(t as int));
            assert(views.take(t + 1 as int).last() == views[t as int]);
        }
        charvecs.push(cv);
        widths.push(w);
        t = t + 1;
    }
    proof {
        assert(views.take(views.len() as int) == views);
    }

    // Column width, clamped at the machine word; the exact value never
    // reaches the clamp for real strings.
    let t128: u128 = tabsize as u128;
    let m128: u128 = max_len as u128;
    let cw128: u128 = if max_len == 0 {
        t128
    } else {
        proof {
            assert(((m128 + t128 - 1) as int) / (t128 as int) * (t128 as int) <= m128 + t128
                - 1) by (nonlinear_arith)
                requires
                    t128 > 0,
                    m128 >= 1,
            ;
        }
        let w = ((m128 + t128 - 1) / t128) * t128;
        if w <= m128 {
            m128 + t128
        } else {
            w
        }
    };
    let col_width: usize = if cw128 > usize::MAX as u128 {
        usize::MAX
    } else {
        cw128 as usize
    };
    let ghost g_tab = tabsize as nat;
    proof {
        assert(col_width as nat == spec_col_width(max_len as nat, g_tab));
        assert(col_width >= 1);
    }

    let cols: usize = {
        let c = term_width / col_width;
        if c == 0 {
            1
        } else {
            c
        }
    };
    proof {
        assert(cols as nat == spec_cols(term_width as nat, col_width as nat));
        assert(cols >= 1);
    }
    let rows: usize = {
        let q = len / cols;
        if len % cols == 0 {
            q
        } else {
            proof {
                assert(len / cols < len) by (nonlinear_arith)
                    requires
                        cols >= 1,
                        len % cols != 0,
                        len > 0,
                ;
            }
            q + 1
        }
    };
    let ghost g_cols = cols as nat;
    let ghost g_rows = rows as nat;
    let ghost g_cw = col_width as nat;
    proof {
        assert(rows as nat == spec_rows(len as nat, g_cols));
    }

    let mut out: Vec<char> = Vec::new();
    let mut i: usize = 0;
    while i < rows
        invariant
            i <= rows,
            len == items@.len(),
            len > 0,
            cols >= 1,
            col_width >= 1,
            views == items@.map_values(|s: String| s@),
            charvecs@.len() == len,
            widths@.len() == len,
            forall|u: int| 0 <= u < len ==> #[trigger] charvecs@[u]@ == views[u],
            forall|u: int| 0 <= u < len ==> #[trigger] widths@[u] as nat == spec_item_width(
                views[u],
            ),
            g_cols == cols as nat,
            g_rows == rows as nat,
            g_cw == col_width as nat,
            g_tab == tabsize as nat,
            out@ == spec_grid_rows(views, i as int, g_cols, g_rows, by_rows, g_cw, g_tab),
        decreases rows - i,
    {
        let mut j: usize = 0;
        let ghost row_base = out@;
        while j < cols
            invariant
                j <= cols,
                i < rows,
                len == items@.len(),
                len > 0,
                cols >= 1,
                col_width >= 1,
                views == items@.map_values(|s: String| s@),
                charvecs@.len() == len,
                widths@.len() == len,
                forall|u: int| 0 <= u < len ==> #[trigger] charvecs@[u]@ == views[u],
                forall|u: int| 0 <= u < len ==> #[trigger] widths@[u] as nat
                    == spec_item_width(views[u]),
                g_cols == cols as nat,
                g_rows == rows as nat,
                g_cw == col_width as nat,
                g_tab == tabsize as nat,
                row_base == spec_grid_rows(views, i as int, g_cols, g_rows, by_rows, g_cw,
                    g_tab),
                out@ == row_base + spec_grid_row_prefix(views, i as int, j as int, g_cols,
                    g_rows, by_rows, g_cw, g_tab),
            decreases cols - j,
        {
            proof {
                assert((i as u128 * cols as u128 + j as u128) < u128::MAX) by (nonlinear_arith)
                    requires
                        i as u128 <= 0xffff_ffff_ffff_ffffu128,
                        cols as u128 <= 0xffff_ffff_ffff_ffffu128,
                        j as u128 <= 0xffff_ffff_ffff_ffffu128,
                ;
                assert((i as u128 + j as u128 * rows as u128) < u128::MAX) by (nonlinear_arith)
                    requires
                        i as u128 <= 0xffff_ffff_ffff_ffffu128,
                        rows as u128 <= 0xffff_ffff_ffff_ffffu128,
                        j as u128 <= 0xffff_ffff_ffff_ffffu128,
                ;
            }
            let idx128: u128 = if by_rows {
                i as u128 * cols as u128 + j as u128
            } else {
                i as u128 + j as u128 * rows as u128
            };
            let ghost spec_idx = spec_grid_index(i as int, j as int, g_cols, g_rows, by_rows);
            proof {
                assert(idx128 as int == spec_idx);
            }
            if idx128 < len as u128 {
                let index = idx128 as usize;
                append_chars(&mut out, &charvecs[index]);
                let has_next: bool = if by_rows {
                    j != cols - 1 && index + 1 < len
                } else {
                    j != cols - 1 && (index as u128 + rows as u128) < len as u128
                };
                proof {
                    assert(has_next == spec_has_next(spec_idx, j as int, len as nat, g_cols,
                        g_rows, by_rows));
                }
                if has_next {
                    let d_len = widths[index];
                    let offset = d_len % col_width;
                    let padding: usize = if offset == 0 {
                        tabsize
                    } else {
                        col_width - offset
                    };
                    proof {
                        assert(padding as nat == spec_padding(spec_item_width(
                            views[index as int],
                        ), g_cw, g_tab));
                    }
                    crate::text::push_spaces(&mut out, padding);
                }
            }
            proof {
                assert(out@ == row_base + spec_grid_row_prefix(views, i as int, j + 1 as int,
                    g_cols, g_rows, by_rows, g_cw, g_tab));
            }
            j = j + 1;
        }
        out.push('\n');
        proof {
            assert(out@ == spec_grid_rows(views, i + 1 as int, g_cols, g_rows, by_rows, g_cw,
                g_tab));
        }
        i = i + 1;
    }
    chars_to_string(&out)
}

} // verus!

verus! {

/// The scan state after reading a stretch of text: whether it ends inside an
/// escape sequence.
pub open spec fn ansi_state(s: Seq<char>, in_escape: bool) -> bool
    decreases s.len(),
{
    if s.len() == 0 {
        in_escape
    } else if in_escape {
        ansi_state(s.skip(1), s[0] != 'm')
    } else {
        ansi_state(s.skip(1), s[0] == '\u{1b}')
    }
}

/// Text whose escape sequences are all terminated.
pub open spec fn esc_closed(s: Seq<char>) -> bool {
    !ansi_state(s, false)
}

/// Text free of the raw escape character.
pub open spec fn esc_free(s: Seq<char>) -> bool {
    forall|k: int| 0 <= k < s.len() ==> s[k] != '\u{1b}'
}

/// Escape-free text holds no unterminated escape sequence.
pub proof fn lemma_esc_free_closed(s: Seq<char>)
    requires
        esc_free(s),
    ensures
        esc_closed(s),
{
    lemma_plain_strip(s);
}

/// Closed text followed by closed text is closed.
pub proof fn lemma_esc_closed_append(a: Seq<char>, b: Seq<char>)
    requires
        esc_closed(a),
        esc_closed(b),
    ensures
        esc_closed(a + b),
{
    lemma_strip_append(a, b, false);
}

/// Scanning escape-free text from inside an escape sequence ends outside it
/// exactly when the text holds a closing `m`.
pub proof fn lemma_esc_free_state_from_inside(s: Seq<char>)
    requires
        esc_free(s),
    ensures
        ansi_state(s, true) == !(exists|k: int| 0 <= k < s.len() && s[k] == 'm'),
    decreases s.len(),
{
    if s.len() > 0 {
        assert forall|k: int| 0 <= k < s.skip(1).len() implies s.skip(1)[k] != '\u{1b}' by {
            assert(s.skip(1)[k] == s[k + 1]);
        }
        lemma_esc_free_state_from_inside(s.skip(1));
        if s[0] == 'm' {
            lemma_plain_strip(s.skip(1));
            assert(!ansi_state(s, true));
            assert(s[0] == 'm' && 0 < s.len());
        } else {
            if ansi_state(s, true) {
                assert forall|k: int| 0 <= k < s.len() implies s[k] != 'm' by {
                    if k > 0 {
                        assert(s.skip(1)[k - 1] == s[k]);
                    }
                }
            } else {
                let k0 = choose|k: int| 0 <= k < s.skip(1).len() && s.skip(1)[k] == 'm';
                assert(s[k0 + 1] == 'm');
            }
        }
    }
}

/// Stripping distributes over concatenation, with the scan state carried
/// across the seam.
pub proof fn lemma_strip_append(a: Seq<char>, b: Seq<char>, st: bool)
    ensures
        strip_ansi_rec(a + b, st) == strip_ansi_rec(a, st) + strip_ansi_rec(b, ansi_state(a,
            st)),
        ansi_state(a + b, st) == ansi_state(b, ansi_state(a, st)),
    decreases a.len(),
{
    if a.len() == 0 {
        assert(a + b =~= b);
        assert(strip_ansi_rec(a, st) =~= Seq::<char>::empty());
        assert(Seq::<char>::empty() + strip_ansi_rec(b, st) =~= strip_ansi_rec(b, st));
    } else {
        assert((a + b).skip(1) =~= a.skip(1) + b);
        assert((a + b)[0] == a[0]);
        if st {
            lemma_strip_append(a.skip(1), b, a[0] != 'm');
        } else if a[0] == '\u{1b}' {
            lemma_strip_append(a.skip(1), b, true);
        } else {
            lemma_strip_append(a.skip(1), b, false);
            assert(seq![a[0]] + (strip_ansi_rec(a.skip(1), false) + strip_ansi_rec(b,
                ansi_state(a.skip(1), false))) =~= (seq![a[0]] + strip_ansi_rec(a.skip(1),
                false)) + strip_ansi_rec(b, ansi_state(a.skip(1), false)));
        }
    }
}

/// Text without the escape introducer is left whole by stripping.
pub proof fn lemma_plain_strip(s: Seq<char>)
    requires
        forall|k: int| 0 <= k < s.len() ==> s[k] != '\u{1b}',
    ensures
        strip_ansi_rec(s, false) == s,
        ansi_state(s, false) == false,
    decreases s.len(),
{
    if s.len() > 0 {
        assert forall|k: int| 0 <= k < s.skip(1).len() implies s.skip(1)[k] != '\u{1b}' by {
            assert(s.skip(1)[k] == s[k + 1]);
        }
        lemma_plain_strip(s.skip(1));
        assert(seq![s[0]] + s.skip(1) =~= s);
    }
}

/// A run of spaces is all spaces.
pub proof fn lemma_spaces_plain(n: nat)
    ensures
        forall|k: int| 0 <= k < spec_spaces(n).len() ==> spec_spaces(n)[k] == ' ',
        spec_spaces(n).len() == n,
    decreases n,
{
    if n > 0 {
        lemma_spaces_plain((n - 1) as nat);
    }
}

/// A run of spaces is n columns wide.
pub proof fn lemma_spaces_width(n: nat)
    ensures
        spec_width(spec_spaces(n)) == n,
    decreases n,
{
    if n > 0 {
        lemma_spaces_width((n - 1) as nat);
        assert(spec_spaces(n).drop_last() =~= spec_spaces((n - 1) as nat));
    }
}

/// Widths add over concatenation.
pub proof fn lemma_width_append(a: Seq<char>, b: Seq<char>)
    ensures
        spec_width(a + b) == spec_width(a) + spec_width(b),
    decreases b.len(),
{
    if b.len() == 0 {
        assert(a + b =~= a);
    } else {
        assert((a + b).drop_last() =~= a + b.drop_last());
        assert((a + b).last() == b.last());
        lemma_width_append(a, b.drop_last());
    }
}

/// A whole ANSI escape sequence: the introducer, a body free of `m`, and the
/// closing `m`.
pub open spec fn is_escape_seq(e: Seq<char>) -> bool {
    &&& e.len() >= 2
    &&& e[0] == '\u{1b}'
    &&& e.last() == 'm'
    &&& forall|k: int| 1 <= k < e.len() - 1 ==> e[k] != 'm'
}

proof fn lemma_escape_tail(t: Seq<char>, rest: Seq<char>)
    requires
        t.len() >= 1,
        t.last() == 'm',
        forall|k: int| 0 <= k < t.len() - 1 ==> t[k] != 'm',
    ensures
        strip_ansi_rec(t + rest, true) == strip_ansi_rec(rest, false),
        ansi_state(t + rest, true) == ansi_state(rest, false),
    decreases t.len(),
{
    assert((t + rest).skip(1) =~= t.skip(1) + rest);
    assert((t + rest)[0] == t[0]);
    if t.len() == 1 {
        assert(t[0] == 'm');
        assert(t.skip(1) + rest =~= rest);
    } else {
        assert(t[0] != 'm');
        assert(t.skip(1).last() == t.last());
        assert forall|k: int| 0 <= k < t.skip(1).len() - 1 implies t.skip(1)[k] != 'm' by {
            assert(t.skip(1)[k] == t[k + 1]);
        }
        lemma_escape_tail(t.skip(1), rest);
    }
}

/// An embedded ANSI escape sequence adds nothing to what remains after
/// stripping, and so nothing to the display width: the text around it
/// measures the same with it and without it.
pub proof fn lemma_display_width_ignores_escapes(s1: Seq<char>, e: Seq<char>, s2: Seq<char>)
    requires
        is_escape_seq(e),
        esc_closed(s1),
    ensures
        spec_strip_ansi(s1 + e + s2) == spec_strip_ansi(s1 + s2),
        spec_display_width(s1 + e + s2) == spec_display_width(s1 + s2),
{
    assert(s1 + e + s2 =~= s1 + (e + s2));
    lemma_strip_append(s1, e + s2, false);
    lemma_strip_append(s1, s2, false);
    assert((e + s2)[0] == '\u{1b}');
    assert((e + s2).skip(1) =~= e.skip(1) + s2);
    assert(e.skip(1).last() == e.last());
    assert forall|k: int| 0 <= k < e.skip(1).len() - 1 implies e.skip(1)[k] != 'm' by {
        assert(e.skip(1)[k] == e[k + 1]);
    }
    lemma_escape_tail(e.skip(1), s2);
    assert(strip_ansi_rec(e + s2, false) == strip_ansi_rec(s2, false));
}

} // verus!

verus! {

/// Every item has a grid cell: for each index there are a row and column,
/// within the computed bounds, whose fill-order position is that index.
pub proof fn lemma_grid_covers(len: nat, cols: nat, rows: nat, by_rows: bool, k: int)
    requires
        cols >= 1,
        rows == spec_rows(len, cols),
        0 <= k < len,
    ensures
        exists|i: int, j: int|
            0 <= i < rows && 0 <= j < cols && spec_grid_index(i, j, cols, rows, by_rows) == k,
{
    assert(len <= rows * cols) by (nonlinear_arith)
        requires
            cols >= 1,
            rows == (len as int) / (cols as int) + (if (len as int) % (cols as int) == 0 {
                0int
            } else {
                1int
            }),
            len >= 1,
    ;
    if by_rows {
        let i = k / (cols as int);
        let j = k % (cols as int);
        assert(0 <= i && 0 <= j < cols && i * cols + j == k && i < rows) by (nonlinear_arith)
            requires
                cols >= 1,
                0 <= k < len,
                len <= rows * cols,
                i == k / (cols as int),
                j == k % (cols as int),
        ;
        assert(spec_grid_index(i, j, cols, rows, by_rows) == k);
    } else {
        if rows == 0 {
            assert(len == 0) by (nonlinear_arith)
                requires
                    len <= rows * cols,
                    rows == 0,
            ;
        }
        let i = k % (rows as int);
        let j = k / (rows as int);
        assert(0 <= i < rows && 0 <= j && i + j * rows == k && j < cols) by (nonlinear_arith)
            requires
                rows >= 1,
                0 <= k < len,
                len <= rows * cols,
                i == k % (rows as int),
                j == k / (rows as int),
        ;
        assert(spec_grid_index(i, j, cols, rows, by_rows) == k);
    }
}

/// No item has two grid cells: two in-bounds positions with the same
/// fill-order index are the same position.
pub proof fn lemma_grid_injective(
    len: nat,
    cols: nat,
    rows: nat,
    by_rows: bool,
    i1: int,
    j1: int,
    i2: int,
    j2: int,
)
    requires
        cols >= 1,
        rows >= 1,
        0 <= i1 < rows,
        0 <= j1 < cols,
        0 <= i2 < rows,
        0 <= j2 < cols,
        spec_grid_index(i1, j1, cols, rows, by_rows) == spec_grid_index(i2, j2, cols, rows,
            by_rows),
    ensures
        i1 == i2 && j1 == j2,
{
    if by_rows {
        assert(i1 == i2 && j1 == j2) by (nonlinear_arith)
            requires
                cols >= 1,
                0 <= j1 < cols,
                0 <= j2 < cols,
                0 <= i1,
                0 <= i2,
                i1 * cols + j1 == i2 * cols + j2,
        ;
    } else {
        assert(i1 == i2 && j1 == j2) by (nonlinear_arith)
            requires
                rows >= 1,
                0 <= i1 < rows,
                0 <= i2 < rows,
                0 <= j1,
                0 <= j2,
                i1 + j1 * rows == i2 + j2 * rows,
        ;
    }
}

/// No item is wider than the widest.
pub proof fn lemma_max_width_ge(items: Seq<Seq<char>>, u: int)
    requires
        0 <= u < items.len(),
    ensures
        spec_item_width(items[u]) <= spec_max_width(items),
    decreases items.len(),
{
    if u == items.len() - 1 {
    } else {
        assert(items.drop_last()[u] == items[u]);
        lemma_max_width_ge(items.drop_last(), u);
    }
}

/// The visible width of one grid cell never exceeds the column width, as
/// long as no item is wider than its column and escape sequences in items
/// are closed.
proof fn lemma_cell_width(item: Seq<char>, col_width: nat, tabsize: nat, has_next: bool)
    requires
        esc_closed(item),
        spec_width(spec_strip_ansi(item)) <= usize::MAX,
        spec_width(spec_strip_ansi(item)) < col_width,
        tabsize >= 1,
        tabsize <= col_width,
    ensures
        ({
            let cell = if has_next {
                item + spec_spaces(spec_padding(spec_item_width(item), col_width, tabsize))
            } else {
                item
            };
            &&& spec_width(strip_ansi_rec(cell, false)) <= col_width
            &&& ansi_state(cell, false) == false
        }),
{
    let w = spec_width(spec_strip_ansi(item));
    assert(spec_item_width(item) == w);
    if has_next {
        let pad = spec_padding(w, col_width, tabsize);
        let sp = spec_spaces(pad);
        lemma_strip_append(item, sp, false);
        lemma_spaces_plain(pad);
        assert forall|k: int| 0 <= k < sp.len() implies sp[k] != '\u{1b}' by {}
        lemma_plain_strip(sp);
        lemma_width_append(spec_strip_ansi(item), sp);
        lemma_spaces_width(pad);
        if (w as int) % (col_width as int) == 0 {
            assert(pad == tabsize);
            if w > 0 {
                assert((w as int) % (col_width as int) == w) by (nonlinear_arith)
                    requires
                        0 < w < col_width,
                ;
            }
            assert(w == 0);
            assert(w + pad <= col_width);
        } else {
            assert((w as int) % (col_width as int) == w) by (nonlinear_arith)
                requires
                    0 <= w < col_width,
            ;
            assert(pad == col_width - w);
        }
    }
}

/// The visible width of one grid line: at most the terminal width, unless a
/// single item alone is wider than the terminal, in which case at most the
/// widest item. Items must carry only closed escape sequences, and the
/// layout's widths must fit the machine word.
pub proof fn lemma_grid_line_width(
    items: Seq<Seq<char>>,
    term_width: nat,
    tabsize0: nat,
    by_rows: bool,
    i: int,
)
    requires
        items.len() > 0,
        forall|u: int| 0 <= u < items.len() ==> esc_closed(#[trigger] items[u]),
        forall|u: int| 0 <= u < items.len() ==> spec_width(spec_strip_ansi(#[trigger] items[u]))
            <= usize::MAX,
        spec_max_width(items) + (if tabsize0 == 0 {
            8nat
        } else {
            tabsize0
        }) <= usize::MAX,
        term_width <= usize::MAX,
    ensures
        ({
            let tabsize = if tabsize0 == 0 {
                8nat
            } else {
                tabsize0
            };
            let max_len = spec_max_width(items);
            let col_width = spec_col_width(max_len, tabsize);
            let cols = spec_cols(term_width, col_width);
            let rows = spec_rows(items.len(), cols);
            spec_width(spec_strip_ansi(spec_grid_row_prefix(items, i, cols as int, cols, rows,
                by_rows, col_width, tabsize))) <= (if term_width > max_len {
                term_width
            } else {
                max_len
            })
        }),
{
    let tabsize = if tabsize0 == 0 {
        8nat
    } else {
        tabsize0
    };
    let max_len = spec_max_width(items);
    let col_width = spec_col_width(max_len, tabsize);
    let cols = spec_cols(term_width, col_width);
    let rows = spec_rows(items.len(), cols);
    lemma_col_width_bounds(max_len, tabsize);
    assert forall|u: int| 0 <= u < items.len() implies spec_width(spec_strip_ansi(
        #[trigger] items[u],
    )) <= spec_max_width(items) by {
        lemma_max_width_ge(items, u);
    }
    let row = spec_grid_row_prefix(items, i, cols as int, cols, rows, by_rows, col_width,
        tabsize);
    if term_width >= col_width {
        lemma_row_prefix_width(items, i, cols as int, cols, rows, by_rows, col_width,
            tabsize);
        assert((term_width as int) / (col_width as int) >= 1) by (nonlinear_arith)
            requires
                col_width >= 1,
                term_width >= col_width,
        ;
        assert(cols == (term_width as int) / (col_width as int));
        assert(cols * col_width <= term_width) by (nonlinear_arith)
            requires
                col_width >= 1,
                cols == (term_width as int) / (col_width as int),
        ;
        assert(spec_width(spec_strip_ansi(row)) <= cols * col_width);
    } else {
        assert((term_width as int) / (col_width as int) == 0) by (nonlinear_arith)
            requires
                col_width >= 1,
                term_width < col_width,
        ;
        assert(cols == 1);
        let idx = spec_grid_index(i, 0, cols, rows, by_rows);
        let prev = spec_grid_row_prefix(items, i, 0, cols, rows, by_rows, col_width, tabsize);
        assert(prev =~= Seq::<char>::empty());
        if 0 <= idx < items.len() {
            assert(!spec_has_next(idx, 0, items.len(), cols, rows, by_rows));
            assert(row == prev + items[idx]);
            assert(prev + items[idx] =~= items[idx]);
            lemma_max_width_ge(items, idx);
            assert(spec_width(spec_strip_ansi(row)) <= max_len);
        } else {
            assert(row == prev);
            assert(spec_width(Seq::<char>::empty()) == 0);
        }
    }
}

/// The column width is a whole number of tab stops past the widest item, so
/// it exceeds the widest item and is at least one tab wide.
proof fn lemma_col_width_bounds(max_len: nat, tabsize: nat)
    requires
        tabsize >= 1,
        max_len + tabsize <= usize::MAX,
    ensures
        spec_col_width(max_len, tabsize) > max_len,
        spec_col_width(max_len, tabsize) >= tabsize,
        spec_col_width(max_len, tabsize) <= max_len + tabsize,
{
    if max_len == 0 {
    } else {
        let w = ((max_len + tabsize - 1) as int / (tabsize as int)) * (tabsize as int);
        assert(max_len <= w <= max_len + tabsize - 1 && w >= tabsize) by (nonlinear_arith)
            requires
                tabsize >= 1,
                max_len >= 1,
                w == ((max_len + tabsize - 1) as int / (tabsize as int)) * (tabsize as int),
        ;
        if w <= max_len {
            assert(spec_col_width(max_len, tabsize) == sat_usize((max_len + tabsize) as nat));
        } else {
            assert(spec_col_width(max_len, tabsize) == sat_usize(w as nat));
        }
    }
}

/// Every cell of a row prefix stays within the column width, except that the
/// last cell of the row may lack padding and is then at most the widest item;
/// so a prefix of `j` columns is at most `max_len` plus `j - 1` full columns,
/// and also at most `j` full columns.
proof fn lemma_row_prefix_width(
    items: Seq<Seq<char>>,
    i: int,
    j: int,
    cols: nat,
    rows: nat,
    by_rows: bool,
    col_width: nat,
    tabsize: nat,
)
    requires
        items.len() > 0,
        forall|u: int| 0 <= u < items.len() ==> esc_closed(#[trigger] items[u]),
        forall|u: int| 0 <= u < items.len() ==> spec_width(spec_strip_ansi(#[trigger] items[u]))
            <= usize::MAX,
        forall|u: int| 0 <= u < items.len() ==> spec_width(spec_strip_ansi(#[trigger] items[u]))
            <= spec_max_width(items),
        spec_max_width(items) < col_width,
        1 <= tabsize <= col_width,
        j >= 0,
    ensures
        ({
            let row = spec_grid_row_prefix(items, i, j, cols, rows, by_rows, col_width,
                tabsize);
            &&& spec_width(strip_ansi_rec(row, false)) <= j * col_width
            &&& ansi_state(row, false) == false
        }),
    decreases j,
{
    let row = spec_grid_row_prefix(items, i, j, cols, rows, by_rows, col_width, tabsize);
    if j <= 0 {
        assert(strip_ansi_rec(row, false) =~= Seq::<char>::empty());
        assert(spec_width(Seq::<char>::empty()) == 0);
        assert(ansi_state(Seq::<char>::empty(), false) == false);
        assert(j * col_width >= 0) by (nonlinear_arith)
            requires
                j == 0,
        ;
    } else {
        lemma_row_prefix_width(items, i, j - 1, cols, rows, by_rows, col_width, tabsize);
        let prev = spec_grid_row_prefix(items, i, j - 1, cols, rows, by_rows, col_width,
            tabsize);
        let idx = spec_grid_index(i, j - 1, cols, rows, by_rows);
        assert((j - 1) * col_width + col_width == j * col_width) by (nonlinear_arith);
        if 0 <= idx < items.len() {
            let item = items[idx];
            let has_next = spec_has_next(idx, j - 1, items.len(), cols, rows, by_rows);
            let cell = if has_next {
                item + spec_spaces(spec_padding(spec_item_width(item), col_width, tabsize))
            } else {
                item
            };
            lemma_cell_width(item, col_width, tabsize, has_next);
            lemma_strip_append(prev, cell, false);
            lemma_width_append(strip_ansi_rec(prev, false), strip_ansi_rec(cell, false));
            if has_next {
                assert(row == prev + cell);
            } else {
                assert(row == prev + item);
                assert(spec_width(strip_ansi_rec(item, false)) <= spec_max_width(items));
            }
        } else {
            assert(row == prev);
        }
    }
}

} // verus!
