//! Aligned columns of cells: cells are dealt into rows of a computed column
//! count, tab-separated, and `tabwriter` pads every column to its widest
//! cell (elastic tabstops).

use bytes::BytesMut;
use vstd::prelude::*;
use vstd::utf8::encode_utf8;

use crate::text::{buffer_bytes, buffer_extend, push_bytes, push_str};

verus! {

/// The display width that `ansi_width::ansi_width` gives a text: the
/// Unicode widths of its characters, ANSI escape sequences excluded.
pub uninterp spec fn spec_ansi_width(s: Seq<char>) -> usize;

/// `ansi_width::ansi_width`.
#[verifier::external_body]
fn display_width(text: &str) -> (w: usize)
    ensures
        w == spec_ansi_width(text@),
{
    ansi_width::ansi_width(text)
}

/// What a `TabWriter` over a `Vec<u8>`, with minimum column width 0, the
/// given padding and ANSI-aware width counting, hands back for `input` once
/// flushed by `into_inner`; `None` when that flush fails.
pub uninterp spec fn spec_tab_aligned(input: Seq<u8>, padding: usize) -> Option<Seq<u8>>;

/// Runs `input` through a `tabwriter::TabWriter` (`new`, `minwidth(0)`,
/// `padding`, `ansi(true)`, `write_all`, `into_inner`). The flush allocates
/// the widest column plus the padding; a column is at most two display
/// columns per byte of its cells, hence the bound.
#[verifier::external_body]
fn tab_align(input: &[u8], padding: usize) -> (r: Option<Vec<u8>>)
    requires
        2 * input@.len() + padding <= usize::MAX,
    ensures
        match r {
            Some(v) => spec_tab_aligned(input@, padding) == Some(v@),
            None => spec_tab_aligned(input@, padding) is None,
        },
{
    let mut tw = tabwriter::TabWriter::new(Vec::new()).minwidth(0).padding(padding).ansi(true);
    let _ = std::io::Write::write_all(&mut tw, input);
    tw.into_inner().ok()
}

/// The character sequences of a list of strings.
pub open spec fn string_views(v: Seq<String>) -> Seq<Seq<char>> {
    v.map_values(|s: String| s@)
}

/// The display widths of the cells.
pub open spec fn widths_of(cells: Seq<Seq<char>>) -> Seq<int> {
    cells.map_values(|c: Seq<char>| spec_ansi_width(c) as int)
}

/// The sum of a sequence of integers.
pub open spec fn sum_of(w: Seq<int>) -> int
    decreases w.len(),
{
    if w.len() == 0 {
        0
    } else {
        sum_of(w.drop_last()) + w.last()
    }
}

/// A sequence of machine integers as mathematical integers.
pub open spec fn as_ints(v: Seq<usize>) -> Seq<int> {
    v.map_values(|x: usize| x as int)
}

/// The widest cell of each of `cols` columns when the widths `w` are dealt
/// into rows of `cols` cells.
pub open spec fn col_maxes(w: Seq<int>, cols: nat) -> Seq<int>
    decreases w.len(),
{
    if w.len() == 0 {
        Seq::new(cols, |i: int| 0)
    } else {
        let m = col_maxes(w.drop_last(), cols);
        let c = (w.len() - 1) % (cols as int);
        m.update(c, if m[c] >= w.last() { m[c] } else { w.last() })
    }
}

/// The widest row when the cells are laid out in `cols` columns, each as
/// wide as its widest cell and separated by `padding`.
pub open spec fn max_row_width(w: Seq<int>, cols: nat, padding: int) -> int {
    sum_of(col_maxes(w, cols)) + padding * (cols - 1)
}

/// Fewer and fewer columns, from `cols` down, until the widest row fits
/// into `width` or one column is left.
pub open spec fn shrink_cols(w: Seq<int>, cols: nat, padding: int, width: int) -> nat
    decreases cols,
{
    if cols > 1 && max_row_width(w, cols, padding) > width {
        shrink_cols(w, (cols - 1) as nat, padding, width)
    } else {
        cols
    }
}

/// The number of columns for cells of widths `w`: all of them when they fit
/// on one line, else an estimate from the average width, lowered until the
/// widest row fits.
pub open spec fn column_count(w: Seq<int>, width: int, padding: int) -> nat {
    let n = w.len();
    if n <= 1 {
        1
    } else if sum_of(w) + padding * (n - 1) <= width {
        n
    } else {
        let avg = sum_of(w) / (n as int);
        let est = (width + padding) / (avg + padding);
        let clamped: int = if est < 1 { 1 } else if est > n { n as int } else { est };
        shrink_cols(w, clamped as nat, padding, width)
    }
}

/// The estimate from the average width divides by the average width plus
/// the padding: it must not be zero where the estimate is needed.
pub open spec fn columns_defined(w: Seq<int>, width: int, padding: int) -> bool {
    let n = w.len();
    n <= 1 || sum_of(w) + padding * (n - 1) <= width || sum_of(w) / (n as int) + padding > 0
}

/// The tabwriter input: the cells in order, a newline before each cell that
/// starts a row and a tab before each other cell but the first.
pub open spec fn column_input(cells: Seq<Seq<char>>, cols: nat) -> Seq<u8>
    decreases cells.len(),
{
    if cells.len() == 0 {
        Seq::empty()
    } else {
        let k = cells.len() - 1;
        let sep: Seq<u8> = if k == 0 {
            Seq::empty()
        } else if k % (cols as int) == 0 {
            seq![10u8]
        } else {
            seq![9u8]
        };
        column_input(cells.drop_last(), cols) + sep + encode_utf8(cells.last())
    }
}

/// The cells separated by single spaces.
pub open spec fn space_joined(cells: Seq<Seq<char>>) -> Seq<u8>
    decreases cells.len(),
{
    if cells.len() == 0 {
        Seq::empty()
    } else {
        let sep: Seq<u8> = if cells.len() == 1 { Seq::empty() } else { seq![32u8] };
        space_joined(cells.drop_last()) + sep + encode_utf8(cells.last())
    }
}

/// The bytes that the cells take when laid out in columns of at most
/// `width` display columns with `padding` between them: what the tabwriter
/// gives for them, or the cells joined by spaces where it fails or where
/// the input is too large for its padding arithmetic.
pub open spec fn spec_columns(cells: Seq<Seq<char>>, width: int, padding: usize) -> Seq<u8> {
    if cells.len() == 0 {
        Seq::empty()
    } else {
        let input = column_input(cells, column_count(widths_of(cells), width, padding as int));
        if 2 * input.len() + padding <= usize::MAX {
            match spec_tab_aligned(input, padding) {
                Some(v) => v,
                None => space_joined(cells),
            }
        } else {
            space_joined(cells)
        }
    }
}

/// `col_maxes` keeps one entry per column.
proof fn lemma_col_maxes_len(w: Seq<int>, cols: nat)
    requires
        cols > 0,
    ensures
        col_maxes(w, cols).len() == cols,
        forall|i: int| 0 <= i < cols ==> 0 <= #[trigger] col_maxes(w, cols)[i],
        forall|i: int| 0 <= i < cols ==> #[trigger] col_maxes(w, cols)[i] <= usize::MAX || exists|k: int| 0 <= k < w.len() && w[k] > usize::MAX,
    decreases w.len(),
{
    if w.len() > 0 {
        lemma_col_maxes_len(w.drop_last(), cols);
        let m = col_maxes(w.drop_last(), cols);
        assert forall|i: int| 0 <= i < cols implies #[trigger] col_maxes(w, cols)[i] <= usize::MAX || exists|k: int| 0 <= k < w.len() && w[k] > usize::MAX by {
            if m[i] > usize::MAX {
                let k = choose|k: int| 0 <= k < w.drop_last().len() && w.drop_last()[k] > usize::MAX;
                assert(w[k] > usize::MAX);
            } else if w.last() > usize::MAX {
                assert(w[w.len() - 1] > usize::MAX);
            }
        }
    }
}

/// The widest row when the cells of widths `widths` are laid out in `cols`
/// columns, compared with `width`: whether it is wider.
fn row_too_wide(widths: &Vec<usize>, cols: usize, padding: usize, width: usize) -> (r: bool)
    requires
        1 <= cols <= widths.len(),
    ensures
        r == (max_row_width(as_ints(widths@), cols as nat, padding as int) > width),
{
    let ghost w = as_ints(widths@);
    let mut maxes: Vec<usize> = Vec::new();
    let mut c: usize = 0;
    while c < cols
        invariant
            c <= cols,
            maxes@.len() == c,
            forall|j: int| 0 <= j < c ==> maxes@[j] == 0,
        decreases cols - c,
    {
        maxes.push(0);
        c = c + 1;
    }
    assert(as_ints(maxes@) =~= col_maxes(w.take(0), cols as nat));
    let mut i: usize = 0;
    while i < widths.len()
        invariant
            i <= widths.len(),
            1 <= cols <= widths.len(),
            w == as_ints(widths@),
            maxes@.len() == cols,
            as_ints(maxes@) == col_maxes(w.take(i as int), cols as nat),
        decreases widths.len() - i,
    {
        let col = i % cols;
        let ghost before = as_ints(maxes@);
        assert(w.take(i + 1).drop_last() =~= w.take(i as int));
        if widths[i] > maxes[col] {
            maxes.set(col, widths[i]);
        }
        assert(as_ints(maxes@) =~= col_maxes(w.take(i + 1), cols as nat));
        i = i + 1;
    }
    assert(w.take(widths.len() as int) =~= w);
    let ghost m = col_maxes(w, cols as nat);
    let mut total: u128 = 0;
    let mut j: usize = 0;
    while j < cols
        invariant
            j <= cols,
            maxes@.len() == cols,
            as_ints(maxes@) == m,
            total == sum_of(m.take(j as int)),
            total <= j * (usize::MAX as int),
        decreases cols - j,
    {
        assert(m.take(j + 1).drop_last() =~= m.take(j as int));
        assert(m[j as int] == maxes@[j as int] as int);
        assert((j + 1) * (usize::MAX as int) == j * (usize::MAX as int) + usize::MAX) by (nonlinear_arith);
        total = total + maxes[j] as u128;
        j = j + 1;
    }
    assert(m.take(cols as int) =~= m);
    assert(cols * (usize::MAX as int) <= (usize::MAX as int) * (usize::MAX as int)) by (nonlinear_arith)
        requires cols <= usize::MAX;
    let gaps: u128 = (cols - 1) as u128;
    assert(padding * gaps <= (usize::MAX as int) * (usize::MAX as int)) by (nonlinear_arith)
        requires padding <= usize::MAX, gaps <= usize::MAX;
    let pad_total: u128 = padding as u128 * gaps;
    total > width as u128 || pad_total > width as u128 - total
}

/// The number of columns for the cells of widths `widths`, as
/// `column_count` gives it.
fn choose_columns(widths: &Vec<usize>, width: usize, padding: usize) -> (cols: usize)
    requires
        widths.len() >= 1,
        columns_defined(as_ints(widths@), width as int, padding as int),
    ensures
        cols == column_count(as_ints(widths@), width as int, padding as int),
        1 <= cols <= widths.len(),
{
    let ghost w = as_ints(widths@);
    let n = widths.len();
    if n == 1 {
        return 1;
    }
    let mut total: u128 = 0;
    let mut i: usize = 0;
    while i < n
        invariant
            i <= n == widths.len(),
            w == as_ints(widths@),
            total == sum_of(w.take(i as int)),
            total <= i * (usize::MAX as int),
        decreases n - i,
    {
        assert(w.take(i + 1).drop_last() =~= w.take(i as int));
        assert((i + 1) * (usize::MAX as int) == i * (usize::MAX as int) + usize::MAX) by (nonlinear_arith);
        total = total + widths[i] as u128;
        i = i + 1;
    }
    assert(w.take(n as int) =~= w);
    assert(n * (usize::MAX as int) <= (usize::MAX as int) * (usize::MAX as int)) by (nonlinear_arith)
        requires n <= usize::MAX;
    let gaps: u128 = (n - 1) as u128;
    assert(padding * gaps <= (usize::MAX as int) * (usize::MAX as int)) by (nonlinear_arith)
        requires padding <= usize::MAX, gaps <= usize::MAX;
    let pad_total: u128 = padding as u128 * gaps;
    if total <= width as u128 && pad_total <= width as u128 - total {
        return n;
    }
    let avg: u128 = total / (n as u128);
    assert(avg <= usize::MAX) by (nonlinear_arith)
        requires avg as int == (total as int) / (n as int), total <= n * (usize::MAX as int), n >= 2;
    let est: u128 = (width as u128 + padding as u128) / (avg + padding as u128);
    let mut cols: usize = if est < 1 {
        1
    } else if est > n as u128 {
        n
    } else {
        est as usize
    };
    let ghost start = cols;
    while cols > 1 && row_too_wide(widths, cols, padding, width)
        invariant
            1 <= cols <= n == widths.len(),
            w == as_ints(widths@),
            shrink_cols(w, start as nat, padding as int, width as int)
                == shrink_cols(w, cols as nat, padding as int, width as int),
        decreases cols,
    {
        cols = cols - 1;
    }
    cols
}

/// The cells laid out in aligned columns, as `spec_columns` describes.
pub(crate) fn column_text(cells: &[String], width: usize, padding: usize) -> (r: Vec<u8>)
    requires
        columns_defined(widths_of(string_views(cells@)), width as int, padding as int),
    ensures
        r@ == spec_columns(string_views(cells@), width as int, padding),
{
    let ghost views = string_views(cells@);
    let mut out: Vec<u8> = Vec::new();
    if cells.len() == 0 {
        return out;
    }
    let mut widths: Vec<usize> = Vec::new();
    let mut i: usize = 0;
    while i < cells.len()
        invariant
            i <= cells.len(),
            views == string_views(cells@),
            views.len() == cells.len(),
            widths@.len() == i,
            as_ints(widths@) == widths_of(views).take(i as int),
        decreases cells.len() - i,
    {
        let dw = display_width(cells[i].as_str());
        assert(views[i as int] == cells@[i as int]@);
        assert(widths_of(views)[i as int] == dw as int);
        let ghost prev = widths@;
        widths.push(dw);
        assert(widths@ == prev.push(dw));
        assert(as_ints(prev) == widths_of(views).take(i as int));
        assert forall|j: int| 0 <= j <= i implies as_ints(widths@)[j] == widths_of(views).take(i + 1)[j] by {
            if j < i {
                assert(widths@[j] == prev[j]);
                assert(as_ints(widths@)[j] == widths@[j] as int);
                assert(as_ints(prev)[j] == prev[j] as int);
                assert(as_ints(prev)[j] == widths_of(views).take(i as int)[j]);
                assert(widths_of(views).take(i as int)[j] == widths_of(views)[j]);
            } else {
                assert(widths@[j] == dw);
                assert(as_ints(widths@)[j] == widths@[j] as int);
            }
        }
        i = i + 1;
        assert(as_ints(widths@) =~= widths_of(views).take(i as int));
    }
    assert(widths_of(views).take(cells.len() as int) =~= widths_of(views));
    let cols = choose_columns(&widths, width, padding);
    let mut input: Vec<u8> = Vec::new();
    let mut k: usize = 0;
    while k < cells.len()
        invariant
            k <= cells.len(),
            1 <= cols,
            views == string_views(cells@),
            input@ == column_input(views.take(k as int), cols as nat),
        decreases cells.len() - k,
    {
        assert(views.take(k + 1).drop_last() =~= views.take(k as int));
        if k > 0 {
            if k % cols == 0 {
                input.push(10u8);
            } else {
                input.push(9u8);
            }
        }
        push_str(&mut input, cells[k].as_str());
        k = k + 1;
        assert(input@ =~= column_input(views.take(k as int), cols as nat));
    }
    assert(views.take(cells.len() as int) =~= views);
    let fits = input.len() <= (usize::MAX - padding) / 2;
    if fits {
        if let Some(aligned) = tab_align(input.as_slice(), padding) {
            return aligned;
        }
    }
    let mut j: usize = 0;
    while j < cells.len()
        invariant
            j <= cells.len(),
            views == string_views(cells@),
            out@ == space_joined(views.take(j as int)),
        decreases cells.len() - j,
    {
        assert(views.take(j + 1).drop_last() =~= views.take(j as int));
        if j > 0 {
            out.push(32u8);
        }
        push_str(&mut out, cells[j].as_str());
        j = j + 1;
        assert(out@ =~= space_joined(views.take(j as int)));
    }
    assert(views.take(cells.len() as int) =~= views);
    out
}

/// Writes the cells in aligned columns of at most `width` display columns,
/// `padding` spaces apart, at the end of `buffer`, and returns the number of
/// bytes written.
pub fn write_columns(buffer: &mut BytesMut, cells: &[String], width: usize, padding: usize) -> (n: usize)
    requires
        columns_defined(widths_of(string_views(cells@)), width as int, padding as int),
        buffer_bytes(*old(buffer)).len() + spec_columns(string_views(cells@), width as int, padding).len()
            <= isize::MAX,
    ensures
        buffer_bytes(*final(buffer)) == buffer_bytes(*old(buffer)) + spec_columns(
            string_views(cells@),
            width as int,
            padding,
        ),
        n == spec_columns(string_views(cells@), width as int, padding).len(),
{
    let text = column_text(cells, width, padding);
    buffer_extend(buffer, text.as_slice());
    text.len()
}

} // verus!
