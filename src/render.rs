//! Text rendering of an occupancy grid.

use vstd::prelude::*;
use crate::layout::{
    grid_spec, grid_view, layout_chart, lemma_field_view, vertical_offset_spec, ChartConfig,
    ChartError, VerticalAnchor,
};

verus! {

/// Hours in a day: the hour labels wrap at this value.
pub const HOURS_PER_DAY: usize = 24;

/// Width of the label gutter in front of each grid row.
pub const GUTTER_WIDTH: usize = 6;

/// The character of a decimal digit.
pub open spec fn digit_char(d: int) -> char {
    ('0' as int + d) as char
}

/// Decimal digits of `n`, with no leading zero.
pub open spec fn decimal_nat(n: nat) -> Seq<char>
    decreases n,
{
    if n < 10 {
        seq![digit_char(n as int)]
    } else {
        decimal_nat(n / 10).push(digit_char((n % 10) as int))
    }
}

/// Decimal text of an integer, with a leading `-` when it is negative.
pub open spec fn decimal(n: int) -> Seq<char> {
    if n < 0 {
        seq!['-'] + decimal_nat((-n) as nat)
    } else {
        decimal_nat(n as nat)
    }
}

/// `k` spaces.
pub open spec fn spaces(k: int) -> Seq<char> {
    Seq::new(k as nat, |i: int| ' ')
}

/// `s` right-aligned in a field of `w` characters.
pub open spec fn pad_left(s: Seq<char>, w: int) -> Seq<char> {
    if s.len() < w {
        spaces(w - s.len()) + s
    } else {
        s
    }
}

/// `s` centred in a field of `w` characters; an odd leftover space goes right.
pub open spec fn center(s: Seq<char>, w: int) -> Seq<char> {
    if s.len() < w {
        spaces((w - s.len()) / 2) + s + spaces(w - s.len() - (w - s.len()) / 2)
    } else {
        s
    }
}

/// Labels of the `n` first columns, the first of which shows hour `first`.
pub open spec fn hour_labels(first: int, n: nat) -> Seq<char>
    decreases n,
{
    if n == 0 {
        Seq::empty()
    } else {
        hour_labels(first, (n - 1) as nat) + center(decimal((first + n - 1) % 24), 3)
    }
}

/// Row `i` lies on a whole hectopascal.
pub open spec fn is_major(cfg: ChartConfig, i: int) -> bool {
    i % (cfg.magnification as int) == 0
}

/// The three characters that draw one cell.
pub open spec fn marker(major: bool, marked: bool) -> Seq<char> {
    if major {
        if marked {
            seq!['.', '@', '.']
        } else {
            seq!['.', '.', '.']
        }
    } else {
        if marked {
            seq![' ', '@', ' ']
        } else {
            seq![' ', ' ', ' ']
        }
    }
}

/// The cells of a row, drawn left to right.
pub open spec fn cells_text(row: Seq<bool>, major: bool) -> Seq<char>
    decreases row.len(),
{
    if row.len() == 0 {
        Seq::empty()
    } else {
        cells_text(row.drop_last(), major) + marker(major, row.last())
    }
}

/// The gutter of row `i`: the pressure of the row, right-aligned, on a whole
/// hectopascal; blank otherwise.
pub open spec fn row_label(cfg: ChartConfig, vo: int, i: int) -> Seq<char> {
    if is_major(cfg, i) {
        pad_left(decimal(vo - i / (cfg.magnification as int)), 6)
    } else {
        spaces(6)
    }
}

/// Line of row `i`.
pub open spec fn row_line(cfg: ChartConfig, vo: int, i: int, row: Seq<bool>) -> Seq<char> {
    row_label(cfg, vo, i) + cells_text(row, is_major(cfg, i)) + seq!['\n']
}

/// Lines of the first `n` rows of the grid.
pub open spec fn rows_text(cfg: ChartConfig, vo: int, g: Seq<Seq<bool>>, n: nat) -> Seq<char>
    decreases n,
{
    if n == 0 {
        Seq::empty()
    } else {
        rows_text(cfg, vo, g, (n - 1) as nat) + row_line(cfg, vo, n - 1, g[n - 1])
    }
}

/// The caption over the hour labels.
pub open spec fn time_caption() -> Seq<char> {
    seq!['\n', ' ', ' ', ' ', ' ', ' ', ' ', '時', '刻', '→', '\n']
}

/// The caption in front of the hour labels.
pub open spec fn pressure_caption() -> Seq<char> {
    seq!['↓', '気', '圧']
}

/// The whole chart: captions, hour labels, one line per grid row, and the
/// title, indented.
pub open spec fn chart_text(
    cfg: ChartConfig,
    vo: int,
    first_hour: int,
    g: Seq<Seq<bool>>,
    title: Seq<char>,
) -> Seq<char> {
    time_caption() + pressure_caption() + hour_labels(first_hour, cfg.time_range as nat) + seq![
        '\n',
    ] + rows_text(cfg, vo, g, g.len()) + seq!['\t', '\t', '\t', ' '] + title + seq!['\n']
}

/// The text of one decimal digit.
fn digit_text(d: u128) -> (r: &'static str)
    requires
        d < 10,
    ensures
        r@ == seq![digit_char(d as int)],
{
    if d == 0 {
        proof { reveal_strlit("0"); }
        "0"
    } else if d == 1 {
        proof { reveal_strlit("1"); }
        "1"
    } else if d == 2 {
        proof { reveal_strlit("2"); }
        "2"
    } else if d == 3 {
        proof { reveal_strlit("3"); }
        "3"
    } else if d == 4 {
        proof { reveal_strlit("4"); }
        "4"
    } else if d == 5 {
        proof { reveal_strlit("5"); }
        "5"
    } else if d == 6 {
        proof { reveal_strlit("6"); }
        "6"
    } else if d == 7 {
        proof { reveal_strlit("7"); }
        "7"
    } else if d == 8 {
        proof { reveal_strlit("8"); }
        "8"
    } else {
        proof { reveal_strlit("9"); }
        "9"
    }
}

/// Appends the decimal digits of `n`.
fn append_decimal_nat(out: &mut String, n: u128)
    ensures
        final(out)@ == old(out)@ + decimal_nat(n as nat),
    decreases n,
{
    if n >= 10 {
        append_decimal_nat(out, n / 10);
    }
    out.append(digit_text(n % 10));
    assert(final(out)@ =~= old(out)@ + decimal_nat(n as nat)) by {
        if n >= 10 {
            assert(decimal_nat(n as nat) == decimal_nat((n / 10) as nat).push(
                digit_char((n % 10) as int),
            ));
        }
    }
}

/// Decimal text of an integer.
pub fn decimal_text(n: i128) -> (r: String)
    requires
        n > i128::MIN,
    ensures
        r@ == decimal(n as int),
{
    let mut out = String::new();
    if n < 0 {
        proof { reveal_strlit("-"); }
        out.append("-");
        append_decimal_nat(&mut out, (-n) as u128);
    } else {
        append_decimal_nat(&mut out, n as u128);
    }
    assert(out@ =~= decimal(n as int));
    out
}

/// Appends `k` spaces.
fn append_spaces(out: &mut String, k: usize)
    ensures
        final(out)@ == old(out)@ + spaces(k as int),
{
    let mut j: usize = 0;
    while j < k
        invariant
            j <= k,
            out@ == old(out)@ + spaces(j as int),
        decreases k - j,
    {
        proof { reveal_strlit(" "); }
        out.append(" ");
        j = j + 1;
        assert(out@ =~= old(out)@ + spaces(j as int));
    }
}

/// Appends `s` right-aligned in a field of `w` characters.
fn append_padded_left(out: &mut String, s: &str, w: usize)
    ensures
        final(out)@ == old(out)@ + pad_left(s@, w as int),
{
    let len = s.unicode_len();
    if len < w {
        append_spaces(out, w - len);
    }
    out.append(s);
    assert(final(out)@ =~= old(out)@ + pad_left(s@, w as int));
}

/// Appends `s` centred in a field of `w` characters.
fn append_centered(out: &mut String, s: &str, w: usize)
    ensures
        final(out)@ == old(out)@ + center(s@, w as int),
{
    let len = s.unicode_len();
    if len < w {
        let left = (w - len) / 2;
        append_spaces(out, left);
        out.append(s);
        append_spaces(out, w - len - left);
    } else {
        out.append(s);
    }
    assert(final(out)@ =~= old(out)@ + center(s@, w as int));
}

/// Appends the labels of `n` columns, the first of which shows hour `first`.
fn append_hour_labels(out: &mut String, first: usize, n: usize)
    ensures
        final(out)@ == old(out)@ + hour_labels(first as int, n as nat),
{
    let mut c: usize = 0;
    while c < n
        invariant
            c <= n,
            out@ == old(out)@ + hour_labels(first as int, c as nat),
        decreases n - c,
    {
        let hour = (first % HOURS_PER_DAY + c % HOURS_PER_DAY) % HOURS_PER_DAY;
        proof {
            vstd::arithmetic::div_mod::lemma_add_mod_noop(first as int, c as int, 24);
        }
        let label = decimal_text(hour as i128);
        append_centered(out, label.as_str(), 3);
        c = c + 1;
        assert(out@ =~= old(out)@ + hour_labels(first as int, c as nat));
    }
}

/// Appends the cells of a row.
fn append_cells(out: &mut String, row: &Vec<bool>, major: bool)
    ensures
        final(out)@ == old(out)@ + cells_text(row@, major),
{
    let mut k: usize = 0;
    while k < row.len()
        invariant
            k <= row@.len(),
            out@ == old(out)@ + cells_text(row@.take(k as int), major),
        decreases row@.len() - k,
    {
        let text = if major {
            if row[k] {
                proof { reveal_strlit(".@."); }
                ".@."
            } else {
                proof { reveal_strlit("..."); }
                "..."
            }
        } else {
            if row[k] {
                proof { reveal_strlit(" @ "); }
                " @ "
            } else {
                proof { reveal_strlit("   "); }
                "   "
            }
        };
        assert(text@ =~= marker(major, row@[k as int]));
        out.append(text);
        assert(row@.take(k as int + 1).drop_last() =~= row@.take(k as int));
        k = k + 1;
        assert(out@ =~= old(out)@ + cells_text(row@.take(k as int), major));
    }
    assert(row@.take(k as int) =~= row@);
}

/// Appends the line of row `i` of the grid.
fn append_row(out: &mut String, cfg: &ChartConfig, vo: i64, i: usize, row: &Vec<bool>)
    requires
        cfg.magnification >= 1,
    ensures
        final(out)@ == old(out)@ + row_line(*cfg, vo as int, i as int, row@),
{
    let major = i % (cfg.magnification as usize) == 0;
    if major {
        let step: i128 = vo as i128 - (i / cfg.magnification as usize) as i128;
        let label = decimal_text(step);
        append_padded_left(out, label.as_str(), GUTTER_WIDTH);
    } else {
        append_spaces(out, GUTTER_WIDTH);
    }
    append_cells(out, row, major);
    proof { reveal_strlit("\n"); }
    out.append("\n");
    assert(final(out)@ =~= old(out)@ + row_line(*cfg, vo as int, i as int, row@));
}

/// Renders the chart of an occupancy grid whose row 0 lies at `vo` whole
/// hectopascals and whose first column shows hour `first_hour`, with `title`
/// under it.
pub fn render_chart(
    cfg: &ChartConfig,
    field: &Vec<Vec<bool>>,
    vo: i64,
    first_hour: usize,
    title: &str,
) -> (r: String)
    requires
        cfg.magnification >= 1,
    ensures
        r@ == chart_text(*cfg, vo as int, first_hour as int, grid_view(field@), title@),
{
    let mut out = String::new();
    proof { reveal_strlit("\n      時刻→\n"); }
    out.append("\n      時刻→\n");
    proof { reveal_strlit("↓気圧"); }
    out.append("↓気圧");
    append_hour_labels(&mut out, first_hour, cfg.time_range as usize);
    proof { reveal_strlit("\n"); }
    out.append("\n");
    let ghost head = out@;
    let mut i: usize = 0;
    while i < field.len()
        invariant
            i <= field@.len(),
            cfg.magnification >= 1,
            out@ == head + rows_text(*cfg, vo as int, grid_view(field@), i as nat),
        decreases field@.len() - i,
    {
        append_row(&mut out, cfg, vo, i, &field[i]);
        i = i + 1;
        assert(out@ =~= head + rows_text(*cfg, vo as int, grid_view(field@), i as nat));
    }
    proof { reveal_strlit("\t\t\t "); }
    out.append("\t\t\t ");
    out.append(title);
    proof { reveal_strlit("\n"); }
    out.append("\n");
    assert(out@ =~= chart_text(*cfg, vo as int, first_hour as int, grid_view(field@), title@));
    out
}

/// The chart of a series of readings, in tenths, with `title` under it: the
/// last `time_range` readings about the vertical offset that `anchor` picks.
pub fn draw_chart(cfg: &ChartConfig, anchor: VerticalAnchor, data: &Vec<i32>, title: &str) -> (r:
    Result<String, ChartError>)
    requires
        cfg.wf(),
    ensures
        data@.len() < cfg.time_range ==> r == Err::<String, ChartError>(
            ChartError::InsufficientData,
        ),
        data@.len() >= cfg.time_range ==> r is Ok && r->Ok_0@ == chart_text(
            *cfg,
            vertical_offset_spec(*cfg, anchor, data@),
            data@.len() - cfg.time_range,
            grid_spec(*cfg, vertical_offset_spec(*cfg, anchor, data@), data@),
            title@,
        ),
{
    match layout_chart(cfg, anchor, data) {
        Err(e) => Err(e),
        Ok(chart) => {
            proof {
                lemma_field_view(*cfg, chart.vertical_offset as int, data@, chart.field@);
            }
            Ok(render_chart(cfg, &chart.field, chart.vertical_offset, chart.horizontal_offset, title))
        },
    }
}

} // verus!
