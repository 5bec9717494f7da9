//! Layout of a reading series on the occupancy grid.

use vstd::prelude::*;
use crate::reading::{floor_div, round, round_scaled, round_scaled_spec};

verus! {

/// Sizes of the chart.
#[derive(Clone, Copy, Debug, PartialEq, Eq)]
pub struct ChartConfig {
    /// Rows of the grid, one per pressure sub-level.
    pub bp_range: u32,
    /// Columns of the grid, one per hour; also the shortest series charted.
    pub time_range: u32,
    /// Rows per whole hectopascal.
    pub magnification: u32,
}

impl ChartConfig {
    /// The latest reading can anchor the chart and rows have a positive height.
    pub open spec fn wf(&self) -> bool {
        self.time_range >= 2 && self.magnification >= 1
    }

    /// The chart of a station page: 21 rows, 24 hours, 4 rows per hectopascal.
    pub fn standard() -> (c: ChartConfig)
        ensures
            c.bp_range == 21,
            c.time_range == 24,
            c.magnification == 4,
            c.wf(),
    {
        ChartConfig { bp_range: 21, time_range: 24, magnification: 4 }
    }
}

/// How the vertical centre of the chart is chosen.
#[derive(Clone, Copy, Debug, PartialEq, Eq)]
pub enum VerticalAnchor {
    /// The reading half a window before the end of the series.
    Latest,
    /// The mean of the whole series.
    Average,
}

/// Why a series cannot be charted.
#[derive(Clone, Copy, Debug, PartialEq, Eq)]
pub enum ChartError {
    /// The series is shorter than the chart's window of hours.
    InsufficientData,
}

/// Sum of the readings, in tenths.
pub open spec fn sum_spec(s: Seq<i32>) -> int
    decreases s.len(),
{
    if s.len() == 0 {
        0
    } else {
        sum_spec(s.drop_last()) + s.last()
    }
}

/// The mean of a non-empty series, in whole hectopascals, rounded half up:
/// `floor(sum / (10 n) + 1/2)`.
pub open spec fn mean_rounded(s: Seq<i32>) -> int {
    (sum_spec(s) + 5 * s.len()) / (10 * s.len() as int)
}

/// The whole hectopascal around which the chart is drawn, before the offset
/// that puts it in the middle row band.
pub open spec fn anchor_value(cfg: ChartConfig, anchor: VerticalAnchor, s: Seq<i32>) -> int {
    match anchor {
        VerticalAnchor::Latest => round_scaled_spec(
            s[s.len() - cfg.time_range / 2] as int,
            1,
        ),
        VerticalAnchor::Average => mean_rounded(s),
    }
}

/// The vertical offset: the pressure, in whole hectopascals, of row 0.
pub open spec fn vertical_offset_spec(cfg: ChartConfig, anchor: VerticalAnchor, s: Seq<i32>) -> int {
    anchor_value(cfg, anchor, s) + cfg.bp_range / 2 / cfg.magnification
}

/// The row on which a reading falls, which may lie off the grid.
pub open spec fn row_of(cfg: ChartConfig, vo: int, tenths: int) -> int {
    vo * cfg.magnification - round_scaled_spec(tenths, cfg.magnification as int)
}

/// The grid row that a reading marks, if it falls on the grid.
pub open spec fn mark_row_spec(cfg: ChartConfig, vo: int, tenths: int) -> Option<u32> {
    let y = row_of(cfg, vo, tenths);
    if 0 <= y < cfg.bp_range {
        Some(y as u32)
    } else {
        None
    }
}

/// Whether cell `(r, c)` of the grid is marked: column `c` is the reading at
/// `c` within the last `time_range` readings of the series.
pub open spec fn cell_spec(cfg: ChartConfig, vo: int, s: Seq<i32>, r: int, c: int) -> bool {
    row_of(cfg, vo, s[s.len() - cfg.time_range + c] as int) == r
}

/// `g` is the occupancy grid of the series `s` about the vertical offset `vo`.
pub open spec fn field_matches(cfg: ChartConfig, vo: int, s: Seq<i32>, g: Seq<Vec<bool>>) -> bool {
    &&& g.len() == cfg.bp_range
    &&& forall|r: int| 0 <= r < g.len() ==> (#[trigger] g[r])@.len() == cfg.time_range
    &&& forall|r: int, c: int|
        0 <= r < g.len() && 0 <= c < cfg.time_range ==> (#[trigger] g[r]@[c]) == cell_spec(
            cfg,
            vo,
            s,
            r,
            c,
        )
}

/// The occupancy grid of the series `s` about the vertical offset `vo`.
pub open spec fn grid_spec(cfg: ChartConfig, vo: int, s: Seq<i32>) -> Seq<Seq<bool>> {
    Seq::new(
        cfg.bp_range as nat,
        |r: int| Seq::new(cfg.time_range as nat, |c: int| cell_spec(cfg, vo, s, r, c)),
    )
}

/// The cells of a grid, row by row.
pub open spec fn grid_view(g: Seq<Vec<bool>>) -> Seq<Seq<bool>> {
    g.map_values(|row: Vec<bool>| row@)
}

/// A grid that matches the series is the grid of the series.
pub proof fn lemma_field_view(cfg: ChartConfig, vo: int, s: Seq<i32>, g: Seq<Vec<bool>>)
    requires
        field_matches(cfg, vo, s, g),
    ensures
        grid_view(g) == grid_spec(cfg, vo, s),
{
    assert forall|r: int| 0 <= r < g.len() implies grid_view(g)[r] == grid_spec(cfg, vo, s)[r] by {
        assert(grid_view(g)[r] =~= grid_spec(cfg, vo, s)[r]);
    }
    assert(grid_view(g) =~= grid_spec(cfg, vo, s));
}

/// Every column of an occupancy grid holds at most one mark: each hour has
/// one reading, and a reading falls on one row.
pub proof fn lemma_one_mark_per_column(cfg: ChartConfig, vo: int, s: Seq<i32>, g: Seq<Vec<bool>>)
    requires
        s.len() >= cfg.time_range,
        field_matches(cfg, vo, s, g),
    ensures
        forall|r1: int, r2: int, c: int|
            0 <= r1 < g.len() && 0 <= r2 < g.len() && 0 <= c < cfg.time_range && #[trigger] g[r1]@[c]
                && #[trigger] g[r2]@[c] ==> r1 == r2,
{
}

/// A reading equal to the vertical offset falls on row 0, and one a whole
/// hectopascal lower falls `magnification` rows further down.
pub proof fn lemma_offset_reading_rows(cfg: ChartConfig, vo: int)
    ensures
        row_of(cfg, vo, 10 * vo) == 0,
        row_of(cfg, vo, 10 * (vo - 1)) == cfg.magnification,
{
    let m = cfg.magnification as int;
    assert((10 * vo * m + 5) / 10 == vo * m) by (nonlinear_arith);
    assert((10 * (vo - 1) * m + 5) / 10 == vo * m - m) by (nonlinear_arith);
}

/// Sums a series of readings, in tenths.
pub fn total(data: &Vec<i32>) -> (r: i128)
    ensures
        r == sum_spec(data@),
        data@.len() * -0x80000000 <= r <= data@.len() * 0x7fffffff,
{
    let mut acc: i128 = 0;
    let mut i: usize = 0;
    while i < data.len()
        invariant
            i <= data@.len(),
            acc == sum_spec(data@.take(i as int)),
            i * -0x80000000 <= acc <= i * 0x7fffffff,
        decreases data@.len() - i,
    {
        assert(data@.take(i as int + 1).drop_last() =~= data@.take(i as int));
        acc = acc + data[i] as i128;
        i = i + 1;
    }
    assert(data@.take(i as int) =~= data@);
    acc
}

/// The mean of a non-empty series, in whole hectopascals, rounded half up.
pub fn average(data: &Vec<i32>) -> (r: i64)
    requires
        data@.len() > 0,
    ensures
        r == mean_rounded(data@),
        -0x80000000 <= r <= 0x80000000,
{
    let n = data.len() as i128;
    let sum = total(data);
    let x = sum + 5 * n;
    let d = 10 * n;
    let q = floor_div(x, d);
    assert(-0x80000000 <= q <= 0x80000000) by (nonlinear_arith)
        requires
            d * q <= x < d * q + d,
            d == 10 * n,
            n > 0,
            x == sum + 5 * n,
            n * -0x80000000 <= sum <= n * 0x7fffffff,
    ;
    q as i64
}

/// The vertical offset of the chart of `data`: the pressure, in whole
/// hectopascals, of row 0.
pub fn get_range_offset(cfg: &ChartConfig, anchor: VerticalAnchor, data: &Vec<i32>) -> (r: Result<i64, ChartError>)
    requires
        cfg.wf(),
    ensures
        data@.len() < cfg.time_range ==> r == Err::<i64, ChartError>(ChartError::InsufficientData),
        data@.len() >= cfg.time_range ==> r == Ok::<i64, ChartError>(
            vertical_offset_spec(*cfg, anchor, data@) as i64,
        ),
        r is Ok ==> r->Ok_0 == vertical_offset_spec(*cfg, anchor, data@),
{
    if data.len() < cfg.time_range as usize {
        return Err(ChartError::InsufficientData);
    }
    let a: i128 = match anchor {
        VerticalAnchor::Latest => round(data[data.len() - (cfg.time_range / 2) as usize]),
        VerticalAnchor::Average => average(data) as i128,
    };
    let half = cfg.bp_range / 2 / cfg.magnification;
    Ok((a + half as i128) as i64)
}

/// The index in `data` of the reading drawn in the first column; also the
/// hour shown over that column.
pub fn get_time_offset(cfg: &ChartConfig, data: &Vec<i32>) -> (r: Result<usize, ChartError>)
    ensures
        data@.len() < cfg.time_range ==> r == Err::<usize, ChartError>(ChartError::InsufficientData),
        data@.len() >= cfg.time_range ==> r == Ok::<usize, ChartError>(
            (data@.len() - cfg.time_range) as usize,
        ),
        r is Ok ==> r->Ok_0 == data@.len() - cfg.time_range,
{
    if data.len() < cfg.time_range as usize {
        Err(ChartError::InsufficientData)
    } else {
        Ok(data.len() - cfg.time_range as usize)
    }
}

/// The grid row that a reading marks about the vertical offset `vo`, or
/// `None` where it falls off the grid.
pub fn mark_row(cfg: &ChartConfig, vo: i64, tenths: i32) -> (r: Option<u32>)
    ensures
        r == mark_row_spec(*cfg, vo as int, tenths as int),
{
    assert(-0x8000000000000000 * 0x100000000 <= (vo as int) * (cfg.magnification as int)
        <= 0x8000000000000000 * 0x100000000) by (nonlinear_arith)
        requires
            -0x8000000000000000 <= vo < 0x8000000000000000,
            0 <= cfg.magnification < 0x100000000,
    ;
    let v = round_scaled(tenths, cfg.magnification as u64);
    assert(-0x80000000 * 0x100000000 <= v <= 0x80000000 * 0x100000000) by (nonlinear_arith)
        requires
            10 * v <= tenths * cfg.magnification + 5 < 10 * v + 10,
            -0x80000000 <= tenths < 0x80000000,
            0 <= cfg.magnification < 0x100000000,
    ;
    let y: i128 = (vo as i128) * (cfg.magnification as i128) - v;
    if 0 <= y && y < cfg.bp_range as i128 {
        Some(y as u32)
    } else {
        None
    }
}

/// The occupancy grid of the last `time_range` readings of `data` about the
/// vertical offset `vo`: `bp_range` rows of `time_range` cells.
pub fn set_field(cfg: &ChartConfig, vo: i64, data: &Vec<i32>) -> (g: Vec<Vec<bool>>)
    requires
        data@.len() >= cfg.time_range,
    ensures
        field_matches(*cfg, vo as int, data@, g@),
{
    let start = data.len() - cfg.time_range as usize;
    let mut marks: Vec<Option<u32>> = Vec::new();
    let mut c: usize = 0;
    while c < cfg.time_range as usize
        invariant
            start == data@.len() - cfg.time_range,
            start + cfg.time_range == data.len(),
            c <= cfg.time_range,
            marks@.len() == c,
            forall|k: int| 0 <= k < c ==> #[trigger] marks@[k] == mark_row_spec(*cfg, vo as int, data@[start + k] as int),
        decreases cfg.time_range - c,
    {
        marks.push(mark_row(cfg, vo, data[start + c]));
        c = c + 1;
    }
    let mut g: Vec<Vec<bool>> = Vec::new();
    let mut r: u32 = 0;
    while r < cfg.bp_range
        invariant
            r <= cfg.bp_range,
            start == data@.len() - cfg.time_range,
            marks@.len() == cfg.time_range,
            forall|k: int| 0 <= k < cfg.time_range ==> #[trigger] marks@[k] == mark_row_spec(*cfg, vo as int, data@[start + k] as int),
            g@.len() == r,
            forall|i: int| 0 <= i < r ==> (#[trigger] g@[i])@.len() == cfg.time_range,
            forall|i: int, k: int| 0 <= i < r && 0 <= k < cfg.time_range ==> (#[trigger] g@[i]@[k]) == cell_spec(*cfg, vo as int, data@, i, k),
        decreases cfg.bp_range - r,
    {
        let mut row: Vec<bool> = Vec::new();
        let mut k: usize = 0;
        while k < cfg.time_range as usize
            invariant
                r < cfg.bp_range,
                k <= cfg.time_range,
                start == data@.len() - cfg.time_range,
                marks@.len() == cfg.time_range,
                forall|j: int| 0 <= j < cfg.time_range ==> #[trigger] marks@[j] == mark_row_spec(*cfg, vo as int, data@[start + j] as int),
                row@.len() == k,
                forall|j: int| 0 <= j < k ==> (#[trigger] row@[j]) == cell_spec(*cfg, vo as int, data@, r as int, j),
            decreases cfg.time_range - k,
        {
            let hit = match marks[k] {
                Some(y) => y == r,
                None => false,
            };
            row.push(hit);
            k = k + 1;
        }
        g.push(row);
        r = r + 1;
    }
    g
}

/// A series laid out on the grid.
pub struct Chart {
    /// The pressure of row 0, in whole hectopascals.
    pub vertical_offset: i64,
    /// The index of the reading in the first column; also the hour shown there.
    pub horizontal_offset: usize,
    /// The occupancy grid, row by row.
    pub field: Vec<Vec<bool>>,
}

/// Lays out the last `time_range` readings of `data` on the grid, about the
/// vertical offset that `anchor` picks.
pub fn layout_chart(cfg: &ChartConfig, anchor: VerticalAnchor, data: &Vec<i32>) -> (r: Result<Chart, ChartError>)
    requires
        cfg.wf(),
    ensures
        data@.len() < cfg.time_range <==> r is Err,
        r is Err ==> r == Err::<Chart, ChartError>(ChartError::InsufficientData),
        r is Ok ==> {
            let c = r->Ok_0;
            &&& c.vertical_offset == vertical_offset_spec(*cfg, anchor, data@)
            &&& c.horizontal_offset == data@.len() - cfg.time_range
            &&& field_matches(*cfg, c.vertical_offset as int, data@, c.field@)
        },
{
    let vo = match get_range_offset(cfg, anchor, data) {
        Ok(v) => v,
        Err(e) => return Err(e),
    };
    let ho = match get_time_offset(cfg, data) {
        Ok(h) => h,
        Err(e) => return Err(e),
    };
    let field = set_field(cfg, vo, data);
    Ok(Chart { vertical_offset: vo, horizontal_offset: ho, field })
}

} // verus!
