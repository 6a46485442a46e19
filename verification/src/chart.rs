//! An ASCII bar chart for the terminal. Each column is one datum; a
//! cell is filled when its datum exceeds the row's threshold, the top
//! row is annotated with the dataset maximum and the bottom row with
//! the minimum. The exact text produced is pinned down, character by
//! character, by `chart_text`.

use crate::digits::{dec_str, push_char, push_u64};
use vstd::prelude::*;

verus! {

/// The running maximum of the data, folded from zero.
pub open spec fn chart_max(data: Seq<u64>) -> u64
    decreases data.len(),
{
    if data.len() == 0 {
        0u64
    } else {
        let m = chart_max(data.drop_last());
        if m < data.last() {
            data.last()
        } else {
            m
        }
    }
}

/// The running minimum of the data, folded from zero.
pub open spec fn chart_min(data: Seq<u64>) -> u64
    decreases data.len(),
{
    if data.len() == 0 {
        0u64
    } else {
        let m = chart_min(data.drop_last());
        if data.last() < m {
            data.last()
        } else {
            m
        }
    }
}

/// A cell is filled when its datum exceeds the row's threshold of
/// `max - (row + 1) * (max - min) / height`, compared exactly.
pub open spec fn col_filled(datum: int, minv: int, maxv: int, height: int, row: int) -> bool {
    (maxv - datum) * height < (row + 1) * (maxv - minv)
}

/// One row's cells: a fill or a space per datum.
pub open spec fn row_cells(
    data: Seq<u64>,
    minv: int,
    maxv: int,
    height: int,
    row: int,
    fill: char,
    space: char,
) -> Seq<char> {
    Seq::new(
        data.len(),
        |i: int|
            if col_filled(data[i] as int, minv, maxv, height, row) {
                fill
            } else {
                space
            },
    )
}

/// One whole row: its cells, the maximum annotation on the first row,
/// the minimum annotation on the last row, and the line break.
pub open spec fn row_text(
    data: Seq<u64>,
    minv: u64,
    maxv: u64,
    height: int,
    row: int,
    fill: char,
    space: char,
) -> Seq<char> {
    row_cells(data, minv as int, maxv as int, height, row, fill, space) + (if row == 0 {
        seq![' '] + dec_str(maxv as nat)
    } else {
        Seq::empty()
    }) + (if row == height - 1 {
        seq![' '] + dec_str(minv as nat)
    } else {
        Seq::empty()
    }) + seq!['\n']
}

/// The first `nrows` rows of the chart, top to bottom.
pub open spec fn rows_text(
    data: Seq<u64>,
    minv: u64,
    maxv: u64,
    height: int,
    nrows: int,
    fill: char,
    space: char,
) -> Seq<char>
    decreases nrows,
{
    if nrows <= 0 {
        Seq::empty()
    } else {
        rows_text(data, minv, maxv, height, nrows - 1, fill, space) + row_text(
            data,
            minv,
            maxv,
            height,
            nrows - 1,
            fill,
            space,
        )
    }
}

/// The whole chart of the data: every row over the folded minimum and
/// maximum.
pub open spec fn chart_text(data: Seq<u64>, height: int, fill: char, space: char) -> Seq<char> {
    rows_text(data, chart_min(data), chart_max(data), height, height, fill, space)
}

/// The folded minimum never exceeds the folded maximum.
proof fn lemma_chart_min_le_max(data: Seq<u64>)
    ensures
        chart_min(data) <= chart_max(data),
    decreases data.len(),
{
    if data.len() > 0 {
        lemma_chart_min_le_max(data.drop_last());
    }
}

/// Every datum lies between the folded minimum and maximum.
proof fn lemma_chart_fold_bounds(data: Seq<u64>, i: int)
    requires
        0 <= i < data.len(),
    ensures
        chart_min(data) <= data[i] <= chart_max(data),
    decreases data.len(),
{
    if i == data.len() - 1 {
        lemma_chart_min_le_max(data.drop_last());
    } else {
        lemma_chart_fold_bounds(data.drop_last(), i);
    }
}

/// A bar-chart renderer with a configurable height.
pub struct Chart {
    height: u32,
    fill: char,
    space: char,
}

impl Chart {
    pub closed spec fn spec_height(&self) -> u32 {
        self.height
    }

    pub closed spec fn spec_fill(&self) -> char {
        self.fill
    }

    pub closed spec fn spec_space(&self) -> char {
        self.space
    }

    /// A ten-row chart of half-block bars.
    pub fn new() -> (c: Chart)
        ensures
            c.spec_height() == 10,
            c.spec_fill() == '▌',
            c.spec_space() == ' ',
    {
        Chart { height: 10, fill: '▌', space: ' ' }
    }

    /// The same chart with another row count.
    pub fn height(self, h: u32) -> (c: Chart)
        ensures
            c.spec_height() == h,
            c.spec_fill() == self.spec_fill(),
            c.spec_space() == self.spec_space(),
    {
        Chart { height: h, fill: self.fill, space: self.space }
    }

    /// Renders the data as text, one line per row from the top down.
    pub fn make(&self, data: &Vec<u64>) -> (r: String)
        ensures
            r@ == chart_text(data@, self.spec_height() as int, self.spec_fill(), self.spec_space()),
    {
        let mut minv: u64 = 0;
        let mut maxv: u64 = 0;
        let mut i: usize = 0;
        while i < data.len()
            invariant
                i <= data@.len(),
                minv == chart_min(data@.take(i as int)),
                maxv == chart_max(data@.take(i as int)),
            decreases data@.len() - i,
        {
            let datum = data[i];
            proof {
                assert(data@.take(i as int + 1).drop_last() =~= data@.take(i as int));
            }
            if datum < minv {
                minv = datum;
            }
            if maxv < datum {
                maxv = datum;
            }
            i = i + 1;
        }
        proof {
            assert(data@.take(data@.len() as int) =~= data@);
            lemma_chart_min_le_max(data@);
        }

        let mut ret = String::new();
        let mut row: u32 = 0;
        while row < self.height
            invariant
                row <= self.height,
                minv == chart_min(data@),
                maxv == chart_max(data@),
                minv <= maxv,
                ret@ == rows_text(
                    data@,
                    minv,
                    maxv,
                    self.spec_height() as int,
                    row as int,
                    self.spec_fill(),
                    self.spec_space(),
                ),
            decreases self.height - row,
        {
            let ghost row_start = ret@;
            let mut col: usize = 0;
            while col < data.len()
                invariant
                    col <= data@.len(),
                    row < self.height,
                    minv == chart_min(data@),
                    maxv == chart_max(data@),
                    minv <= maxv,
                    ret@ == row_start + row_cells(
                        data@,
                        minv as int,
                        maxv as int,
                        self.spec_height() as int,
                        row as int,
                        self.spec_fill(),
                        self.spec_space(),
                    ).take(col as int),
                decreases data@.len() - col,
            {
                let datum = data[col];
                proof {
                    lemma_chart_fold_bounds(data@, col as int);
                    assert(((maxv - datum) as int) * (self.height as int) <= 0xffffffffffffffff
                        * 0xffffffff) by (nonlinear_arith)
                        requires
                            0 <= (maxv - datum) as int <= 0xffffffffffffffff,
                            0 <= self.height as int <= 0xffffffff,
                    ;
                    assert(((row + 1) as int) * ((maxv - minv) as int) <= 0x100000000
                        * 0xffffffffffffffff) by (nonlinear_arith)
                        requires
                            0 <= (row + 1) as int <= 0x100000000,
                            0 <= (maxv - minv) as int <= 0xffffffffffffffff,
                    ;
                }
                let filled = ((maxv - datum) as u128) * (self.height as u128) < ((row + 1) as u128)
                    * ((maxv - minv) as u128);
                if filled {
                    push_char(&mut ret, self.fill);
                } else {
                    push_char(&mut ret, self.space);
                }
                col = col + 1;
                proof {
                    assert(ret@ =~= row_start + row_cells(
                        data@,
                        minv as int,
                        maxv as int,
                        self.spec_height() as int,
                        row as int,
                        self.spec_fill(),
                        self.spec_space(),
                    ).take(col as int));
                }
            }
            proof {
                let cells = row_cells(
                    data@,
                    minv as int,
                    maxv as int,
                    self.spec_height() as int,
                    row as int,
                    self.spec_fill(),
                    self.spec_space(),
                );
                assert(cells.take(data@.len() as int) =~= cells);
            }
            if row == 0 {
                push_char(&mut ret, ' ');
                push_u64(&mut ret, maxv);
            }
            if row == self.height - 1 {
                push_char(&mut ret, ' ');
                push_u64(&mut ret, minv);
            }
            push_char(&mut ret, '\n');
            row = row + 1;
            proof {
                assert(ret@ =~= rows_text(
                    data@,
                    minv,
                    maxv,
                    self.spec_height() as int,
                    row as int,
                    self.spec_fill(),
                    self.spec_space(),
                ));
            }
        }
        ret
    }
}

} // verus!
