//! The level grid: parsing a textual level map into a bounds-checked
//! two-dimensional tile grid, with padding and truncation rules for irregular
//! input, and fail-closed blocking queries.

use vstd::prelude::*;

use crate::array2::{
    array2_cells, array2_dim, array2_from_rows, array2_get, array2_transpose, TileArray,
};
use crate::tile::{spec_tile_of, LevelError, LevelTile};

verus! {

// ------------------------------------------------------------------
// The mathematical model of a level text: its lines and their tiles.
// ------------------------------------------------------------------

/// One trailing carriage return is not part of a line split at a newline.
pub open spec fn strip_cr(line: Seq<char>) -> Seq<char> {
    if line.len() > 0 && line.last() == '\r' {
        line.drop_last()
    } else {
        line
    }
}

/// Splits the remaining text `s` into lines, `cur` being the part of the
/// current line already consumed.
pub open spec fn split_rec(s: Seq<char>, cur: Seq<char>) -> Seq<Seq<char>>
    decreases s.len(),
{
    if s.len() == 0 {
        if cur.len() == 0 {
            seq![]
        } else {
            seq![cur]
        }
    } else if s[0] == '\n' {
        seq![strip_cr(cur)] + split_rec(s.skip(1), seq![])
    } else {
        split_rec(s.skip(1), cur.push(s[0]))
    }
}

/// The lines of a level text: split at newlines, one carriage return before a
/// newline dropped, a final line without a terminator kept, and a final
/// terminator adding no line.
pub open spec fn spec_lines(s: Seq<char>) -> Seq<Seq<char>> {
    split_rec(s, seq![])
}

/// The character sequences of a vector of lines.
pub open spec fn line_views(lines: Seq<Vec<char>>) -> Seq<Seq<char>> {
    lines.map_values(|l: Vec<char>| l@)
}

/// Whether every character the parser scans in this line (those before
/// `width`) is a recognized tile character.
pub open spec fn row_ok(line: Seq<char>, width: int) -> bool {
    forall|j: int| 0 <= j < line.len() && j < width ==> (#[trigger] spec_tile_of(line[j])) is Some
}

/// Whether every line of the level text scans cleanly.
pub open spec fn rows_ok(lines: Seq<Seq<char>>, width: int) -> bool {
    forall|i: int| 0 <= i < lines.len() ==> row_ok(#[trigger] lines[i], width)
}

/// The row of tiles a line yields: one tile per recognized character, capped
/// at `width` characters and padded on the right with `Empty` when the line
/// is shorter.
pub open spec fn parsed_row(line: Seq<char>, width: int) -> Seq<LevelTile> {
    Seq::new(
        width as nat,
        |j: int|
            if j < line.len() {
                spec_tile_of(line[j]).unwrap()
            } else {
                LevelTile::Empty
            },
    )
}

/// The rows of the whole text laid out flat, last line first: the grid stores
/// the first line of text at the highest y index.
pub open spec fn rows_flat(lines: Seq<Seq<char>>, width: int) -> Seq<LevelTile>
    decreases lines.len(),
{
    if lines.len() == 0 {
        seq![]
    } else {
        parsed_row(lines.last(), width) + rows_flat(lines.drop_last(), width)
    }
}

/// The largest cell count a level grid may hold; each single dimension is
/// held to the same bound, so even a grid with no cells cannot declare an
/// axis beyond what the storage could address.
pub const MAX_CELLS: usize = 0x7fff_ffff;

/// When parsing succeeds: the supplied height is the line count, every
/// scanned character is recognized, and the grid is of acceptable size in
/// each dimension and in all.
pub open spec fn parse_ok(text: Seq<char>, width: int, height: int) -> bool {
    &&& spec_lines(text).len() == height
    &&& rows_ok(spec_lines(text), width)
    &&& width <= MAX_CELLS
    &&& height <= MAX_CELLS
    &&& width * height <= MAX_CELLS
}

/// The tile at `(x, y)` of a parsed level: column `x` of the text line that
/// lands at height index `y`; the first text line is the highest `y`.
pub open spec fn spec_parsed_tile(text: Seq<char>, width: int, height: int, x: int, y: int) -> LevelTile {
    parsed_row(spec_lines(text)[height - 1 - y], width)[x]
}

pub proof fn lemma_rows_flat_len(lines: Seq<Seq<char>>, width: int)
    requires
        width >= 0,
    ensures
        rows_flat(lines, width).len() == lines.len() * width,
    decreases lines.len(),
{
    if lines.len() == 0 {
    } else {
        lemma_rows_flat_len(lines.drop_last(), width);
        assert((lines.len() - 1) * width + width == lines.len() * width) by (nonlinear_arith);
    }
}

pub proof fn lemma_rows_flat_index(lines: Seq<Seq<char>>, width: int, i: int, j: int)
    requires
        width > 0,
        0 <= i < lines.len(),
        0 <= j < width,
    ensures
        rows_flat(lines, width).len() == lines.len() * width,
        rows_flat(lines, width)[i * width + j] == parsed_row(lines[lines.len() - 1 - i], width)[j],
    decreases lines.len(),
{
    lemma_rows_flat_len(lines, width);
    lemma_rows_flat_len(lines.drop_last(), width);
    assert(i * width + j < lines.len() * width) by (nonlinear_arith)
        requires 0 <= j < width && 0 <= i < lines.len();
    if i == 0 {
        assert(rows_flat(lines, width)[j] == parsed_row(lines.last(), width)[j]);
    } else {
        assert(width <= i * width + j && i * width + j - width == (i - 1) * width + j) by (nonlinear_arith)
            requires 1 <= i && 0 <= j && width > 0;
        assert(rows_flat(lines, width)[i * width + j] == rows_flat(lines.drop_last(), width)[(i
            - 1) * width + j]);
        lemma_rows_flat_index(lines.drop_last(), width, i - 1, j);
        assert(lines.drop_last()[lines.drop_last().len() - 1 - (i - 1)] == lines[lines.len() - 1
            - i]);
    }
}

pub proof fn lemma_rows_flat_prepend(lines: Seq<Seq<char>>, width: int)
    requires
        lines.len() > 0,
    ensures
        rows_flat(lines, width) == rows_flat(lines.skip(1), width) + parsed_row(lines[0], width),
    decreases lines.len(),
{
    if lines.len() == 1 {
        assert(lines.skip(1).len() == 0);
        assert(lines.drop_last().len() == 0);
        assert(rows_flat(lines.skip(1), width) =~= Seq::<LevelTile>::empty());
        assert(rows_flat(lines.drop_last(), width) =~= Seq::<LevelTile>::empty());
        assert(lines.last() == lines[0]);
        assert(rows_flat(lines, width) =~= rows_flat(lines.skip(1), width) + parsed_row(
            lines[0],
            width,
        ));
    } else {
        lemma_rows_flat_prepend(lines.drop_last(), width);
        assert(lines.drop_last().skip(1) =~= lines.skip(1).drop_last());
        assert(lines.skip(1).last() == lines.last());
        assert(lines.drop_last()[0] == lines[0]);
        assert(lines.skip(1).len() == lines.len() - 1);
        assert(rows_flat(lines.skip(1), width) == parsed_row(lines.skip(1).last(), width)
            + rows_flat(lines.skip(1).drop_last(), width));
        assert(rows_flat(lines, width) =~= rows_flat(lines.skip(1), width) + parsed_row(
            lines[0],
            width,
        ));
    }
}

// ------------------------------------------------------------------
// Executable parsing.
// ------------------------------------------------------------------

/// Splits a level text into its lines.
pub fn split_lines(s: &str) -> (r: Vec<Vec<char>>)
    ensures
        line_views(r@) == spec_lines(s@),
{
    let n = s.unicode_len();
    let mut lines: Vec<Vec<char>> = Vec::new();
    let mut cur: Vec<char> = Vec::new();
    let mut i: usize = 0;
    proof {
        assert(s@.skip(0) == s@);
    }
    while i < n
        invariant
            n == s@.len(),
            i <= n,
            spec_lines(s@) == line_views(lines@) + split_rec(s@.skip(i as int), cur@),
        decreases n - i,
    {
        let ghost prev_rest = s@.skip(i as int);
        let ghost prev_cur = cur@;
        let ghost prev_lines = line_views(lines@);
        proof {
            assert(prev_rest[0] == s@[i as int]);
            assert(prev_rest.skip(1) == s@.skip(i as int + 1));
        }
        let c = s.get_char(i);
        if c == '\n' {
            if cur.len() > 0 && cur[cur.len() - 1] == '\r' {
                cur.pop();
            }
            proof {
                assert(cur@ == strip_cr(prev_cur));
            }
            lines.push(cur);
            cur = Vec::new();
            proof {
                assert(line_views(lines@) =~= prev_lines + seq![strip_cr(prev_cur)]);
                assert(prev_lines + (seq![strip_cr(prev_cur)] + split_rec(
                    s@.skip(i as int + 1),
                    seq![],
                )) == (prev_lines + seq![strip_cr(prev_cur)]) + split_rec(
                    s@.skip(i as int + 1),
                    seq![],
                ));
            }
        } else {
            cur.push(c);
        }
        i = i + 1;
    }
    proof {
        assert(s@.skip(n as int) =~= Seq::<char>::empty());
    }
    if cur.len() > 0 {
        lines.push(cur);
    }
    lines
}

/// Scans one line into a row of `width` tiles, padding with `Empty` and
/// ignoring characters beyond `width`.
pub fn parse_row(line: &Vec<char>, width: usize) -> (r: Result<Vec<LevelTile>, LevelError>)
    ensures
        r.is_ok() <==> row_ok(line@, width as int),
        r matches Ok(row) ==> row@ == parsed_row(line@, width as int),
        r matches Err(e) ==> e == LevelError::LevelLoadError,
{
    let mut row: Vec<LevelTile> = Vec::new();
    let mut j: usize = 0;
    while j < width
        invariant
            j <= width,
            row@.len() == j,
            forall|k: int| 0 <= k < j && k < line@.len() ==> (#[trigger] spec_tile_of(line@[k])) is Some,
            forall|k: int| 0 <= k < j ==> row@[k] == parsed_row(line@, width as int)[k],
        decreases width - j,
    {
        if j < line.len() {
            match LevelTile::new(line[j]) {
                Ok(t) => row.push(t),
                Err(e) => {
                    return Err(e);
                },
            }
        } else {
            row.push(LevelTile::Empty);
        }
        j = j + 1;
    }
    proof {
        assert(row@ =~= parsed_row(line@, width as int));
    }
    Ok(row)
}

// ------------------------------------------------------------------
// The level grid.
// ------------------------------------------------------------------

/// A parsed level: an id, a name, and a `width` by `height` grid of tiles,
/// immutable once constructed.
#[derive(Debug)]
pub struct Level {
    pub level: i32,
    pub name: String,
    pub width: usize,
    pub height: usize,
    pub data: TileArray,
}

impl Level {
    /// The stored array's dimensions match the advertised width and height.
    pub open spec fn wf(self) -> bool {
        array2_dim(self.data) == (self.width as int, self.height as int)
    }

    /// The tile stored at cell `(x, y)`.
    pub open spec fn spec_tile(self, x: int, y: int) -> LevelTile {
        array2_cells(self.data)[(x, y)]
    }

    pub open spec fn spec_in_bounds(self, x: int, y: int) -> bool {
        0 <= x < self.width && 0 <= y < self.height
    }

    /// The fail-closed occupancy rule: off-grid cells block, and in-grid
    /// cells block exactly when their tile does.
    pub open spec fn spec_blocked(self, x: int, y: int) -> bool {
        !self.spec_in_bounds(x, y) || self.spec_tile(x, y).spec_is_blocking()
    }

    /// Parses a level grid of the given dimensions from a level text.
    pub fn new(level: i32, name: String, width: usize, height: usize, text: &str) -> (r: Result<
        Level,
        LevelError,
    >)
        ensures
            r.is_ok() <==> parse_ok(text@, width as int, height as int),
            r matches Ok(l) ==> l.wf() && l.level == level && l.name@ == name@ && l.width == width
                && l.height == height && forall|x: int, y: int|
                0 <= x < width && 0 <= y < height ==> l.spec_tile(x, y) == spec_parsed_tile(
                    text@,
                    width as int,
                    height as int,
                    x,
                    y,
                ),
            r matches Err(e) ==> e == LevelError::LevelLoadError,
    {
        if width > MAX_CELLS || height > MAX_CELLS {
            return Err(LevelError::LevelLoadError);
        }
        let total = match width.checked_mul(height) {
            Some(t) => t,
            None => {
                return Err(LevelError::LevelLoadError);
            },
        };
        if total > MAX_CELLS {
            return Err(LevelError::LevelLoadError);
        }
        let lines = split_lines(text);
        let ghost lseq = line_views(lines@);
        if lines.len() != height {
            return Err(LevelError::LevelLoadError);
        }
        let mut v: Vec<LevelTile> = Vec::new();
        let mut r: usize = 0;
        while r < height
            invariant
                r <= height,
                height == lines@.len(),
                lseq == line_views(lines@),
                lseq == spec_lines(text@),
                width <= MAX_CELLS,
                height <= MAX_CELLS,
                width * height <= MAX_CELLS,
                v@ == rows_flat(lseq.skip(height - r), width as int),
                forall|i: int| height - r <= i < height ==> row_ok(#[trigger] lseq[i], width as int),
            decreases height - r,
        {
            let idx = height - 1 - r;
            let ghost prev_v = v@;
            proof {
                assert(lseq[idx as int] == lines@[idx as int]@);
            }
            match parse_row(&lines[idx], width) {
                Ok(mut row) => {
                    v.append(&mut row);
                },
                Err(e) => {
                    proof {
                        assert(!rows_ok(lseq, width as int));
                    }
                    return Err(e);
                },
            }
            proof {
                let suffix = lseq.skip(idx as int);
                lemma_rows_flat_prepend(suffix, width as int);
                assert(suffix.skip(1) =~= lseq.skip(height - r));
                assert(suffix[0] == lseq[idx as int]);
                assert(v@ == prev_v + parsed_row(lseq[idx as int], width as int));
            }
            r = r + 1;
        }
        proof {
            assert(lseq.skip(0) == lseq);
            lemma_rows_flat_len(lseq, width as int);
            assert(height * width == width * height) by (nonlinear_arith);
        }
        let arr = match array2_from_rows(height, width, v) {
            Ok(arr) => arr,
            Err(_) => vstd::pervasive::unreached(),
        };
        let arr = array2_transpose(arr);
        let result = Level { level, name, width, height, data: arr };
        proof {
            assert forall|x: int, y: int| 0 <= x < width && 0 <= y < height implies result.spec_tile(
                x,
                y,
            ) == spec_parsed_tile(text@, width as int, height as int, x, y) by {
                if width > 0 {
                    lemma_rows_flat_index(lseq, width as int, y, x);
                }
            }
        }
        Ok(result)
    }

    /// Builds a level from its textual record, computing the grid width as
    /// the longest line and the height as the line count.
    pub fn from_text(level: i32, name: String, text: &str) -> (r: Result<Level, LevelError>)
        ensures
            r.is_ok() <==> parse_ok(
                text@,
                max_line_len(spec_lines(text@)),
                spec_lines(text@).len() as int,
            ),
            r matches Ok(l) ==> l.wf() && l.level == level && l.name@ == name@ && l.width
                == max_line_len(spec_lines(text@)) && l.height == spec_lines(text@).len()
                && forall|x: int, y: int|
                0 <= x < l.width && 0 <= y < l.height ==> l.spec_tile(x, y) == spec_parsed_tile(
                    text@,
                    l.width as int,
                    l.height as int,
                    x,
                    y,
                ),
            r matches Err(e) ==> e == LevelError::LevelLoadError,
    {
        let lines = split_lines(text);
        let ghost lseq = line_views(lines@);
        let height = lines.len();
        let mut width: usize = 0;
        let mut i: usize = 0;
        while i < height
            invariant
                i <= height,
                height == lines@.len(),
                lseq == line_views(lines@),
                width as int == max_line_len(lseq.take(i as int)),
            decreases height - i,
        {
            let len = lines[i].len();
            if len > width {
                width = len;
            }
            proof {
                assert(lseq.take(i + 1).drop_last() =~= lseq.take(i as int));
                assert(lseq.take(i + 1).last() == lseq[i as int]);
            }
            i = i + 1;
        }
        proof {
            assert(lseq.take(height as int) == lseq);
        }
        Self::new(level, name, width, height, text)
    }

    /// A pure range check of a cell coordinate.
    pub fn in_bounds(&self, x: u32, y: u32) -> (r: bool)
        ensures
            r == self.spec_in_bounds(x as int, y as int),
    {
        (x as usize) < self.width && (y as usize) < self.height
    }

    /// The tile at `(x, y)`, or `OutOfBoundsError` when the cell is off-grid.
    pub fn get_tile(&self, x: u32, y: u32) -> (r: Result<LevelTile, LevelError>)
        requires
            self.wf(),
        ensures
            r == if self.spec_in_bounds(x as int, y as int) {
                Result::<LevelTile, LevelError>::Ok(self.spec_tile(x as int, y as int))
            } else {
                Result::<LevelTile, LevelError>::Err(LevelError::OutOfBoundsError)
            },
    {
        if !self.in_bounds(x, y) {
            return Err(LevelError::OutOfBoundsError);
        }
        Ok(array2_get(&self.data, x as usize, y as usize))
    }

    /// Whether the cell `(x, y)` forbids entry: every off-grid cell blocks,
    /// an in-grid cell blocks exactly when its tile does.
    pub fn is_blocking(&self, x: u32, y: u32) -> (r: bool)
        requires
            self.wf(),
        ensures
            r == self.spec_blocked(x as int, y as int),
    {
        match self.get_tile(x, y) {
            Ok(t) => t.is_blocking(),
            Err(_) => true,
        }
    }
}

/// A level text with an unrecognized character anywhere the parser scans it
/// (among the first `width` characters of a line) never parses, whatever the
/// supplied dimensions: `Level::new` returns `LevelLoadError` on it.
pub proof fn lemma_unrecognized_char_rejected(
    text: Seq<char>,
    width: int,
    height: int,
    i: int,
    j: int,
)
    requires
        0 <= i < spec_lines(text).len(),
        0 <= j < spec_lines(text)[i].len(),
        j < width,
        spec_tile_of(spec_lines(text)[i][j]) is None,
    ensures
        !parse_ok(text, width, height),
{
    assert(!row_ok(spec_lines(text)[i], width));
}

/// The length of the longest line, the grid width of a level text.
pub open spec fn max_line_len(lines: Seq<Seq<char>>) -> int
    decreases lines.len(),
{
    if lines.len() == 0 {
        0
    } else {
        let rest = max_line_len(lines.drop_last());
        if lines.last().len() > rest {
            lines.last().len() as int
        } else {
            rest
        }
    }
}

} // verus!
