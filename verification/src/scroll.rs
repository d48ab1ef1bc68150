//! Scroll capture: stitching successive captures of a scrolling region into
//! one long image.
//!
//! Two frames of the same region, taken before and after a scroll, are
//! compared by sampling: the top rows of the new frame are searched for in
//! the old one, first every 8 rows, then row by row around the best match.
//! The rows scrolled into view are appended below the long image.
use std::path::PathBuf;
use vstd::prelude::*;

verus! {

/// Wheel notches of one scroll step (negative scrolls down).
pub const SCROLL_DELTA: i32 = -4;

/// Milliseconds to wait after a scroll step for the page to settle.
pub const SCROLL_WAIT_MS: u64 = 400;

/// Rows of the new frame searched for in the old one.
pub const OVERLAP_SEARCH_ROWS: u32 = 80;

/// Largest mean difference per sampled pixel (sum over red, green and blue)
/// for two rows to count as the same.
pub const PIXEL_DIFF_THRESHOLD: u8 = 15;

/// Smallest offset that counts as a scroll.
pub const MIN_SCROLL_OFFSET: u32 = 5;

/// An RGBA image: `rows` holds the rows top to bottom, each as `width`
/// pixels of four bytes (red, green, blue, alpha).
pub struct RgbaFrame {
    pub width: u32,
    pub height: u32,
    pub rows: Vec<Vec<u8>>,
}

impl RgbaFrame {
    /// There are `height` rows of `4 * width` bytes.
    pub open spec fn wf(&self) -> bool {
        &&& self.rows@.len() == self.height
        &&& forall|y: int| 0 <= y < self.height ==> #[trigger] self.rows@[y]@.len() == 4 * self.width
    }

    /// Channel `c` (0 red, 1 green, 2 blue, 3 alpha) of pixel (`x`, `y`).
    pub open spec fn channel(&self, x: int, y: int, c: int) -> u8 {
        self.rows@[y]@[4 * x + c]
    }
}

impl RgbaFrame {
    /// An image of the given size with every byte zero (black, fully
    /// transparent).
    pub fn new(width: u32, height: u32) -> (f: RgbaFrame)
        requires
            4 * width * height <= usize::MAX,
        ensures
            f.wf(),
            f.width == width,
            f.height == height,
            forall|y: int, i: int|
                0 <= y < height && 0 <= i < 4 * width ==> #[trigger] f.rows@[y]@[i] == 0,
    {
        let mut rows: Vec<Vec<u8>> = Vec::new();
        let mut y: u32 = 0;
        while y < height
            invariant
                4 * width * height <= usize::MAX,
                y <= height,
                rows@.len() == y,
                forall|k: int| 0 <= k < y ==> #[trigger] rows@[k]@.len() == 4 * width,
                forall|k: int, i: int|
                    0 <= k < y && 0 <= i < 4 * width ==> #[trigger] rows@[k]@[i] == 0,
            decreases height - y,
        {
            assert(4 * width <= 4 * width * height) by (nonlinear_arith)
                requires
                    y < height,
            ;
            let row_len = 4 * (width as usize);
            let mut row: Vec<u8> = Vec::new();
            let mut i: usize = 0;
            while i < row_len
                invariant
                    i <= row_len,
                    row@.len() == i,
                    forall|j: int| 0 <= j < i ==> #[trigger] row@[j] == 0,
                decreases row_len - i,
            {
                row.push(0u8);
                i = i + 1;
            }
            rows.push(row);
            y = y + 1;
        }
        RgbaFrame { width, height, rows }
    }

    /// Writes `other` into this image with its top left corner at (`x`,
    /// `y`); fails, changing nothing, unless it fits inside.
    pub fn copy_from(&mut self, other: &RgbaFrame, x: u32, y: u32) -> (ok: bool)
        requires
            old(self).wf(),
            other.wf(),
        ensures
            ok == (x + other.width <= old(self).width && y + other.height <= old(self).height),
            final(self).wf(),
            final(self).width == old(self).width,
            final(self).height == old(self).height,
            forall|py: int, i: int|
                0 <= py < old(self).height && 0 <= i < 4 * old(self).width ==> #[trigger] final(self).rows@[py]@[i] == if ok && y <= py < y + other.height && 4 * x <= i < 4 * (x
                    + other.width) {
                    other.rows@[py - y]@[i - 4 * x]
                } else {
                    old(self).rows@[py]@[i]
                },
    {
        if other.width > self.width || self.width - other.width < x || other.height
            > self.height || self.height - other.height < y {
            return false;
        }
        let mut k: u32 = 0;
        while k < other.height
            invariant
                other.wf(),
                self.wf(),
                self.width == old(self).width,
                self.height == old(self).height,
                x + other.width <= self.width,
                y + other.height <= self.height,
                k <= other.height,
                forall|py: int, i: int|
                    0 <= py < self.height && 0 <= i < 4 * self.width ==> #[trigger] self.rows@[py]@[i]
                        == if y <= py < y + k && 4 * x <= i < 4 * (x + other.width) {
                        other.rows@[py - y]@[i - 4 * x]
                    } else {
                        old(self).rows@[py]@[i]
                    },
            decreases other.height - k,
        {
            let target = (y + k) as usize;
            let src = &other.rows[k as usize];
            let old_row = &self.rows[target];
            assert(old_row@.len() == old_row.len());
            let start = 4 * (x as usize);
            let end = 4 * ((x + other.width) as usize);
            let mut row: Vec<u8> = Vec::new();
            let mut i: usize = 0;
            while i < old_row.len()
                invariant
                    old_row@.len() == 4 * self.width,
                    src@.len() == 4 * other.width,
                    start == 4 * x,
                    end == 4 * (x + other.width),
                    end <= old_row@.len(),
                    i <= old_row@.len(),
                    row@.len() == i,
                    forall|j: int|
                        0 <= j < i ==> #[trigger] row@[j] == if start <= j < end {
                            src@[j - start]
                        } else {
                            old_row@[j]
                        },
                decreases old_row@.len() - i,
            {
                if start <= i && i < end {
                    row.push(src[i - start]);
                } else {
                    row.push(old_row[i]);
                }
                i = i + 1;
            }
            self.rows.set(target, row);
            k = k + 1;
        }
        true
    }

    /// A copy of the `width` by `height` part of this image whose top left
    /// corner is (`x`, `y`).
    pub fn crop(&self, x: u32, y: u32, width: u32, height: u32) -> (f: RgbaFrame)
        requires
            self.wf(),
            x + width <= self.width,
            y + height <= self.height,
        ensures
            f.wf(),
            f.width == width,
            f.height == height,
            forall|py: int, i: int|
                0 <= py < height && 0 <= i < 4 * width ==> #[trigger] f.rows@[py]@[i]
                    == self.rows@[py + y]@[i + 4 * x],
    {
        let mut rows: Vec<Vec<u8>> = Vec::new();
        let mut k: u32 = 0;
        while k < height
            invariant
                self.wf(),
                x + width <= self.width,
                y + height <= self.height,
                k <= height,
                rows@.len() == k,
                forall|j: int| 0 <= j < k ==> #[trigger] rows@[j]@.len() == 4 * width,
                forall|py: int, i: int|
                    0 <= py < k && 0 <= i < 4 * width ==> #[trigger] rows@[py]@[i]
                        == self.rows@[py + y]@[i + 4 * x],
            decreases height - k,
        {
            let src = &self.rows[(y + k) as usize];
            assert(src@.len() == src.len());
            let start = 4 * (x as usize);
            let len = 4 * (width as usize);
            let mut row: Vec<u8> = Vec::new();
            let mut i: usize = 0;
            while i < len
                invariant
                    src@.len() == 4 * self.width,
                    start == 4 * x,
                    len == 4 * width,
                    start + len <= src@.len(),
                    src@.len() <= usize::MAX,
                    i <= len,
                    row@.len() == i,
                    forall|j: int| 0 <= j < i ==> #[trigger] row@[j] == src@[j + start],
                decreases len - i,
            {
                row.push(src[start + i]);
                i = i + 1;
            }
            rows.push(row);
            k = k + 1;
        }
        RgbaFrame { width, height, rows }
    }
}

impl RgbaFrame {
    /// The image whose pixels are the first `4 * width * height` bytes of
    /// `data`, row after row; `None` when `data` is too short.
    pub fn from_raw(width: u32, height: u32, data: Vec<u8>) -> (f: Option<RgbaFrame>)
        ensures
            match f {
                None => 4 * width * height > data@.len(),
                Some(f) => {
                    &&& 4 * width * height <= data@.len()
                    &&& f.wf()
                    &&& f.width == width
                    &&& f.height == height
                    &&& forall|y: int, i: int|
                        0 <= y < height && 0 <= i < 4 * width ==> #[trigger] f.rows@[y]@[i]
                            == data@[4 * width * y + i]
                },
            },
    {
        let row_len_wide = 4 * (width as u64);
        assert(row_len_wide * height <= 4 * 4294967295 * 4294967295) by (nonlinear_arith)
            requires
                row_len_wide <= 4 * 4294967295,
                height <= 4294967295,
        ;
        let total_wide = row_len_wide as u128 * (height as u128);
        if total_wide > data.len() as u128 {
            return None;
        }
        if height == 0 {
            return Some(RgbaFrame { width, height, rows: Vec::new() });
        }
        assert(4 * width <= 4 * width * height) by (nonlinear_arith)
            requires
                height > 0,
        ;
        let row_len = row_len_wide as usize;
        let mut rows: Vec<Vec<u8>> = Vec::new();
        let mut y: u32 = 0;
        let mut offset: usize = 0;
        while y < height
            invariant
                4 * width * height <= data@.len(),
                data@.len() <= usize::MAX,
                row_len == 4 * width,
                y <= height,
                offset == 4 * width * y,
                rows@.len() == y,
                forall|k: int| 0 <= k < y ==> #[trigger] rows@[k]@.len() == 4 * width,
                forall|k: int, i: int|
                    0 <= k < y && 0 <= i < 4 * width ==> #[trigger] rows@[k]@[i] == data@[4 * width
                        * k + i],
            decreases height - y,
        {
            assert(4 * width * y + 4 * width <= 4 * width * height) by (nonlinear_arith)
                requires
                    y < height,
            ;
            let mut row: Vec<u8> = Vec::new();
            let mut i: usize = 0;
            while i < row_len
                invariant
                    row_len == 4 * width,
                    offset + row_len <= data@.len(),
                    data@.len() <= usize::MAX,
                    i <= row_len,
                    row@.len() == i,
                    forall|j: int| 0 <= j < i ==> #[trigger] row@[j] == data@[offset + j],
                decreases row_len - i,
            {
                row.push(data[offset + i]);
                i = i + 1;
            }
            rows.push(row);
            offset = offset + row_len;
            y = y + 1;
            assert(offset == 4 * width * y) by (nonlinear_arith)
                requires
                    offset == 4 * width * (y - 1) + 4 * width,
            ;
        }
        Some(RgbaFrame { width, height, rows })
    }

    /// The bytes of all rows, top row first.
    pub fn into_raw(self) -> (data: Vec<u8>)
        requires
            self.wf(),
        ensures
            data@.len() == 4 * self.width * self.height,
            forall|y: int, i: int|
                0 <= y < self.height && 0 <= i < 4 * self.width ==> data@[4 * self.width * y + i]
                    == #[trigger] self.rows@[y]@[i],
    {
        let mut data: Vec<u8> = Vec::new();
        let mut y: usize = 0;
        while y < self.rows.len()
            invariant
                self.wf(),
                y <= self.height,
                data@.len() == 4 * self.width * y,
                forall|k: int, i: int|
                    0 <= k < y && 0 <= i < 4 * self.width ==> data@[4 * self.width * k + i]
                        == #[trigger] self.rows@[k]@[i],
            decreases self.height - y,
        {
            let row = &self.rows[y];
            let ghost before = data@;
            let mut i: usize = 0;
            while i < row.len()
                invariant
                    row@.len() == 4 * self.width,
                    i <= row@.len(),
                    data@.len() == before.len() + i,
                    forall|j: int| 0 <= j < before.len() ==> data@[j] == before[j],
                    forall|j: int| 0 <= j < i ==> data@[before.len() + j] == #[trigger] row@[j],
                decreases row@.len() - i,
            {
                data.push(row[i]);
                i = i + 1;
            }
            proof {
                assert forall|k: int, i: int|
                    0 <= k < y + 1 && 0 <= i < 4 * self.width implies data@[4 * self.width * k + i]
                    == #[trigger] self.rows@[k]@[i] by {
                    if k < y {
                        assert(4 * self.width * k + i < 4 * self.width * y) by (nonlinear_arith)
                            requires
                                k < y,
                                i < 4 * self.width,
                        ;
                    } else {
                        assert(4 * self.width * k == before.len());
                    }
                }
                assert(data@.len() == 4 * self.width * (y + 1)) by (nonlinear_arith)
                    requires
                        data@.len() == 4 * self.width * y + 4 * self.width,
                ;
            }
            y = y + 1;
        }
        data
    }
}

pub open spec fn abs_diff(a: u8, b: u8) -> int {
    if a >= b {
        a - b
    } else {
        b - a
    }
}

/// Difference of pixel `x` of row `ya` of `a` and of row `yb` of `b`: the
/// sum over red, green and blue of the absolute differences.
pub open spec fn pixel_diff(a: RgbaFrame, b: RgbaFrame, x: int, ya: int, yb: int) -> int {
    abs_diff(a.channel(x, ya, 0), b.channel(x, yb, 0)) + abs_diff(a.channel(x, ya, 1), b.channel(x, yb, 1))
        + abs_diff(a.channel(x, ya, 2), b.channel(x, yb, 2))
}

/// Sum of [`pixel_diff`] over the first `n` sampled pixels of a row, taking
/// every fourth pixel (x = 0, 4, 8, ...).
pub open spec fn line_diff(a: RgbaFrame, b: RgbaFrame, ya: int, yb: int, n: nat) -> int
    decreases n,
{
    if n == 0 {
        0
    } else {
        line_diff(a, b, ya, yb, (n - 1) as nat) + pixel_diff(a, b, 4 * (n - 1), ya, yb)
    }
}

/// Number of sampled pixels in the first `width` pixels of a row.
pub open spec fn samples(width: int) -> nat {
    ((width + 3) / 4) as nat
}

/// Sum of the sampled differences of rows `ya + r` of `a` and `yb + r` of
/// `b`, for `r` in `0..rows`, over rows that exist in both frames.
pub open spec fn rows_diff(a: RgbaFrame, b: RgbaFrame, ya: int, yb: int, rows: nat, width: int) -> int
    decreases rows,
{
    if rows == 0 {
        0
    } else {
        let r = rows - 1;
        rows_diff(a, b, ya, yb, (rows - 1) as nat, width) + if ya + r < a.height && yb + r
            < b.height {
            line_diff(a, b, ya + r, yb + r, samples(width))
        } else {
            0
        }
    }
}

proof fn lemma_line_diff_bounds(a: RgbaFrame, b: RgbaFrame, ya: int, yb: int, n: nat, m: nat)
    requires
        m <= n,
    ensures
        0 <= line_diff(a, b, ya, yb, m) <= line_diff(a, b, ya, yb, n),
        line_diff(a, b, ya, yb, n) <= 765 * n,
    decreases n,
{
    if n > 0 {
        if m < n {
            lemma_line_diff_bounds(a, b, ya, yb, (n - 1) as nat, m);
        } else {
            lemma_line_diff_bounds(a, b, ya, yb, (n - 1) as nat, (n - 1) as nat);
        }
    }
}

proof fn lemma_rows_diff_bounds(
    a: RgbaFrame,
    b: RgbaFrame,
    ya: int,
    yb: int,
    rows: nat,
    k: nat,
    width: int,
)
    requires
        k <= rows,
    ensures
        0 <= rows_diff(a, b, ya, yb, k, width) <= rows_diff(a, b, ya, yb, rows, width),
        rows_diff(a, b, ya, yb, rows, width) <= 765 * samples(width) * rows,
    decreases rows,
{
    if rows > 0 {
        let r = rows - 1;
        lemma_line_diff_bounds(a, b, ya + r, yb + r, samples(width), samples(width));
        if k < rows {
            lemma_rows_diff_bounds(a, b, ya, yb, (rows - 1) as nat, k, width);
        } else {
            lemma_rows_diff_bounds(a, b, ya, yb, (rows - 1) as nat, (rows - 1) as nat, width);
        }
        assert(765 * samples(width) * (rows - 1) + 765 * samples(width) == 765 * samples(width)
            * rows) by (nonlinear_arith);
    }
}

/// Once a row is missing from one of the frames, so are all further rows.
proof fn lemma_rows_diff_past_end(
    a: RgbaFrame,
    b: RgbaFrame,
    ya: int,
    yb: int,
    k: nat,
    rows: nat,
    width: int,
)
    requires
        k <= rows,
        !(ya + k < a.height && yb + k < b.height),
    ensures
        rows_diff(a, b, ya, yb, rows, width) == rows_diff(a, b, ya, yb, k, width),
    decreases rows,
{
    if rows > k {
        lemma_rows_diff_past_end(a, b, ya, yb, k, (rows - 1) as nat, width);
    }
}

fn abs_diff_u8(a: u8, b: u8) -> (d: u64)
    ensures
        d == abs_diff(a, b),
{
    if a >= b {
        (a - b) as u64
    } else {
        (b - a) as u64
    }
}

/// Sum of the differences between `rows` rows of `prev_frame` from
/// `prev_y` and of `new_frame` from `new_y`, over every fourth pixel of the
/// first `width` pixels of each row (see [`rows_diff`]); it stops at the
/// first row missing from either frame.
pub fn compute_row_diff(
    prev_frame: &RgbaFrame,
    new_frame: &RgbaFrame,
    prev_y: u32,
    new_y: u32,
    rows: u32,
    width: u32,
) -> (total: u64)
    requires
        prev_frame.wf(),
        new_frame.wf(),
        width <= prev_frame.width,
        width <= new_frame.width,
        rows > 0 && prev_y < prev_frame.height && new_y < new_frame.height ==> width <= u32::MAX
            - 3,
        rows_diff(*prev_frame, *new_frame, prev_y as int, new_y as int, rows as nat, width as int)
            <= u64::MAX,
    ensures
        total == rows_diff(
            *prev_frame,
            *new_frame,
            prev_y as int,
            new_y as int,
            rows as nat,
            width as int,
        ),
{
    let ghost a = *prev_frame;
    let ghost b = *new_frame;
    let ghost full = rows_diff(a, b, prev_y as int, new_y as int, rows as nat, width as int);
    let mut total_diff: u64 = 0;
    let sample_step: u32 = 4;
    let mut row: u32 = 0;
    while row < rows
        invariant
            prev_frame.wf(),
            new_frame.wf(),
            a == *prev_frame,
            b == *new_frame,
            width <= prev_frame.width,
            width <= new_frame.width,
            rows > 0 && prev_y < prev_frame.height && new_y < new_frame.height ==> width
                <= u32::MAX - 3,
            full == rows_diff(a, b, prev_y as int, new_y as int, rows as nat, width as int),
            full <= u64::MAX,
            sample_step == 4,
            row <= rows,
            row > 0 ==> prev_y + row - 1 < prev_frame.height && new_y + row - 1
                < new_frame.height,
            total_diff == rows_diff(a, b, prev_y as int, new_y as int, row as nat, width as int),
        ensures
            total_diff == full,
        decreases rows - row,
    {
        let py = prev_y + row;
        let ny = new_y + row;

        if py >= prev_frame.height || ny >= new_frame.height {
            proof {
                lemma_rows_diff_past_end(a, b, prev_y as int, new_y as int, row as nat, rows as nat, width as int);
            }
            break;
        }
        proof {
            lemma_rows_diff_bounds(a, b, prev_y as int, new_y as int, rows as nat, (row + 1) as nat, width as int);
            lemma_line_diff_bounds(a, b, py as int, ny as int, samples(width as int), samples(width as int));
        }
        let ghost before = total_diff;
        let mut x: u32 = 0;
        while x < width
            invariant
                prev_frame.wf(),
                new_frame.wf(),
                a == *prev_frame,
                b == *new_frame,
                width <= prev_frame.width,
                width <= new_frame.width,
                width <= u32::MAX - 3,
                py < prev_frame.height,
                ny < new_frame.height,
                sample_step == 4,
                x % 4 == 0,
                x <= width + 3,
                x < width ==> (x / 4) < samples(width as int),
                x >= width ==> (x / 4) == samples(width as int),
                before + line_diff(a, b, py as int, ny as int, samples(width as int)) <= u64::MAX,
                total_diff == before + line_diff(a, b, py as int, ny as int, (x / 4) as nat),
            decreases width + 3 - x,
        {
            proof {
                lemma_line_diff_bounds(a, b, py as int, ny as int, samples(width as int), (x / 4 + 1) as nat);
                assert(prev_frame.rows@[py as int]@.len() == 4 * prev_frame.width);
                assert(new_frame.rows@[ny as int]@.len() == 4 * new_frame.width);
            }
            let p = &prev_frame.rows[py as usize];
            let n = &new_frame.rows[ny as usize];
            assert(p@.len() == p.len());
            let i = 4 * (x as usize);
            let dr = abs_diff_u8(p[i], n[i]);
            let dg = abs_diff_u8(p[i + 1], n[i + 1]);
            let db = abs_diff_u8(p[i + 2], n[i + 2]);
            total_diff += dr + dg + db;
            x += sample_step;
        }
        row += 1;
    }
    total_diff
}

/// Number of top rows of the new frame searched for: `OVERLAP_SEARCH_ROWS`,
/// or a quarter of the frame height when that is smaller.
pub open spec fn template_rows(screen_height: int) -> int {
    if OVERLAP_SEARCH_ROWS < screen_height / 4 {
        OVERLAP_SEARCH_ROWS as int
    } else {
        screen_height / 4
    }
}

/// How badly the top `t` rows of `b` match the rows of `a` starting at `y`.
pub open spec fn match_score(a: RgbaFrame, b: RgbaFrame, y: int, t: int, w: int) -> int {
    rows_diff(a, b, y, 0, t as nat, w)
}

/// Among the offsets `lo`, `lo + step`, ..., `lo + (count - 1) * step`, the
/// first one with the lowest [`match_score`].
pub open spec fn first_best_offset(
    a: RgbaFrame,
    b: RgbaFrame,
    t: int,
    w: int,
    lo: int,
    step: int,
    count: nat,
) -> int
    decreases count,
{
    if count <= 1 {
        lo
    } else {
        let prior = first_best_offset(a, b, t, w, lo, step, (count - 1) as nat);
        let y = lo + step * (count - 1);
        if match_score(a, b, y, t, w) < match_score(a, b, prior, t, w) {
            y
        } else {
            prior
        }
    }
}

/// The vertical scroll between `prev` and `new`, `screen_height` rows
/// high: the offset in `prev` where the top rows of `new` match best,
/// searched on every 8th offset first and then one by one within 8 of the
/// best of those; 0 when no rows or columns can be compared or when even the
/// best match differs by more than `PIXEL_DIFF_THRESHOLD` per sampled
/// pixel on average (per row and column compared).
pub open spec fn scroll_offset_spec(prev: RgbaFrame, new: RgbaFrame, screen_height: int) -> int {
    let w = if prev.width < new.width {
        prev.width as int
    } else {
        new.width as int
    };
    let t = template_rows(screen_height);
    if t == 0 || w == 0 {
        0
    } else {
        let max_offset = screen_height - t;
        let coarse = first_best_offset(prev, new, t, w, 0, 8, (max_offset / 8 + 1) as nat);
        let fine_start = if coarse >= 8 {
            coarse - 8
        } else {
            0
        };
        let fine_end = if coarse + 8 < max_offset {
            coarse + 8
        } else {
            max_offset
        };
        let best = first_best_offset(
            prev,
            new,
            t,
            w,
            fine_start,
            1,
            (fine_end - fine_start + 1) as nat,
        );
        if match_score(prev, new, best, t, w) / (t * w) > PIXEL_DIFF_THRESHOLD {
            0
        } else {
            best
        }
    }
}

proof fn lemma_first_best_in_range(
    a: RgbaFrame,
    b: RgbaFrame,
    t: int,
    w: int,
    lo: int,
    step: int,
    count: nat,
)
    requires
        count >= 1,
        step >= 1,
    ensures
        lo <= first_best_offset(a, b, t, w, lo, step, count) <= lo + step * (count - 1),
    decreases count,
{
    if count > 1 {
        lemma_first_best_in_range(a, b, t, w, lo, step, (count - 1) as nat);
        assert(step * (count - 2) <= step * (count - 1)) by (nonlinear_arith)
            requires
                step >= 1,
                count >= 2,
        ;
    }
}

/// The score of any offset fits, with room to spare, in 64 bits.
proof fn lemma_score_bound(a: RgbaFrame, b: RgbaFrame, y: int, t: int, w: int)
    requires
        0 <= t <= OVERLAP_SEARCH_ROWS,
        0 <= w <= u32::MAX,
    ensures
        0 <= match_score(a, b, y, t, w) < u64::MAX,
{
    lemma_rows_diff_bounds(a, b, y, 0, t as nat, t as nat, w);
    assert(765 * samples(w) * t <= 765 * 1073741824 * 80) by (nonlinear_arith)
        requires
            0 <= samples(w) <= 1073741824,
            0 <= t <= 80,
    ;
}

/// Finds the vertical scroll between two captures of the same region (see
/// [`scroll_offset_spec`]).
pub fn find_scroll_offset(prev_frame: &RgbaFrame, new_frame: &RgbaFrame, screen_height: u32) -> (offset: u32)
    requires
        prev_frame.wf(),
        new_frame.wf(),
        template_rows(screen_height as int) > 0 && prev_frame.width > 0 && new_frame.width > 0
            && prev_frame.height > 0 && new_frame.height > 0 ==> prev_frame.width <= u32::MAX - 3
            || new_frame.width <= u32::MAX - 3,
    ensures
        offset == scroll_offset_spec(*prev_frame, *new_frame, screen_height as int),
{
    let ghost a = *prev_frame;
    let ghost b = *new_frame;
    let width = if prev_frame.width < new_frame.width {
        prev_frame.width
    } else {
        new_frame.width
    };
    let template_height = if OVERLAP_SEARCH_ROWS < screen_height / 4 {
        OVERLAP_SEARCH_ROWS
    } else {
        screen_height / 4
    };

    if template_height == 0 || width == 0 {
        return 0;
    }

    let max_search_offset = screen_height.saturating_sub(template_height);
    let mut best_offset = 0u32;
    let mut best_score = u64::MAX;

    let coarse_step = 8u32;
    let mut coarse_best = 0u32;
    let mut coarse_best_score = u64::MAX;

    let mut y = 0u32;
    while y <= max_search_offset
        invariant
            prev_frame.wf(),
            new_frame.wf(),
            a == *prev_frame,
            b == *new_frame,
            width == if a.width < b.width {
                a.width
            } else {
                b.width
            },
            0 < width,
            0 < template_height <= OVERLAP_SEARCH_ROWS,
            template_height == template_rows(screen_height as int),
            max_search_offset == screen_height - template_height,
            prev_frame.height > 0 && new_frame.height > 0 ==> width <= u32::MAX - 3,
            coarse_step == 8,
            y % 8 == 0,
            y <= max_search_offset + 8,
            y == 0 ==> coarse_best == 0 && coarse_best_score == u64::MAX,
            y > 0 ==> coarse_best == first_best_offset(a, b, template_height as int, width as int, 0, 8, (y / 8) as nat)
                && coarse_best_score == match_score(a, b, coarse_best as int, template_height as int, width as int),
        decreases max_search_offset + 8 - y,
    {
        proof {
            lemma_score_bound(a, b, y as int, template_height as int, width as int);
        }
        let score = compute_row_diff(prev_frame, new_frame, y, 0, template_height, width);
        if score < coarse_best_score {
            coarse_best_score = score;
            coarse_best = y;
        }
        proof {
            if y > 0 {
                assert(y as int == 0 + 8 * ((y + 8) / 8 - 1));
            }
        }
        y += coarse_step;
    }
    assert(y / 8 == max_search_offset / 8 + 1);
    let ghost coarse_count = (max_search_offset / 8 + 1) as nat;
    proof {
        lemma_first_best_in_range(a, b, template_height as int, width as int, 0, 8, coarse_count);
    }

    let fine_start = coarse_best.saturating_sub(coarse_step);
    let fine_end = if coarse_best + coarse_step < max_search_offset {
        coarse_best + coarse_step
    } else {
        max_search_offset
    };

    let mut y = fine_start;
    while y <= fine_end
        invariant
            prev_frame.wf(),
            new_frame.wf(),
            a == *prev_frame,
            b == *new_frame,
            width == if a.width < b.width {
                a.width
            } else {
                b.width
            },
            0 < width,
            0 < template_height <= OVERLAP_SEARCH_ROWS,
            prev_frame.height > 0 && new_frame.height > 0 ==> width <= u32::MAX - 3,
            fine_start <= fine_end,
            fine_end <= max_search_offset,
            max_search_offset == screen_height - template_height,
            fine_start <= y <= fine_end + 1,
            y == fine_start ==> best_offset == 0 && best_score == u64::MAX,
            y > fine_start ==> best_offset == first_best_offset(a, b, template_height as int, width as int, fine_start as int, 1, (y - fine_start) as nat)
                && best_score == match_score(a, b, best_offset as int, template_height as int, width as int),
        decreases fine_end + 1 - y,
    {
        proof {
            lemma_score_bound(a, b, y as int, template_height as int, width as int);
        }
        let score = compute_row_diff(prev_frame, new_frame, y, 0, template_height, width);
        if score < best_score {
            best_score = score;
            best_offset = y;
        }
        y += 1;
    }

    assert(y == fine_end + 1);
    assert(fine_start as int == (if coarse_best >= 8 {
        coarse_best - 8
    } else {
        0
    }));
    assert(0 < template_height * width <= 80 * 4294967295) by (nonlinear_arith)
        requires
            0 < template_height <= 80,
            0 < width <= u32::MAX,
    ;
    assert(coarse_best == first_best_offset(a, b, template_height as int, width as int, 0, 8, coarse_count));
    assert(fine_end as int == (if coarse_best + 8 < max_search_offset {
        coarse_best + 8
    } else {
        max_search_offset as int
    }));
    assert(best_offset == first_best_offset(a, b, template_height as int, width as int, fine_start as int, 1, (fine_end - fine_start + 1) as nat));
    let denominator = template_height as u64 * width as u64;
    let denominator = if denominator > 1 {
        denominator
    } else {
        1
    };
    let avg_diff_per_pixel = best_score / denominator;
    if avg_diff_per_pixel > PIXEL_DIFF_THRESHOLD as u64 {
        return 0;
    }

    best_offset
}

/// The offset never exceeds the number of rows that can be searched.
pub proof fn lemma_scroll_offset_bound(prev: RgbaFrame, new: RgbaFrame, screen_height: int)
    requires
        0 <= screen_height,
    ensures
        0 <= scroll_offset_spec(prev, new, screen_height) <= screen_height,
{
    let w = if prev.width < new.width {
        prev.width as int
    } else {
        new.width as int
    };
    let t = template_rows(screen_height);
    if t != 0 && w != 0 {
        let max_offset = screen_height - t;
        let count = (max_offset / 8 + 1) as nat;
        lemma_first_best_in_range(prev, new, t, w, 0, 8, count);
        let coarse = first_best_offset(prev, new, t, w, 0, 8, count);
        assert(coarse <= max_offset);
        let fine_start = if coarse >= 8 {
            coarse - 8
        } else {
            0
        };
        let fine_end = if coarse + 8 < max_offset {
            coarse + 8
        } else {
            max_offset
        };
        lemma_first_best_in_range(prev, new, t, w, fine_start, 1, (fine_end - fine_start + 1) as nat);
    }
}

proof fn lemma_same_rows_no_diff(f: RgbaFrame, y: int, n: nat)
    ensures
        line_diff(f, f, y, y, n) == 0,
    decreases n,
{
    if n > 0 {
        lemma_same_rows_no_diff(f, y, (n - 1) as nat);
    }
}

proof fn lemma_same_frame_score_zero(f: RgbaFrame, rows: nat, w: int)
    ensures
        rows_diff(f, f, 0, 0, rows, w) == 0,
    decreases rows,
{
    if rows > 0 {
        lemma_same_frame_score_zero(f, (rows - 1) as nat, w);
        lemma_same_rows_no_diff(f, rows - 1, samples(w));
    }
}

proof fn lemma_first_best_keeps_perfect_match(
    a: RgbaFrame,
    b: RgbaFrame,
    t: int,
    w: int,
    lo: int,
    step: int,
    count: nat,
)
    requires
        match_score(a, b, lo, t, w) == 0,
        t >= 0,
    ensures
        first_best_offset(a, b, t, w, lo, step, count) == lo,
    decreases count,
{
    if count > 1 {
        lemma_first_best_keeps_perfect_match(a, b, t, w, lo, step, (count - 1) as nat);
        let y = lo + step * (count - 1);
        lemma_rows_diff_bounds(a, b, y, 0, t as nat, t as nat, w);
    }
}

/// The number of columns two frames have in common.
pub open spec fn common_width(a: RgbaFrame, b: RgbaFrame) -> int {
    if a.width < b.width {
        a.width as int
    } else {
        b.width as int
    }
}

/// Whether some compared pixel (on every fourth of the first `w` columns) of
/// the top `t` rows of `b` differs from the rows of `a` starting at `y`.
pub open spec fn template_differs(a: RgbaFrame, b: RgbaFrame, y: int, t: int, w: int) -> bool {
    exists|x: int, r: int, c: int|
        #![trigger b.channel(x, r, c)]
        0 <= x < w && x % 4 == 0 && 0 <= r < t && 0 <= c < 3 && y + r < a.height && r < b.height
            && a.channel(x, y + r, c) != b.channel(x, r, c)
}

proof fn lemma_line_diff_zero(a: RgbaFrame, b: RgbaFrame, ya: int, yb: int, n: nat)
    requires
        forall|k: int| 0 <= k < n ==> #[trigger] pixel_diff(a, b, 4 * k, ya, yb) == 0,
    ensures
        line_diff(a, b, ya, yb, n) == 0,
    decreases n,
{
    if n > 0 {
        lemma_line_diff_zero(a, b, ya, yb, (n - 1) as nat);
        assert(pixel_diff(a, b, 4 * (n - 1), ya, yb) == 0);
    }
}

proof fn lemma_line_diff_ge(a: RgbaFrame, b: RgbaFrame, ya: int, yb: int, n: nat, k: int)
    requires
        0 <= k < n,
    ensures
        line_diff(a, b, ya, yb, n) >= pixel_diff(a, b, 4 * k, ya, yb),
    decreases n,
{
    lemma_line_diff_bounds(a, b, ya, yb, (n - 1) as nat, (n - 1) as nat);
    if k < n - 1 {
        lemma_line_diff_ge(a, b, ya, yb, (n - 1) as nat, k);
    }
}

proof fn lemma_rows_diff_zero(a: RgbaFrame, b: RgbaFrame, ya: int, yb: int, rows: nat, w: int)
    requires
        forall|r: int| 0 <= r < rows ==> #[trigger] line_diff(a, b, ya + r, yb + r, samples(w)) == 0,
    ensures
        rows_diff(a, b, ya, yb, rows, w) == 0,
    decreases rows,
{
    if rows > 0 {
        lemma_rows_diff_zero(a, b, ya, yb, (rows - 1) as nat, w);
        assert(line_diff(a, b, ya + (rows - 1), yb + (rows - 1), samples(w)) == 0);
    }
}

proof fn lemma_rows_diff_ge(a: RgbaFrame, b: RgbaFrame, ya: int, yb: int, rows: nat, w: int, r: int)
    requires
        0 <= r < rows,
        ya + r < a.height,
        yb + r < b.height,
    ensures
        rows_diff(a, b, ya, yb, rows, w) >= line_diff(a, b, ya + r, yb + r, samples(w)),
    decreases rows,
{
    let last = rows - 1;
    lemma_rows_diff_bounds(a, b, ya, yb, (rows - 1) as nat, (rows - 1) as nat, w);
    lemma_line_diff_bounds(a, b, ya + last, yb + last, samples(w), samples(w));
    if r < last {
        lemma_rows_diff_ge(a, b, ya, yb, (rows - 1) as nat, w, r);
    }
}

/// The `i`-th offset of a search starting at `lo` in steps of `step`.
spec fn candidate(lo: int, step: int, i: int) -> int {
    lo + step * i
}

proof fn lemma_first_best_is_candidate(
    a: RgbaFrame,
    b: RgbaFrame,
    t: int,
    w: int,
    lo: int,
    step: int,
    count: nat,
)
    requires
        count >= 1,
    ensures
        exists|i: int| 0 <= i < count && first_best_offset(a, b, t, w, lo, step, count) == #[trigger] candidate(lo, step, i),
    decreases count,
{
    if count <= 1 {
        assert(first_best_offset(a, b, t, w, lo, step, count) == candidate(lo, step, 0));
    } else {
        lemma_first_best_is_candidate(a, b, t, w, lo, step, (count - 1) as nat);
        let prior = first_best_offset(a, b, t, w, lo, step, (count - 1) as nat);
        let i = choose|i: int| 0 <= i < count - 1 && prior == #[trigger] candidate(lo, step, i);
        let y = lo + step * (count - 1);
        if match_score(a, b, y, t, w) < match_score(a, b, prior, t, w) {
            assert(first_best_offset(a, b, t, w, lo, step, count) == candidate(lo, step, count - 1));
        } else {
            assert(first_best_offset(a, b, t, w, lo, step, count) == candidate(lo, step, i));
        }
    }
}

/// The search keeps the first offset with a perfect score when every
/// earlier candidate scores worse.
proof fn lemma_first_best_zero(
    a: RgbaFrame,
    b: RgbaFrame,
    t: int,
    w: int,
    lo: int,
    step: int,
    count: nat,
    j: int,
)
    requires
        0 <= j < count,
        t >= 0,
        match_score(a, b, lo + step * j, t, w) == 0,
        forall|i: int| 0 <= i < j ==> match_score(a, b, #[trigger] candidate(lo, step, i), t, w) > 0,
    ensures
        first_best_offset(a, b, t, w, lo, step, count) == lo + step * j,
    decreases count,
{
    if count > 1 {
        let c1 = (count - 1) as nat;
        if j < count - 1 {
            lemma_first_best_zero(a, b, t, w, lo, step, c1, j);
            let y = lo + step * (count - 1);
            lemma_rows_diff_bounds(a, b, y, 0, t as nat, t as nat, w);
        } else {
            lemma_first_best_is_candidate(a, b, t, w, lo, step, c1);
            let prior = first_best_offset(a, b, t, w, lo, step, c1);
            let i = choose|i: int| 0 <= i < c1 && prior == #[trigger] candidate(lo, step, i);
            assert(match_score(a, b, candidate(lo, step, i), t, w) > 0);
        }
    }
}

/// The search finds a scroll that shows exactly: when the top
/// `template_rows(screen_height)` rows of `new` are, on the columns both
/// frames have, exactly rows `y..` of `prev` for an offset `y` on the coarse
/// grid (a multiple of 8) within the searched range `0..=screen_height -
/// template_rows(screen_height)`, and every smaller offset differs on some
/// compared pixel (every fourth column), the offset found is `y`.
pub proof fn lemma_exact_match_found(prev: RgbaFrame, new: RgbaFrame, screen_height: int, y: int)
    requires
        template_rows(screen_height) > 0,
        common_width(prev, new) > 0,
        0 <= y <= screen_height - template_rows(screen_height),
        y % 8 == 0,
        y + template_rows(screen_height) <= prev.height,
        template_rows(screen_height) <= new.height,
        forall|x: int, r: int, c: int|
            0 <= x < common_width(prev, new) && 0 <= r < template_rows(screen_height) && 0 <= c
                < 3 ==> #[trigger] prev.channel(x, y + r, c) == new.channel(x, r, c),
        forall|y2: int|
            0 <= y2 < y ==> #[trigger] template_differs(
                prev,
                new,
                y2,
                template_rows(screen_height),
                common_width(prev, new),
            ),
    ensures
        scroll_offset_spec(prev, new, screen_height) == y,
{
    let w = common_width(prev, new);
    let t = template_rows(screen_height);
    let max_offset = screen_height - t;
    // A perfect score at y.
    assert forall|r: int| 0 <= r < t implies #[trigger] line_diff(
        prev,
        new,
        y + r,
        0 + r,
        samples(w),
    ) == 0 by {
        assert forall|k: int| 0 <= k < samples(w) implies #[trigger] pixel_diff(
            prev,
            new,
            4 * k,
            y + r,
            0 + r,
        ) == 0 by {
            assert(4 * k < w);
            assert(prev.channel(4 * k, y + r, 0) == new.channel(4 * k, r, 0));
            assert(prev.channel(4 * k, y + r, 1) == new.channel(4 * k, r, 1));
            assert(prev.channel(4 * k, y + r, 2) == new.channel(4 * k, r, 2));
        }
        lemma_line_diff_zero(prev, new, y + r, 0 + r, samples(w));
    }
    lemma_rows_diff_zero(prev, new, y, 0, t as nat, w);
    assert(match_score(prev, new, y, t, w) == 0);
    // A positive score at every smaller offset.
    assert forall|y2: int| 0 <= y2 < y implies match_score(prev, new, y2, t, w) > 0 by {
        assert(template_differs(prev, new, y2, t, w));
        let (x, r, c) = choose|x: int, r: int, c: int|
            #![trigger new.channel(x, r, c)]
            0 <= x < w && x % 4 == 0 && 0 <= r < t && 0 <= c < 3 && y2 + r < prev.height && r
                < new.height && prev.channel(x, y2 + r, c) != new.channel(x, r, c);
        let k = x / 4;
        assert(4 * k == x);
        assert(k < samples(w));
        assert(pixel_diff(prev, new, 4 * k, y2 + r, 0 + r) > 0);
        lemma_line_diff_ge(prev, new, y2 + r, 0 + r, samples(w), k);
        lemma_rows_diff_ge(prev, new, y2, 0, t as nat, w, r);
    }
    // The coarse search lands on y.
    let count = (max_offset / 8 + 1) as nat;
    assert(0 + 8 * (y / 8) == y);
    assert forall|i: int| 0 <= i < y / 8 implies match_score(
        prev,
        new,
        #[trigger] candidate(0, 8, i),
        t,
        w,
    ) > 0 by {
        assert(candidate(0, 8, i) < y);
    }
    lemma_first_best_zero(prev, new, t, w, 0, 8, count, y / 8);
    let coarse = first_best_offset(prev, new, t, w, 0, 8, count);
    assert(coarse == y);
    // The fine search keeps it.
    let fine_start = if coarse >= 8 {
        coarse - 8
    } else {
        0
    };
    let fine_end = if coarse + 8 < max_offset {
        coarse + 8
    } else {
        max_offset
    };
    let count2 = (fine_end - fine_start + 1) as nat;
    assert forall|i: int| 0 <= i < y - fine_start implies match_score(
        prev,
        new,
        #[trigger] candidate(fine_start, 1, i),
        t,
        w,
    ) > 0 by {
        assert(candidate(fine_start, 1, i) < y);
    }
    assert(fine_start + 1 * (y - fine_start) == y);
    lemma_first_best_zero(prev, new, t, w, fine_start, 1, count2, y - fine_start);
    let best = first_best_offset(prev, new, t, w, fine_start, 1, count2);
    assert(best == y);
    assert(t * w > 0) by (nonlinear_arith)
        requires
            t > 0,
            w > 0,
    ;
    assert(0int / (t * w) == 0) by (nonlinear_arith)
        requires
            t * w > 0,
    ;
}

/// An exact copy of the top `t` rows (on the first `w` columns) scores 0.
proof fn lemma_exact_template_scores_zero(prev: RgbaFrame, new: RgbaFrame, y: int, t: int, w: int)
    requires
        t >= 0,
        w >= 0,
        forall|x: int, r: int, c: int|
            0 <= x < w && 0 <= r < t && 0 <= c < 3 ==> #[trigger] prev.channel(x, y + r, c)
                == new.channel(x, r, c),
    ensures
        match_score(prev, new, y, t, w) == 0,
{
    assert forall|r: int| 0 <= r < t implies #[trigger] line_diff(
        prev,
        new,
        y + r,
        0 + r,
        samples(w),
    ) == 0 by {
        assert forall|k: int| 0 <= k < samples(w) implies #[trigger] pixel_diff(
            prev,
            new,
            4 * k,
            y + r,
            0 + r,
        ) == 0 by {
            assert(4 * k < w);
            assert(prev.channel(4 * k, y + r, 0) == new.channel(4 * k, r, 0));
            assert(prev.channel(4 * k, y + r, 1) == new.channel(4 * k, r, 1));
            assert(prev.channel(4 * k, y + r, 2) == new.channel(4 * k, r, 2));
        }
        lemma_line_diff_zero(prev, new, y + r, 0 + r, samples(w));
    }
    lemma_rows_diff_zero(prev, new, y, 0, t as nat, w);
}

/// The offset a search picks scores no worse than any offset it tries.
proof fn lemma_first_best_minimal(
    a: RgbaFrame,
    b: RgbaFrame,
    t: int,
    w: int,
    lo: int,
    step: int,
    count: nat,
    i: int,
)
    requires
        0 <= i < count,
    ensures
        match_score(a, b, first_best_offset(a, b, t, w, lo, step, count), t, w) <= match_score(
            a,
            b,
            candidate(lo, step, i),
            t,
            w,
        ),
    decreases count,
{
    if count > 1 {
        let c1 = (count - 1) as nat;
        if i < count - 1 {
            lemma_first_best_minimal(a, b, t, w, lo, step, c1, i);
        } else {
            assert(candidate(lo, step, i) == lo + step * (count - 1));
        }
    } else {
        assert(i == 0);
        assert(step * 0 == 0) by (nonlinear_arith);
        assert(candidate(lo, step, i) == lo);
    }
}

/// The search finds any scroll that shows exactly, on or off the coarse grid,
/// when the difference between the frames grows with the distance from the
/// true offset: if the top `template_rows(screen_height)` rows of `new` are,
/// on the columns both frames have, exactly rows `y..` of `prev` for some `y`
/// in the searched range, and every offset nearer to `y` scores lower than
/// every offset farther from it, the offset found is `y`.
pub proof fn lemma_exact_match_found_when_scores_grow(
    prev: RgbaFrame,
    new: RgbaFrame,
    screen_height: int,
    y: int,
)
    requires
        template_rows(screen_height) > 0,
        common_width(prev, new) > 0,
        0 <= y <= screen_height - template_rows(screen_height),
        forall|x: int, r: int, c: int|
            0 <= x < common_width(prev, new) && 0 <= r < template_rows(screen_height) && 0 <= c
                < 3 ==> #[trigger] prev.channel(x, y + r, c) == new.channel(x, r, c),
        forall|y1: int, y2: int|
            0 <= y1 <= screen_height - template_rows(screen_height) && 0 <= y2 <= screen_height
                - template_rows(screen_height) && (if y1 >= y {
                y1 - y
            } else {
                y - y1
            }) < (if y2 >= y {
                y2 - y
            } else {
                y - y2
            }) ==> #[trigger] match_score(
                prev,
                new,
                y1,
                template_rows(screen_height),
                common_width(prev, new),
            ) < #[trigger] match_score(
                prev,
                new,
                y2,
                template_rows(screen_height),
                common_width(prev, new),
            ),
    ensures
        scroll_offset_spec(prev, new, screen_height) == y,
{
    let w = common_width(prev, new);
    let t = template_rows(screen_height);
    let max_offset = screen_height - t;
    lemma_exact_template_scores_zero(prev, new, y, t, w);
    // The coarse search lands within 8 of y.
    let count = (max_offset / 8 + 1) as nat;
    lemma_first_best_in_range(prev, new, t, w, 0, 8, count);
    let coarse = first_best_offset(prev, new, t, w, 0, 8, count);
    let g = y / 8;
    assert(0 <= g < count);
    assert(candidate(0, 8, g) == 8 * g);
    assert(y - 8 * g < 8);
    lemma_first_best_minimal(prev, new, t, w, 0, 8, count, g);
    assert(8 * (count - 1) <= max_offset);
    if coarse >= y + 8 || coarse <= y - 8 {
        assert(match_score(prev, new, 8 * g, t, w) < match_score(prev, new, coarse, t, w));
    }
    assert(y - 8 < coarse < y + 8);
    // The fine search finds y, the only offset scoring 0 in its window.
    let fine_start = if coarse >= 8 {
        coarse - 8
    } else {
        0
    };
    let fine_end = if coarse + 8 < max_offset {
        coarse + 8
    } else {
        max_offset
    };
    let count2 = (fine_end - fine_start + 1) as nat;
    assert forall|i: int| 0 <= i < y - fine_start implies match_score(
        prev,
        new,
        #[trigger] candidate(fine_start, 1, i),
        t,
        w,
    ) > 0 by {
        let o = candidate(fine_start, 1, i);
        assert(0 <= o < y);
        lemma_rows_diff_bounds(prev, new, y, 0, t as nat, t as nat, w);
        assert(match_score(prev, new, y, t, w) < match_score(prev, new, o, t, w));
    }
    assert(fine_start + 1 * (y - fine_start) == y);
    lemma_first_best_zero(prev, new, t, w, fine_start, 1, count2, y - fine_start);
    assert(t * w > 0) by (nonlinear_arith)
        requires
            t > 0,
            w > 0,
    ;
    assert(0int / (t * w) == 0) by (nonlinear_arith)
        requires
            t * w > 0,
    ;
}

/// An offset other than 0 is only reported for a close match: the top
/// `template_rows(screen_height)` rows of `new` differ from the rows of
/// `prev` at that offset by at most `PIXEL_DIFF_THRESHOLD` per row and
/// column compared, on average over the sampled pixels.
pub proof fn lemma_reported_offset_matches_closely(
    prev: RgbaFrame,
    new: RgbaFrame,
    screen_height: int,
)
    requires
        0 <= screen_height,
        scroll_offset_spec(prev, new, screen_height) != 0,
    ensures
        template_rows(screen_height) > 0,
        common_width(prev, new) > 0,
        match_score(
            prev,
            new,
            scroll_offset_spec(prev, new, screen_height),
            template_rows(screen_height),
            common_width(prev, new),
        ) / (template_rows(screen_height) * common_width(prev, new)) <= PIXEL_DIFF_THRESHOLD,
{
}

/// A region that did not change did not scroll: a frame compared with
/// itself gives offset 0.
pub proof fn lemma_unchanged_frame_no_scroll(f: RgbaFrame)
    ensures
        scroll_offset_spec(f, f, f.height as int) == 0,
{
    let w = f.width as int;
    let t = template_rows(f.height as int);
    if t != 0 && w != 0 {
        lemma_same_frame_score_zero(f, t as nat, w);
        let max_offset = f.height - t;
        lemma_first_best_keeps_perfect_match(f, f, t, w, 0, 8, (max_offset / 8 + 1) as nat);
        let fine_end = if 8 < max_offset {
            8
        } else {
            max_offset
        };
        lemma_first_best_keeps_perfect_match(f, f, t, w, 0, 1, (fine_end + 1) as nat);
        assert(t > 0 && w > 0);
        assert(t * w > 0) by (nonlinear_arith)
            requires
                t > 0,
                w > 0,
        ;
        assert(0int / (t * w) == 0) by (nonlinear_arith)
            requires
                t * w > 0,
        ;
    }
}

/// Compares the previous capture of the region with the new one and, when
/// the region scrolled by at least `MIN_SCROLL_OFFSET` rows (see
/// [`scroll_offset_spec`]), appends the rows scrolled into view below the
/// long image and returns the offset. The long image is widened to the
/// width of the captures with zero bytes; when it is wider than the
/// captures, nothing is appended.
pub fn append_scroll_frame(
    long_image: &mut RgbaFrame,
    prev_frame: &RgbaFrame,
    new_frame: &RgbaFrame,
) -> (r: Option<u32>)
    requires
        old(long_image).wf(),
        prev_frame.wf(),
        new_frame.wf(),
        template_rows(prev_frame.height as int) > 0 && prev_frame.width > 0 && new_frame.width > 0
            && prev_frame.height > 0 && new_frame.height > 0 ==> prev_frame.width <= u32::MAX - 3
            || new_frame.width <= u32::MAX - 3,
        scroll_offset_spec(*prev_frame, *new_frame, prev_frame.height as int) >= MIN_SCROLL_OFFSET
            ==> {
            &&& old(long_image).height + scroll_offset_spec(
                *prev_frame,
                *new_frame,
                prev_frame.height as int,
            ) <= u32::MAX
            &&& 4 * prev_frame.width * (old(long_image).height + scroll_offset_spec(
                *prev_frame,
                *new_frame,
                prev_frame.height as int,
            )) <= usize::MAX
            &&& old(long_image).width <= prev_frame.width ==> new_frame.width >= prev_frame.width
                && new_frame.height >= prev_frame.height
        },
    ensures
        ({
            let offset = scroll_offset_spec(*prev_frame, *new_frame, prev_frame.height as int);
            let old_height = old(long_image).height as int;
            if offset < MIN_SCROLL_OFFSET || old(long_image).width > prev_frame.width {
                r is None && *final(long_image) == *old(long_image)
            } else {
                &&& r == Some(offset as u32)
                &&& final(long_image).wf()
                &&& final(long_image).width == prev_frame.width
                &&& final(long_image).height == old_height + offset
                &&& forall|py: int, i: int|
                    0 <= py < old_height + offset && 0 <= i < 4 * prev_frame.width
                        ==> #[trigger] final(long_image).rows@[py]@[i] == if py < old_height {
                        if i < 4 * old(long_image).width {
                            old(long_image).rows@[py]@[i]
                        } else {
                            0u8
                        }
                    } else {
                        new_frame.rows@[py - old_height + prev_frame.height - offset]@[i]
                    }
            }
        }),
{
    let selection_height = prev_frame.height;
    let selection_width = prev_frame.width;

    let scroll_offset = find_scroll_offset(prev_frame, new_frame, selection_height);
    proof {
        lemma_scroll_offset_bound(*prev_frame, *new_frame, selection_height as int);
    }

    if scroll_offset < MIN_SCROLL_OFFSET {
        return None;
    }

    let new_content_y = selection_height.saturating_sub(scroll_offset);
    let new_content_height = if scroll_offset < selection_height - new_content_y {
        scroll_offset
    } else {
        selection_height - new_content_y
    };

    if new_content_height == 0 {
        return None;
    }

    let old_height = long_image.height;
    let new_total_height = old_height + new_content_height;

    let mut extended = RgbaFrame::new(selection_width, new_total_height);
    if !extended.copy_from(long_image, 0, 0) {
        return None;
    }

    let new_content = new_frame.crop(0, new_content_y, selection_width, new_content_height);

    if !extended.copy_from(&new_content, 0, old_height) {
        return None;
    }

    *long_image = extended;
    Some(scroll_offset)
}

/// Message from the interface to the scroll-capture worker.
pub enum ScrollControlMessage {
    /// Stop scrolling and save the long image.
    Stop,
}

/// A file-system path, as std's `PathBuf`; only carried through.
#[verifier::external_type_specification]
#[verifier::external_body]
pub struct ExPathBuf(PathBuf);

/// Message from the scroll-capture worker when it ends.
pub enum ScrollResultMessage {
    /// The long image was saved at this path.
    Success(PathBuf),
    /// Capturing or saving failed, for this reason.
    Error(String),
}

/// The two parameters of a mouse-wheel message: the wheel delta (`delta`
/// notches of 120 units, cut to 16 bits) in the high word of the first,
/// and the cursor position (`y` in the high word, `x` in the low word, each
/// cut to 16 bits) in the second.
pub fn wheel_message_params(delta: i32, cursor_x: i32, cursor_y: i32) -> (r: (usize, isize))
    requires
        -17895697 <= delta <= 17895697,
    ensures
        r.0 == ((delta * 120) as i16 as u16) as int * 65536,
        r.1 == ((cursor_y as u16) as int * 65536 + (cursor_x as u16) as int) as isize,
{
    let wheel_delta = (delta * 120) as i16;
    let high = (wheel_delta as u32) << 16;
    assert(high == (wheel_delta as u16) as u32 * 65536) by (bit_vector)
        requires
            high == (wheel_delta as u32) << 16,
    ;
    let wparam = high as usize;
    let packed = (cursor_y as u32) << 16 | (cursor_x as u32 & 0xFFFF);
    assert(packed == (cursor_y as u16) as u32 * 65536 + (cursor_x as u16) as u32) by (bit_vector)
        requires
            packed == (cursor_y as u32) << 16 | (cursor_x as u32 & 0xFFFF),
    ;
    let lparam = packed as isize;
    (wparam, lparam)
}

} // verus!
