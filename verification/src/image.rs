//! Image buffers: pixels in rows, slices of whole rows for workers that
//! render side by side, and the rendering of an image slice by slice.
use vstd::prelude::*;

verus! {

/// A grid of pixels in row-major order: the whole image, or a run of its rows
/// that starts at row `first_line` of the whole. The pixel type is free: the
/// buffer only stores and hands out values.
#[derive(Clone, Debug)]
pub struct ImageBuffer<T> {
    pub width: usize,
    pub height: usize,
    pub first_line: usize,
    pub data: Vec<T>,
}

/// The number of rows that every slice but the last gets when `height` rows
/// are split `splits` ways.
pub open spec fn slice_height(height: int, splits: int) -> int {
    height / splits
}

/// The first row of slice `i`.
pub open spec fn slice_start(height: int, splits: int, i: int) -> int {
    i * slice_height(height, splits)
}

/// The number of rows of slice `i`: the last slice takes what is left.
pub open spec fn slice_rows(height: int, splits: int, i: int) -> int {
    if i == splits - 1 {
        height - slice_start(height, splits, i)
    } else {
        slice_height(height, splits)
    }
}

/// The slices tile the rows `0..height` in order: the first starts at row 0,
/// each starts where the one before it ends, the last ends at `height`, and
/// none has a negative number of rows.
pub proof fn lemma_slices_tile(height: int, splits: int)
    requires
        0 <= height,
        0 < splits,
    ensures
        slice_start(height, splits, 0) == 0,
        slice_start(height, splits, splits - 1) + slice_rows(height, splits, splits - 1) == height,
        forall|i: int| 0 <= i < splits ==> 0 <= #[trigger] slice_start(height, splits, i) <= height,
        forall|i: int|
            0 <= i < splits ==> 0 <= #[trigger] slice_rows(height, splits, i) && slice_start(
                height,
                splits,
                i,
            ) + slice_rows(height, splits, i) <= height,
        forall|i: int|
            0 <= i < splits - 1 ==> slice_start(height, splits, i) + #[trigger] slice_rows(
                height,
                splits,
                i,
            ) == slice_start(height, splits, i + 1),
{
    let each = height / splits;
    assert(0 <= each && each * splits <= height) by (nonlinear_arith)
        requires
            0 <= height,
            0 < splits,
            each == height / splits,
    ;
    assert forall|i: int| 0 <= i < splits implies 0 <= #[trigger] slice_start(height, splits, i)
        <= height by {
        assert(0 <= i * each <= height) by (nonlinear_arith)
            requires
                0 <= i < splits,
                0 <= each,
                each * splits <= height,
        ;
    }
    assert forall|i: int| 0 <= i < splits - 1 implies slice_start(height, splits, i)
        + #[trigger] slice_rows(height, splits, i) == slice_start(height, splits, i + 1) by {
        assert((i + 1) * each == i * each + each) by (nonlinear_arith);
    }
    assert forall|i: int| 0 <= i < splits implies 0 <= #[trigger] slice_rows(height, splits, i)
        && slice_start(height, splits, i) + slice_rows(height, splits, i) <= height by {
        assert(0 <= slice_start(height, splits, i) <= height);
        if i < splits - 1 {
            assert(0 <= slice_start(height, splits, i + 1) <= height);
        }
    }
}

/// Every row of the image lies in exactly one slice.
pub proof fn lemma_row_in_one_slice(height: int, splits: int, y: int)
    requires
        0 <= y < height,
        0 < splits,
    ensures
        exists|i: int| 0 <= i < splits && #[trigger] row_in_slice(height, splits, i, y),
        forall|i: int, j: int|
            0 <= i < splits && 0 <= j < splits && #[trigger] row_in_slice(height, splits, i, y)
                && #[trigger] row_in_slice(height, splits, j, y) ==> i == j,
{
    lemma_slices_tile(height, splits);
    let each = height / splits;
    assert forall|i: int, j: int|
        0 <= i < splits && 0 <= j < splits && #[trigger] row_in_slice(height, splits, i, y)
            && #[trigger] row_in_slice(height, splits, j, y) implies i == j by {
        if i < j {
            assert((i + 1) * each <= j * each) by (nonlinear_arith)
                requires
                    i + 1 <= j,
                    0 <= each,
            ;
            assert((i + 1) * each == i * each + each) by (nonlinear_arith);
        } else if j < i {
            assert((j + 1) * each <= i * each) by (nonlinear_arith)
                requires
                    j + 1 <= i,
                    0 <= each,
            ;
            assert((j + 1) * each == j * each + each) by (nonlinear_arith);
        }
    }
    if each == 0 {
        assert((splits - 1) * each == 0) by (nonlinear_arith)
            requires
                each == 0,
        ;
        assert(row_in_slice(height, splits, splits - 1, y));
    } else if y >= (splits - 1) * each {
        assert(row_in_slice(height, splits, splits - 1, y));
    } else {
        let i = y / each;
        assert(i * each <= y < i * each + each && 0 <= i) by (nonlinear_arith)
            requires
                i == y / each,
                0 < each,
                0 <= y,
        ;
        assert(i < splits - 1) by (nonlinear_arith)
            requires
                i * each <= y,
                y < (splits - 1) * each,
                0 < each,
        ;
        assert(row_in_slice(height, splits, i, y));
    }
}

/// Whether row `y` of the image belongs to slice `i`.
pub open spec fn row_in_slice(height: int, splits: int, i: int, y: int) -> bool {
    slice_start(height, splits, i) <= y < slice_start(height, splits, i) + slice_rows(
        height,
        splits,
        i,
    )
}

impl<T: Copy> ImageBuffer<T> {
    /// The pixels, row after row.
    pub open spec fn pixels(&self) -> Seq<T> {
        self.data@
    }

    /// Whether the buffer holds exactly `width * height` pixels.
    pub open spec fn is_grid(&self) -> bool {
        self.pixels().len() == self.width * self.height
    }

    /// Where the pixel in column `x` of the buffer's row `y` stands in `pixels()`.
    pub open spec fn index_of(&self, x: int, y: int) -> int {
        y * self.width + x
    }

    /// The pixel in column `x` of the buffer's row `y`.
    pub open spec fn pixel_at(&self, x: int, y: int) -> T {
        self.pixels()[self.index_of(x, y)]
    }

    /// A pixel store for an image of `width` by `height`, every pixel set to `fill`.
    pub fn alloc_data_buf(width: usize, height: usize, fill: T) -> (buf: Vec<T>)
        requires
            width * height <= usize::MAX,
        ensures
            buf@ == Seq::new((width * height) as nat, |i: int| fill),
    {
        let count: usize = width * height;
        let mut buf: Vec<T> = Vec::new();
        let mut i: usize = 0;
        while i < count
            invariant
                i <= count,
                buf@ == Seq::new(i as nat, |j: int| fill),
            decreases count - i,
        {
            buf.push(fill);
            i = i + 1;
        }
        buf
    }

    /// The whole image over the pixel store `data_buf`.
    pub fn new(width: usize, height: usize, data_buf: Vec<T>) -> (buffer: ImageBuffer<T>)
        requires
            data_buf.len() == width * height,
        ensures
            buffer.width == width,
            buffer.height == height,
            buffer.first_line == 0,
            buffer.pixels() == data_buf@,
            buffer.is_grid(),
    {
        ImageBuffer { width, height, first_line: 0, data: data_buf }
    }

    /// Whether `parts` are the slices of `whole` when it is split `splits` ways:
    /// each is as wide as the whole, holds the rows that are its share, and
    /// knows at which row of the full image it starts.
    pub open spec fn is_split_of(
        parts: Seq<ImageBuffer<T>>,
        whole: ImageBuffer<T>,
        splits: int,
    ) -> bool {
        &&& parts.len() == splits
        &&& forall|i: int|
            0 <= i < splits ==> {
                let p = #[trigger] parts[i];
                let start = slice_start(whole.height as int, splits, i);
                let rows = slice_rows(whole.height as int, splits, i);
                &&& p.width == whole.width
                &&& p.first_line == whole.first_line + start
                &&& p.height == rows
                &&& p.pixels() == whole.pixels().subrange(
                    start * whole.width,
                    (start + rows) * whole.width,
                )
            }
    }

    /// Splits the buffer into `splits` slices of whole rows, in order from the
    /// top. Every slice gets `height / splits` rows; the last one also gets the
    /// rows that are left over. No pixel is in two slices, and none is lost.
    pub fn get_split_buffers(self, splits: usize) -> (parts: Vec<ImageBuffer<T>>)
        requires
            splits > 0,
            self.is_grid(),
            self.first_line + self.height <= usize::MAX,
        ensures
            Self::is_split_of(parts@, self, splits as int),
    {
        let width: usize = self.width;
        let height: usize = self.height;
        let each: usize = height / splits;
        let mut parts: Vec<ImageBuffer<T>> = Vec::new();
        let mut start: usize = 0;
        let mut i: usize = 0;
        proof {
            lemma_slices_tile(height as int, splits as int);
        }
        while i < splits
            invariant
                i <= splits,
                0 < splits,
                width == self.width,
                height == self.height,
                self.is_grid(),
                self.first_line + self.height <= usize::MAX,
                each == slice_height(height as int, splits as int),
                i < splits ==> start == slice_start(height as int, splits as int, i as int),
                parts.len() == i,
                forall|j: int|
                    0 <= j < i ==> {
                        let p = #[trigger] parts[j];
                        let s = slice_start(height as int, splits as int, j);
                        let rows = slice_rows(height as int, splits as int, j);
                        &&& p.width == width
                        &&& p.first_line == self.first_line + s
                        &&& p.height == rows
                        &&& p.pixels() == self.pixels().subrange(s * width, (s + rows) * width)
                    },
            decreases splits - i,
        {
            proof {
                lemma_slices_tile(height as int, splits as int);
            }
            let rows: usize = if i == splits - 1 {
                height - start
            } else {
                each
            };
            assert(rows == slice_rows(height as int, splits as int, i as int));
            assert(start + rows <= height);
            assert(self.data@.len() == self.data.len());
            assert((start + rows) * width <= height * width && start * width <= (start + rows)
                * width) by (nonlinear_arith)
                requires
                    start + rows <= height,
                    0 <= rows,
                    0 <= start,
                    0 <= width,
            ;
            let from: usize = start * width;
            let to: usize = (start + rows) * width;
            let mut data: Vec<T> = Vec::new();
            let mut k: usize = from;
            while k < to
                invariant
                    from <= k <= to,
                    to <= self.data.len(),
                    data@ == self.data@.subrange(from as int, k as int),
                decreases to - k,
            {
                data.push(self.data[k]);
                k = k + 1;
            }
            let ghost before = parts@;
            let first_line: usize = self.first_line + start;
            parts.push(ImageBuffer { width, height: rows, first_line, data });
            assert(forall|j: int| 0 <= j < i ==> parts[j] == before[j]);
            if i < splits - 1 {
                start = start + each;
            }
            i = i + 1;
        }
        parts
    }

    /// The rows of all `parts` together.
    pub open spec fn total_rows(parts: Seq<ImageBuffer<T>>) -> int
        decreases parts.len(),
    {
        if parts.len() == 0 {
            0
        } else {
            Self::total_rows(parts.drop_last()) + parts.last().height
        }
    }

    /// The pixels of all `parts`, one part after the other.
    pub open spec fn joined_pixels(parts: Seq<ImageBuffer<T>>) -> Seq<T>
        decreases parts.len(),
    {
        if parts.len() == 0 {
            Seq::empty()
        } else {
            Self::joined_pixels(parts.drop_last()) + parts.last().pixels()
        }
    }

    /// Whether `parts` can be put together to one buffer: there is at least
    /// one, each is a grid, all are equally wide, each starts at the row where
    /// the one before it ends, and the rows can be counted in a `usize`.
    pub open spec fn joinable(parts: Seq<ImageBuffer<T>>) -> bool {
        &&& parts.len() > 0
        &&& forall|i: int|
            0 <= i < parts.len() ==> (#[trigger] parts[i]).is_grid() && parts[i].width
                == parts[0].width
        &&& forall|i: int|
            0 < i < parts.len() ==> (#[trigger] parts[i]).first_line == parts[i - 1].first_line
                + parts[i - 1].height
        &&& Self::total_rows(parts) <= usize::MAX
    }

    /// Puts slices back together, in the order given. Returns `None` where the
    /// slices do not fit together.
    pub fn join_split_buffers(parts: Vec<ImageBuffer<T>>) -> (whole: Option<ImageBuffer<T>>)
        ensures
            whole is Some <==> Self::joinable(parts@),
            whole matches Some(w) ==> {
                &&& w.width == parts[0].width
                &&& w.first_line == parts[0].first_line
                &&& w.height == Self::total_rows(parts@)
                &&& w.pixels() == Self::joined_pixels(parts@)
                &&& w.is_grid()
            },
    {
        if parts.len() == 0 {
            return None;
        }
        let width: usize = parts[0].width;
        let first_line: usize = parts[0].first_line;
        let mut height: usize = 0;
        let mut data: Vec<T> = Vec::new();
        let mut i: usize = 0;
        while i < parts.len()
            invariant
                i <= parts.len(),
                parts.len() > 0,
                width == parts[0].width,
                first_line == parts[0].first_line,
                height == Self::total_rows(parts@.take(i as int)),
                data@ == Self::joined_pixels(parts@.take(i as int)),
                data@.len() == width * height,
                forall|j: int|
                    0 <= j < i ==> (#[trigger] parts[j]).is_grid() && parts[j].width == width,
                forall|j: int|
                    0 < j < i ==> (#[trigger] parts[j]).first_line == parts[j - 1].first_line
                        + parts[j - 1].height,
            decreases parts.len() - i,
        {
            let part = &parts[i];
            let ghost upto = parts@.take(i as int + 1);
            proof {
                assert(upto.drop_last() == parts@.take(i as int));
                assert(upto.last() == parts[i as int]);
                Self::lemma_total_rows_grows(parts@, i as int + 1);
            }
            let fits = match part.width.checked_mul(part.height) {
                Some(count) => count == part.data.len(),
                None => false,
            };
            if !fits || part.width != width {
                assert(!(parts[i as int].is_grid() && parts[i as int].width == parts[0].width));
                return None;
            }
            if i > 0 {
                let prev = &parts[i - 1];
                match prev.first_line.checked_add(prev.height) {
                    Some(next) => {
                        if part.first_line != next {
                            assert(parts[i as int].first_line != parts[i - 1].first_line + parts[i
                                - 1].height);
                            return None;
                        }
                    },
                    None => {
                        assert(parts[i as int].first_line != parts[i - 1].first_line + parts[i
                            - 1].height);
                        return None;
                    },
                }
            }
            match height.checked_add(part.height) {
                Some(sum) => {
                    assert(width * sum == width * height + width * part.height)
                        by (nonlinear_arith)
                        requires
                            sum == height + part.height,
                    ;
                    height = sum;
                },
                None => {
                    return None;
                },
            }
            let ghost head = data@;
            let mut k: usize = 0;
            while k < part.data.len()
                invariant
                    k <= part.data.len(),
                    data@ == head + part.data@.take(k as int),
                decreases part.data.len() - k,
            {
                data.push(part.data[k]);
                k = k + 1;
            }
            assert(part.data@.take(k as int) == part.data@);
            i = i + 1;
        }
        assert(parts@.take(i as int) == parts@);
        Some(ImageBuffer { width, height, first_line, data })
    }

    /// Splitting loses nothing: the slices of a grid can be joined, and joined
    /// they are the grid again, with its width, its rows, its first line and
    /// its pixels.
    pub proof fn lemma_split_then_join(
        whole: ImageBuffer<T>,
        parts: Seq<ImageBuffer<T>>,
        splits: int,
    )
        requires
            whole.is_grid(),
            splits > 0,
            Self::is_split_of(parts, whole, splits),
        ensures
            Self::joinable(parts),
            parts[0].width == whole.width,
            parts[0].first_line == whole.first_line,
            Self::total_rows(parts) == whole.height,
            Self::joined_pixels(parts) == whole.pixels(),
    {
        let height = whole.height as int;
        lemma_slices_tile(height, splits);
        Self::lemma_joined_prefix(whole, parts, splits, splits);
        assert(parts.take(splits) == parts);
        assert(height * whole.width == whole.width * height) by (nonlinear_arith);
        assert(whole.pixels().subrange(0, height * whole.width) == whole.pixels());
        assert forall|i: int| 0 <= i < parts.len() implies (#[trigger] parts[i]).is_grid()
            && parts[i].width == parts[0].width by {
            let start = slice_start(height, splits, i);
            let rows = slice_rows(height, splits, i);
            assert(0 <= rows && 0 <= start && start + rows <= height);
            assert(rows * whole.width == whole.width * rows) by (nonlinear_arith);
            assert((start + rows) * whole.width == start * whole.width + rows * whole.width
                && (start + rows) * whole.width <= height * whole.width && 0 <= start
                * whole.width) by (nonlinear_arith)
                requires
                    0 <= start,
                    0 <= rows,
                    start + rows <= height,
                    0 <= whole.width,
            ;
            assert(parts[0].width == whole.width);
        }
        assert forall|i: int| 0 < i < parts.len() implies (#[trigger] parts[i]).first_line
            == parts[i - 1].first_line + parts[i - 1].height by {
            assert(slice_start(height, splits, i - 1) + slice_rows(height, splits, i - 1)
                == slice_start(height, splits, (i - 1) + 1));
            assert(parts[i - 1].width == whole.width);
        }
    }

    proof fn lemma_joined_prefix(
        whole: ImageBuffer<T>,
        parts: Seq<ImageBuffer<T>>,
        splits: int,
        k: int,
    )
        requires
            whole.is_grid(),
            splits > 0,
            Self::is_split_of(parts, whole, splits),
            0 <= k <= splits,
        ensures
            Self::total_rows(parts.take(k)) == (if k == splits {
                whole.height as int
            } else {
                slice_start(whole.height as int, splits, k)
            }),
            Self::joined_pixels(parts.take(k)) == whole.pixels().subrange(
                0,
                Self::total_rows(parts.take(k)) * whole.width,
            ),
        decreases k,
    {
        let height = whole.height as int;
        let width = whole.width as int;
        lemma_slices_tile(height, splits);
        if k == 0 {
            assert(slice_start(height, splits, 0) == 0);
            assert(parts.take(0).len() == 0);
            assert(0 * width == 0);
            assert(whole.pixels().subrange(0, 0) == Seq::<T>::empty());
        } else {
            Self::lemma_joined_prefix(whole, parts, splits, k - 1);
            let i = k - 1;
            assert(parts.take(k).drop_last() == parts.take(i));
            assert(parts.take(k).last() == parts[i]);
            let start = slice_start(height, splits, i);
            let rows = slice_rows(height, splits, i);
            assert(0 <= rows && 0 <= start);
            assert(Self::total_rows(parts.take(i)) == start);
            assert(start + rows == (if k == splits {
                height
            } else {
                slice_start(height, splits, k)
            })) by {
                if i < splits - 1 {
                    assert(slice_start(height, splits, i + 1) == start + rows);
                }
            }
            assert(start + rows <= height);
            assert(0 <= start * width <= (start + rows) * width <= height * width)
                by (nonlinear_arith)
                requires
                    0 <= start,
                    0 <= rows,
                    start + rows <= height,
                    0 <= width,
            ;
            assert(whole.pixels().subrange(0, start * width) + whole.pixels().subrange(
                start * width,
                (start + rows) * width,
            ) == whole.pixels().subrange(0, (start + rows) * width));
        }
    }

    /// In a run of grids of one width, the pixels of the first `n` are as
    /// many as the width times their rows; and where the grids have the rows
    /// of the slices of an image, these rows end where slice `n` starts.
    pub proof fn lemma_rows_of_slices(
        parts: Seq<ImageBuffer<T>>,
        width: usize,
        height: int,
        splits: int,
        n: int,
    )
        requires
            0 <= height,
            0 < splits,
            parts.len() == splits,
            0 <= n <= splits,
            forall|j: int|
                0 <= j < splits ==> {
                    let p = #[trigger] parts[j];
                    &&& p.width == width
                    &&& p.height == slice_rows(height, splits, j)
                    &&& p.is_grid()
                },
        ensures
            Self::total_rows(parts.take(n)) == (if n == splits {
                height
            } else {
                slice_start(height, splits, n)
            }),
            Self::joined_pixels(parts.take(n)).len() == width * Self::total_rows(parts.take(n)),
        decreases n,
    {
        lemma_slices_tile(height, splits);
        if n == 0 {
            assert(parts.take(0).len() == 0);
            assert(width * 0 == 0);
        } else {
            Self::lemma_rows_of_slices(parts, width, height, splits, n - 1);
            assert(parts.take(n).drop_last() == parts.take(n - 1));
            assert(parts.take(n).last() == parts[n - 1]);
            let start = slice_start(height, splits, n - 1);
            let rows = slice_rows(height, splits, n - 1);
            assert(0 <= rows);
            assert(start + rows == (if n == splits {
                height
            } else {
                slice_start(height, splits, n)
            })) by {
                if n - 1 < splits - 1 {
                    assert(slice_start(height, splits, n - 1) + slice_rows(height, splits, n - 1)
                        == slice_start(height, splits, (n - 1) + 1));
                }
            }
            assert(width * (start + rows) == width * start + width * rows) by (nonlinear_arith);
        }
    }

    /// Pixel `k` of part `i` stands in the joined pixels behind all pixels
    /// of the parts before it.
    pub proof fn lemma_joined_pixel(parts: Seq<ImageBuffer<T>>, i: int, k: int)
        requires
            0 <= i < parts.len(),
            0 <= k < parts[i].pixels().len(),
        ensures
            Self::joined_pixels(parts.take(i)).len() + k < Self::joined_pixels(parts).len(),
            Self::joined_pixels(parts)[Self::joined_pixels(parts.take(i)).len() + k]
                == parts[i].pixels()[k],
        decreases parts.len(),
    {
        let front = parts.drop_last();
        if i == parts.len() - 1 {
            assert(parts.take(i) == front);
        } else {
            Self::lemma_joined_pixel(front, i, k);
            assert(front.take(i) == parts.take(i));
            assert(front[i] == parts[i]);
        }
    }

    /// The rows of the first `n` parts are no more than the rows of all.
    pub proof fn lemma_total_rows_grows(parts: Seq<ImageBuffer<T>>, n: int)
        requires
            0 <= n <= parts.len(),
        ensures
            0 <= Self::total_rows(parts.take(n)) <= Self::total_rows(parts),
        decreases parts.len() - n,
    {
        Self::lemma_total_rows_nonnegative(parts.take(n));
        if n < parts.len() {
            Self::lemma_total_rows_grows(parts, n + 1);
            assert(parts.take(n + 1).drop_last() == parts.take(n));
        } else {
            assert(parts.take(n) == parts);
        }
    }

    proof fn lemma_total_rows_nonnegative(parts: Seq<ImageBuffer<T>>)
        ensures
            0 <= Self::total_rows(parts),
        decreases parts.len(),
    {
        if parts.len() > 0 {
            Self::lemma_total_rows_nonnegative(parts.drop_last());
        }
    }

    fn pixel_index(&self, x: usize, y: usize) -> (index: usize)
        requires
            self.index_of(x as int, y as int) < self.pixels().len(),
        ensures
            index == self.index_of(x as int, y as int),
    {
        assert(self.data@.len() == self.data.len());
        assert(y * self.width <= y * self.width + x);
        y * self.width + x
    }

    /// Stores `c` as the pixel in column `x` of the buffer's row `y`.
    pub fn set_pixel(&mut self, x: usize, y: usize, c: T)
        requires
            old(self).index_of(x as int, y as int) < old(self).pixels().len(),
        ensures
            final(self).pixels() == old(self).pixels().update(
                old(self).index_of(x as int, y as int),
                c,
            ),
            final(self).width == old(self).width,
            final(self).height == old(self).height,
            final(self).first_line == old(self).first_line,
            old(self).is_grid() ==> final(self).is_grid(),
    {
        let index = self.pixel_index(x, y);
        self.data[index] = c;
    }

    /// The pixel in column `x` of the buffer's row `y`.
    pub fn pixel(&self, x: usize, y: usize) -> (c: T)
        requires
            self.index_of(x as int, y as int) < self.pixels().len(),
        ensures
            c == self.pixel_at(x as int, y as int),
    {
        self.data[self.pixel_index(x, y)]
    }
}

/// Renders one slice: every pixel of the slice is set to what `shade` returns
/// for its column and its row in the full image, row after row from the
/// slice's first line on.
pub fn render_slice<T: Copy, F: Fn(usize, usize) -> T>(sub_buffer: &mut ImageBuffer<T>, shade: &F)
    requires
        old(sub_buffer).is_grid(),
        old(sub_buffer).first_line + old(sub_buffer).height <= usize::MAX,
        forall|x: usize, y: usize|
            x < old(sub_buffer).width && old(sub_buffer).first_line <= y < old(
                sub_buffer,
            ).first_line + old(sub_buffer).height ==> #[trigger] shade.requires((x, y)),
    ensures
        final(sub_buffer).width == old(sub_buffer).width,
        final(sub_buffer).height == old(sub_buffer).height,
        final(sub_buffer).first_line == old(sub_buffer).first_line,
        final(sub_buffer).is_grid(),
        forall|x: int, y: int|
            0 <= x < old(sub_buffer).width && 0 <= y < old(sub_buffer).height ==> shade.ensures(
                (x as usize, (y + old(sub_buffer).first_line) as usize),
                #[trigger] final(sub_buffer).pixel_at(x, y),
            ),
{
    let width: usize = sub_buffer.width;
    let height: usize = sub_buffer.height;
    let first_line: usize = sub_buffer.first_line;
    let mut y_buffer: usize = 0;
    while y_buffer < height
        invariant
            y_buffer <= height,
            sub_buffer.width == width,
            sub_buffer.height == height,
            sub_buffer.first_line == first_line,
            sub_buffer.is_grid(),
            first_line + height <= usize::MAX,
            forall|x: usize, y: usize|
                x < width && first_line <= y < first_line + height ==> #[trigger] shade.requires(
                    (x, y),
                ),
            forall|x: int, y: int|
                0 <= x < width && 0 <= y < y_buffer ==> shade.ensures(
                    (x as usize, (y + first_line) as usize),
                    #[trigger] sub_buffer.pixel_at(x, y),
                ),
        decreases height - y_buffer,
    {
        let y: usize = y_buffer + first_line;
        let mut x: usize = 0;
        while x < width
            invariant
                x <= width,
                y_buffer < height,
                y == y_buffer + first_line,
                sub_buffer.width == width,
                sub_buffer.height == height,
                sub_buffer.first_line == first_line,
                sub_buffer.is_grid(),
                forall|x: usize, y: usize|
                    x < width && first_line <= y < first_line + height
                        ==> #[trigger] shade.requires((x, y)),
                forall|x2: int, y2: int|
                    0 <= x2 < width && (0 <= y2 < y_buffer || (y2 == y_buffer && x2 < x))
                        ==> shade.ensures(
                        (x2 as usize, (y2 + first_line) as usize),
                        #[trigger] sub_buffer.pixel_at(x2, y2),
                    ),
            decreases width - x,
        {
            let ghost before = *sub_buffer;
            assert(y_buffer * width + x < width * height) by (nonlinear_arith)
                requires
                    y_buffer < height,
                    x < width,
            ;
            let c = shade(x, y);
            sub_buffer.set_pixel(x, y_buffer, c);
            proof {
                assert forall|x2: int, y2: int|
                    0 <= x2 < width && (0 <= y2 < y_buffer || (y2 == y_buffer && x2 < x + 1))
                    implies shade.ensures(
                    (x2 as usize, (y2 + first_line) as usize),
                    #[trigger] sub_buffer.pixel_at(x2, y2),
                ) by {
                    if y2 == y_buffer && x2 == x {
                        assert(sub_buffer.pixel_at(x2, y2) == c);
                    } else {
                        assert(y2 * width + x2 != y_buffer * width + x) by (nonlinear_arith)
                            requires
                                0 <= x2 < width,
                                0 <= x < width,
                                0 <= y2 <= y_buffer,
                                y2 < y_buffer || x2 < x,
                        ;
                        assert(0 <= y2 * width + x2 < width * height) by (nonlinear_arith)
                            requires
                                0 <= x2 < width,
                                0 <= y2 < height,
                        ;
                        assert(sub_buffer.pixel_at(x2, y2) == before.pixel_at(x2, y2));
                    }
                }
            }
            x = x + 1;
        }
        y_buffer = y_buffer + 1;
    }
}

/// Renders an image of `image_width` by `image_height` in `thread_count`
/// slices, one after the other: a fresh buffer is split, every slice is
/// rendered by itself, and the slices are joined again. Every pixel of the
/// image is what `shade` returns for its own column and row, however the
/// rows were dealt out.
pub fn render_image<T: Copy, F: Fn(usize, usize) -> T>(
    image_width: usize,
    image_height: usize,
    thread_count: usize,
    fill: T,
    shade: &F,
) -> (image: ImageBuffer<T>)
    requires
        thread_count > 0,
        image_width * image_height <= usize::MAX,
        forall|x: usize, y: usize|
            x < image_width && y < image_height ==> #[trigger] shade.requires((x, y)),
    ensures
        image.width == image_width,
        image.height == image_height,
        image.first_line == 0,
        image.is_grid(),
        forall|x: int, y: int|
            0 <= x < image_width && 0 <= y < image_height ==> shade.ensures(
                (x as usize, y as usize),
                #[trigger] image.pixel_at(x, y),
            ),
{
    let data_buf = ImageBuffer::alloc_data_buf(image_width, image_height, fill);
    let buffer = ImageBuffer::new(image_width, image_height, data_buf);
    let ghost blank = buffer;
    let mut sub_buffers = buffer.get_split_buffers(thread_count);
    let ghost height = image_height as int;
    let ghost splits = thread_count as int;
    proof {
        lemma_slices_tile(height, splits);
        ImageBuffer::lemma_split_then_join(blank, sub_buffers@, splits);
    }
    let mut i: usize = 0;
    while i < thread_count
        invariant
            i <= thread_count,
            0 < thread_count,
            height == image_height,
            splits == thread_count,
            sub_buffers.len() == thread_count,
            forall|x: usize, y: usize|
                x < image_width && y < image_height ==> #[trigger] shade.requires((x, y)),
            forall|j: int|
                0 <= j < splits ==> {
                    let p = #[trigger] sub_buffers[j];
                    &&& p.width == image_width
                    &&& p.first_line == slice_start(height, splits, j)
                    &&& p.height == slice_rows(height, splits, j)
                    &&& p.is_grid()
                },
            forall|j: int, x: int, y: int|
                0 <= j < i && 0 <= x < image_width && 0 <= y < sub_buffers[j].height
                    ==> shade.ensures(
                    (x as usize, (y + sub_buffers[j].first_line) as usize),
                    #[trigger] sub_buffers[j].pixel_at(x, y),
                ),
        decreases thread_count - i,
    {
        proof {
            lemma_slices_tile(height, splits);
            assert(0 <= slice_rows(height, splits, i as int));
            assert(slice_start(height, splits, i as int) + slice_rows(height, splits, i as int)
                <= height);
        }
        let ghost before = sub_buffers@;
        render_slice(&mut sub_buffers[i], shade);
        proof {
            assert forall|j: int, x: int, y: int|
                0 <= j < i + 1 && 0 <= x < image_width && 0 <= y < sub_buffers[j].height
                implies shade.ensures(
                (x as usize, (y + sub_buffers[j].first_line) as usize),
                #[trigger] sub_buffers[j].pixel_at(x, y),
            ) by {
                if j < i {
                    assert(sub_buffers[j] == before[j]);
                }
            }
        }
        i = i + 1;
    }
    let ghost parts = sub_buffers@;
    proof {
        ImageBuffer::lemma_rows_of_slices(parts, image_width, height, splits, splits);
        assert(parts.take(splits) == parts);
        assert(ImageBuffer::joinable(parts)) by {
            assert forall|j: int| 0 < j < parts.len() implies (#[trigger] parts[j]).first_line
                == parts[j - 1].first_line + parts[j - 1].height by {
                assert(slice_start(height, splits, j - 1) + slice_rows(height, splits, j - 1)
                    == slice_start(height, splits, (j - 1) + 1));
            }
        }
    }
    let joined = ImageBuffer::join_split_buffers(sub_buffers);
    let image = joined.unwrap();
    proof {
        assert forall|x: int, y: int|
            0 <= x < image_width && 0 <= y < image_height implies shade.ensures(
            (x as usize, y as usize),
            #[trigger] image.pixel_at(x, y),
        ) by {
            lemma_row_in_one_slice(height, splits, y);
            let j = choose|j: int| 0 <= j < splits && #[trigger] row_in_slice(height, splits, j, y);
            let start = slice_start(height, splits, j);
            ImageBuffer::lemma_rows_of_slices(parts, image_width, height, splits, j);
            assert(0 <= (y - start) * image_width + x < image_width * parts[j].height)
                by (nonlinear_arith)
                requires
                    0 <= x < image_width,
                    0 <= y - start < parts[j].height,
            ;
            ImageBuffer::lemma_joined_pixel(parts, j, (y - start) * image_width + x);
            assert(start * image_width + ((y - start) * image_width + x) == y * image_width + x)
                by (nonlinear_arith);
            assert(image_width * start == start * image_width) by (nonlinear_arith);
            assert(image.pixel_at(x, y) == parts[j].pixel_at(x, y - start));
        }
    }
    image
}

} // verus!
