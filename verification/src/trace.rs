use crate::drawing::ColorMatrix;
use vstd::prelude::*;

verus! {

/// Default number of workers.
pub const THREAD_NUMBER: usize = 2;

/// Default number of samples between two flushes of the running frame.
pub const FLUSH_INTERVAL: usize = 8;

/// First row of the band of worker `index`.
pub open spec fn band_start(height: int, workers: int, index: int) -> int {
    (height / workers) * index
}

/// The row after the last of the band of worker `index`: bands are equally
/// high, but the last takes the rows that are left as well.
pub open spec fn band_end(height: int, workers: int, index: int) -> int {
    if index == workers - 1 {
        height
    } else {
        (height / workers) * (index + 1)
    }
}

/// The bands lie one after another from row 0 to the last row.
pub proof fn lemma_bands_are_contiguous(height: int, workers: int, index: int)
    requires
        0 <= height,
        0 < workers,
        0 <= index < workers,
    ensures
        band_start(height, workers, 0) == 0,
        band_end(height, workers, workers - 1) == height,
        0 <= band_start(height, workers, index) <= band_end(height, workers, index) <= height,
        index + 1 < workers ==> band_end(height, workers, index) == band_start(
            height,
            workers,
            index + 1,
        ),
{
    let batch = height / workers;
    assert(0 <= batch && batch * workers <= height) by (nonlinear_arith)
        requires
            batch == height / workers,
            0 <= height,
            0 < workers,
    ;
    assert(0 <= batch * index <= batch * (index + 1) <= batch * workers) by (nonlinear_arith)
        requires
            0 <= batch,
            0 <= index < workers,
    ;
}

/// Every row belongs to the band of exactly one worker.
pub proof fn lemma_bands_partition(height: int, workers: int, row: int)
    requires
        0 < workers,
        0 <= row < height,
    ensures
        exists|index: int|
            0 <= index < workers && #[trigger] band_start(height, workers, index) <= row < band_end(
                height,
                workers,
                index,
            ),
        forall|i: int, k: int|
            #![trigger band_start(height, workers, i), band_start(height, workers, k)]
            0 <= i < workers && 0 <= k < workers && band_start(height, workers, i) <= row < band_end(
                height,
                workers,
                i,
            ) && band_start(height, workers, k) <= row < band_end(height, workers, k) ==> i == k,
{
    let batch = height / workers;
    assert(0 <= batch && batch * workers <= height) by (nonlinear_arith)
        requires
            batch == height / workers,
            0 <= height,
            0 < workers,
    ;
    assert forall|i: int, k: int|
        #![trigger band_start(height, workers, i), band_start(height, workers, k)]
        0 <= i < workers && 0 <= k < workers && band_start(height, workers, i) <= row < band_end(
            height,
            workers,
            i,
        ) && band_start(height, workers, k) <= row < band_end(height, workers, k) implies i == k by {
        if i < k {
            lemma_bands_are_contiguous(height, workers, i);
            assert(batch * (i + 1) <= batch * k) by (nonlinear_arith)
                requires
                    0 <= batch,
                    i + 1 <= k,
            ;
        } else if k < i {
            lemma_bands_are_contiguous(height, workers, k);
            assert(batch * (k + 1) <= batch * i) by (nonlinear_arith)
                requires
                    0 <= batch,
                    k + 1 <= i,
            ;
        }
    }
    lemma_band_of_row(height, workers, row, 0);
}

/// Searching upwards from a band that starts at or before `row` finds the
/// band that holds it.
proof fn lemma_band_of_row(height: int, workers: int, row: int, index: int)
    requires
        0 < workers,
        0 <= row < height,
        0 <= index < workers,
        band_start(height, workers, index) <= row,
    ensures
        exists|found: int|
            0 <= found < workers && #[trigger] band_start(height, workers, found) <= row < band_end(
                height,
                workers,
                found,
            ),
    decreases workers - index,
{
    if row < band_end(height, workers, index) {
    } else {
        lemma_bands_are_contiguous(height, workers, index);
        lemma_band_of_row(height, workers, row, index + 1);
    }
}

/// The rows `from..to` that worker `index` of `workers` renders.
pub fn band(height: usize, workers: usize, index: usize) -> (bounds: (usize, usize))
    requires
        workers > 0,
        index < workers,
    ensures
        bounds.0 == band_start(height as int, workers as int, index as int),
        bounds.1 == band_end(height as int, workers as int, index as int),
{
    let batch_size = height / workers;
    proof {
        lemma_bands_are_contiguous(height as int, workers as int, index as int);
        assert(0 <= batch_size * index <= batch_size * (index + 1) <= batch_size * workers <= height)
            by (nonlinear_arith)
            requires
                batch_size == height / workers,
                0 < workers,
                0 <= index < workers,
        ;
        assert(batch_size * index + batch_size == batch_size * (index + 1)) by (nonlinear_arith);
    }
    let from = batch_size * index;
    let to = if index == workers - 1 {
        height
    } else {
        batch_size * index + batch_size
    };
    (from, to)
}

/// Rows `from..to` of the frame hold what `shade` returned for each of their
/// pixels, and every other row is `background`.
pub open spec fn band_rendered<C, F: Fn(usize, usize) -> C>(
    frame: ColorMatrix<C>,
    shade: F,
    background: C,
    from: int,
    to: int,
) -> bool {
    forall|x: int, y: int|
        0 <= x < frame.spec_width() && 0 <= y < frame.spec_height() ==> if from <= y < to {
            call_ensures(shade, (x as usize, y as usize), #[trigger] frame.pixel(x, y))
        } else {
            frame.pixel(x, y) == background
        }
}

/// Renders rows `from..to` of a frame, row by row and left to right, and
/// leaves the other rows `background`. `shade` gives the colour of the pixel
/// in a column and row.
pub fn trace_in_vertical_bounds<C: Copy, F: Fn(usize, usize) -> C>(
    width: usize,
    height: usize,
    from: usize,
    to: usize,
    background: C,
    shade: &F,
) -> (frame: Option<ColorMatrix<C>>)
    requires
        from <= to <= height,
        forall|x: usize, y: usize| x < width && from <= y < to ==> call_requires(*shade, (x, y)),
    ensures
        frame is None <==> width == 0 || height == 0,
        frame matches Some(m) ==> {
            &&& m.wf()
            &&& m.spec_width() == width
            &&& m.spec_height() == height
            &&& band_rendered(m, *shade, background, from as int, to as int)
        },
{
    let mut matrix = match ColorMatrix::new(width, height, background) {
        None => {
            return None;
        },
        Some(matrix) => matrix,
    };
    let mut j: usize = from;
    while j < to
        invariant
            from <= j <= to <= height,
            matrix.wf(),
            matrix.spec_width() == width,
            matrix.spec_height() == height,
            forall|x: usize, y: usize| x < width && from <= y < to ==> call_requires(*shade, (x, y)),
            band_rendered(matrix, *shade, background, from as int, j as int),
        decreases to - j,
    {
        let mut i: usize = 0;
        while i < width
            invariant
                i <= width,
                from <= j < to,
                to <= height,
                matrix.wf(),
                matrix.spec_width() == width,
                matrix.spec_height() == height,
                forall|x: usize, y: usize|
                    x < width && from <= y < to ==> call_requires(*shade, (x, y)),
                forall|x: int, y: int|
                    0 <= x < width && 0 <= y < height ==> if from <= y < j || (y == j && x < i) {
                        call_ensures(*shade, (x as usize, y as usize), #[trigger] matrix.pixel(x, y))
                    } else {
                        matrix.pixel(x, y) == background
                    },
            decreases width - i,
        {
            let c = shade(i, j);
            matrix.set(i, j, c);
            i += 1;
        }
        j += 1;
    }
    Some(matrix)
}

/// Renders a whole frame: every pixel holds what `shade` returned for it.
pub fn trace<C: Copy, F: Fn(usize, usize) -> C>(
    width: usize,
    height: usize,
    background: C,
    shade: &F,
) -> (frame: Option<ColorMatrix<C>>)
    requires
        forall|x: usize, y: usize| x < width && y < height ==> call_requires(*shade, (x, y)),
    ensures
        frame is None <==> width == 0 || height == 0,
        frame matches Some(m) ==> {
            &&& m.wf()
            &&& m.spec_width() == width
            &&& m.spec_height() == height
            &&& band_rendered(m, *shade, background, 0, height as int)
        },
{
    trace_in_vertical_bounds(width, height, 0, height, background, shade)
}

/// Renders a whole frame in bands, one band per worker, and composites the
/// bands into one frame. The result is what `trace` gives. The bands do not
/// depend on one another: a caller with threads gives each band a thread of
/// its own and composites the bands as they arrive.
pub fn trace_parallel<C: Copy, F: Fn(usize, usize) -> C>(
    width: usize,
    height: usize,
    workers: usize,
    background: C,
    shade: &F,
) -> (frame: Option<ColorMatrix<C>>)
    requires
        workers > 0,
        forall|x: usize, y: usize| x < width && y < height ==> call_requires(*shade, (x, y)),
    ensures
        frame is None <==> width == 0 || height == 0,
        frame matches Some(m) ==> {
            &&& m.wf()
            &&& m.spec_width() == width
            &&& m.spec_height() == height
            &&& band_rendered(m, *shade, background, 0, height as int)
        },
{
    let mut matrix = match ColorMatrix::new(width, height, background) {
        None => {
            return None;
        },
        Some(matrix) => matrix,
    };
    let mut index: usize = 0;
    while index < workers
        invariant
            index <= workers,
            width > 0,
            height > 0,
            matrix.wf(),
            matrix.spec_width() == width,
            matrix.spec_height() == height,
            forall|x: usize, y: usize| x < width && y < height ==> call_requires(*shade, (x, y)),
            index < workers ==> band_rendered(
                matrix,
                *shade,
                background,
                0,
                band_start(height as int, workers as int, index as int),
            ),
            index == workers ==> band_rendered(matrix, *shade, background, 0, height as int),
        decreases workers - index,
    {
        let (from, to) = band(height, workers, index);
        proof {
            lemma_bands_are_contiguous(height as int, workers as int, index as int);
        }
        let part = match trace_in_vertical_bounds(width, height, from, to, background, shade) {
            None => {
                return None;
            },
            Some(part) => part,
        };
        let ghost before = matrix;
        matrix.composite(&part, from, to);
        assert(band_rendered(matrix, *shade, background, 0, to as int)) by {
            assert forall|x: int, y: int|
                0 <= x < matrix.spec_width() && 0 <= y < matrix.spec_height() implies if 0 <= y < to {
                call_ensures(*shade, (x as usize, y as usize), #[trigger] matrix.pixel(x, y))
            } else {
                matrix.pixel(x, y) == background
            } by {
                if from <= y < to {
                    assert(matrix.pixel(x, y) == part.pixel(x, y));
                } else {
                    assert(matrix.pixel(x, y) == before.pixel(x, y));
                }
            }
        }
        index += 1;
    }
    Some(matrix)
}

/// The consumer's side of progressive rendering: the running frame and the
/// number of samples merged into it.
pub struct Accumulator<C> {
    matrix: ColorMatrix<C>,
    iteration: usize,
}

impl<C> Accumulator<C> {
    /// The running frame.
    pub closed spec fn frame(&self) -> ColorMatrix<C> {
        self.matrix
    }

    /// The number of samples merged so far.
    pub closed spec fn merged(&self) -> usize {
        self.iteration
    }

    pub open spec fn wf(&self) -> bool {
        self.frame().wf()
    }
}

/// Whether the running frame is written out after the sample that was merged
/// when `iteration` samples had been merged before it.
pub open spec fn flush_due(iteration: int, flush_interval: int) -> bool {
    iteration % flush_interval == 0
}

/// What `absorb` does to the running frame: each pixel of `after` is what
/// `blend` made of the pixel of `before`, the sample's pixel and `iteration`.
pub open spec fn merged_into<C, F: Fn(C, C, usize) -> C>(
    before: ColorMatrix<C>,
    sample: ColorMatrix<C>,
    iteration: usize,
    blend: F,
    after: ColorMatrix<C>,
) -> bool {
    &&& after.spec_width() == before.spec_width()
    &&& after.spec_height() == before.spec_height()
    &&& forall|x: int, y: int|
        0 <= x < before.spec_width() && 0 <= y < before.spec_height() ==> call_ensures(
            blend,
            (before.pixel(x, y), sample.pixel(x, y), iteration),
            #[trigger] after.pixel(x, y),
        )
}

/// Every pixel of the frame is `c`.
pub open spec fn constant<C>(frame: ColorMatrix<C>, c: C) -> bool {
    forall|x: int, y: int|
        0 <= x < frame.spec_width() && 0 <= y < frame.spec_height() ==> #[trigger] frame.pixel(x, y)
            == c
}

/// Merging samples that all hold one colour `c` leaves the running frame
/// at `c` from the first sample on, for every `blend` that gives the first
/// sample full weight over the background and makes `c` of `c` and `c`.
pub proof fn lemma_constant_samples_stay<C, F: Fn(C, C, usize) -> C>(
    before: ColorMatrix<C>,
    sample: ColorMatrix<C>,
    iteration: usize,
    blend: F,
    after: ColorMatrix<C>,
    background: C,
    c: C,
)
    requires
        sample.spec_width() == before.spec_width(),
        sample.spec_height() == before.spec_height(),
        constant(sample, c),
        iteration == 0 ==> constant(before, background),
        iteration > 0 ==> constant(before, c),
        merged_into(before, sample, iteration, blend, after),
        forall|r: C| #[trigger] call_ensures(blend, (background, c, 0usize), r) ==> r == c,
        forall|n: usize, r: C| #[trigger] call_ensures(blend, (c, c, n), r) ==> r == c,
    ensures
        constant(after, c),
{
    assert forall|x: int, y: int|
        0 <= x < after.spec_width() && 0 <= y < after.spec_height() implies #[trigger] after.pixel(
        x,
        y,
    ) == c by {
        assert(sample.pixel(x, y) == c);
        if iteration == 0 {
            assert(before.pixel(x, y) == background);
        } else {
            assert(before.pixel(x, y) == c);
        }
    }
}

impl<C: Copy> Accumulator<C> {
    /// An accumulator with no sample merged, or `None` where a dimension is
    /// zero.
    pub fn new(width: usize, height: usize, background: C) -> (made: Option<Self>)
        ensures
            made is None <==> width == 0 || height == 0,
            made matches Some(a) ==> {
                &&& a.wf()
                &&& a.merged() == 0
                &&& a.frame().spec_width() == width
                &&& a.frame().spec_height() == height
                &&& forall|x: int, y: int|
                    0 <= x < width && 0 <= y < height ==> #[trigger] a.frame().pixel(x, y)
                        == background
            },
    {
        match ColorMatrix::new(width, height, background) {
            None => None,
            Some(matrix) => Some(Accumulator { matrix, iteration: 0 }),
        }
    }

    /// The running frame.
    pub fn matrix(&self) -> (matrix: &ColorMatrix<C>)
        ensures
            *matrix == self.frame(),
    {
        &self.matrix
    }

    /// The number of samples merged so far.
    pub fn iteration(&self) -> (n: usize)
        ensures
            n == self.merged(),
    {
        self.iteration
    }

    /// Merges one sample into the running frame and says whether the frame
    /// is to be written out now.
    pub fn absorb<F: Fn(C, C, usize) -> C>(
        &mut self,
        sample: &ColorMatrix<C>,
        flush_interval: usize,
        blend: &F,
    ) -> (flush: bool)
        requires
            old(self).wf(),
            sample.wf(),
            sample.spec_width() == old(self).frame().spec_width(),
            sample.spec_height() == old(self).frame().spec_height(),
            flush_interval > 0,
            old(self).merged() < usize::MAX,
            forall|x: int, y: int|
                0 <= x < sample.spec_width() && 0 <= y < sample.spec_height() ==> call_requires(
                    *blend,
                    (#[trigger] old(self).frame().pixel(x, y), sample.pixel(x, y), old(self).merged()),
                ),
        ensures
            final(self).wf(),
            final(self).merged() == old(self).merged() + 1,
            merged_into(
                old(self).frame(),
                *sample,
                old(self).merged(),
                *blend,
                final(self).frame(),
            ),
            flush == flush_due(old(self).merged() as int, flush_interval as int),
    {
        let iteration = self.iteration;
        self.matrix.add_iteration(sample, iteration, blend);
        self.iteration = iteration + 1;
        iteration % flush_interval == 0
    }
}

} // verus!
