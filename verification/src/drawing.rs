use vstd::prelude::*;

verus! {

/// An 8-bit RGB image of the `image` crate (`image::RgbImage`), as handed to
/// an encoder. The verifier does not look inside it: what it holds goes by
/// the name `image_rows`, and only the three functions below touch it.
#[verifier::external_body]
pub struct Image {
    inner: image::RgbImage,
}

/// The rows of an image, top row first, each pixel as red, green and blue:
/// as many rows as the image is high, each as long as the image is wide.
pub uninterp spec fn image_rows(image: Image) -> Seq<Seq<(u8, u8, u8)>>;

/// The channels of an image as the encoder reads them: row after row, pixel
/// after pixel, red, green, blue.
pub open spec fn raw_bytes(rows: Seq<Seq<(u8, u8, u8)>>) -> Seq<u8> {
    let width = rows[0].len() as int;
    Seq::new(
        3 * rows.len() * rows[0].len(),
        |k: int|
            {
                let rgb = rows[(k / 3) / width][(k / 3) % width];
                if k % 3 == 0 {
                    rgb.0
                } else if k % 3 == 1 {
                    rgb.1
                } else {
                    rgb.2
                }
            },
    )
}

/// Where the channels of pixel `(x, y)` start among the raw bytes of an image
/// `width` wide.
pub open spec fn raw_offset(width: nat, x: int, y: int) -> int {
    (y * width + x) * 3
}

/// `image::ImageBuffer::new` for 8-bit RGB: an image of the given size with
/// every channel of every pixel zero. It panics where three times the number
/// of pixels does not fit a vector, which `requires` leaves out.
#[verifier::external_body]
fn blank_image(width: u32, height: u32) -> (image: Image)
    requires
        3 * width * height <= isize::MAX,
    ensures
        image_rows(image) == Seq::new(
            height as nat,
            |y: int| Seq::new(width as nat, |x: int| (0u8, 0u8, 0u8)),
        ),
{
    Image { inner: image::RgbImage::new(width, height) }
}

/// `image::ImageBuffer::put_pixel`: replaces the pixel in column `x` of row
/// `y` and no other. It panics outside the image, which `requires` leaves
/// out.
#[verifier::external_body]
fn put_pixel(image: &mut Image, x: u32, y: u32, rgb: (u8, u8, u8))
    requires
        y < image_rows(*old(image)).len(),
        x < image_rows(*old(image))[y as int].len(),
    ensures
        image_rows(*final(image)) == image_rows(*old(image)).update(
            y as int,
            image_rows(*old(image))[y as int].update(x as int, rgb),
        ),
{
    image.inner.put_pixel(x, y, image::Rgb([rgb.0, rgb.1, rgb.2]))
}

/// `image::ImageBuffer::into_raw`: the buffer behind the image, in which
/// pixel `(x, y)` of an image `width` wide starts at index
/// `(y * width + x) * 3`.
#[verifier::external_body]
fn image_into_raw(image: Image) -> (bytes: Vec<u8>)
    ensures
        bytes@ == raw_bytes(image_rows(image)),
{
    image.inner.into_raw()
}

/// Where the channels of pixel `(x, y)` stand among the raw bytes.
pub proof fn lemma_raw_bytes_layout(rows: Seq<Seq<(u8, u8, u8)>>, x: int, y: int)
    requires
        ColorMatrix::<(u8, u8, u8)>::rectangular(rows),
        0 <= y < rows.len(),
        0 <= x < rows[0].len(),
    ensures
        raw_bytes(rows).len() == 3 * rows.len() * rows[0].len(),
        0 <= raw_offset(rows[0].len(), x, y),
        raw_offset(rows[0].len(), x, y) + 2 < raw_bytes(rows).len(),
        raw_bytes(rows)[raw_offset(rows[0].len(), x, y)] == rows[y][x].0,
        raw_bytes(rows)[raw_offset(rows[0].len(), x, y) + 1] == rows[y][x].1,
        raw_bytes(rows)[raw_offset(rows[0].len(), x, y) + 2] == rows[y][x].2,
{
    let width = rows[0].len() as int;
    let height = rows.len() as int;
    let p = y * width + x;
    assert(0 <= p < height * width) by (nonlinear_arith)
        requires
            0 <= x < width,
            0 <= y < height,
            p == y * width + x,
    ;
    assert(p / width == y && p % width == x) by (nonlinear_arith)
        requires
            0 <= x < width,
            0 <= y,
            p == y * width + x,
    ;
    assert(3 * rows.len() * rows[0].len() == 3 * (height * width)) by (nonlinear_arith)
        requires
            height == rows.len(),
            width == rows[0].len(),
    ;
    assert((p * 3) / 3 == p && (p * 3 + 1) / 3 == p && (p * 3 + 2) / 3 == p);
    assert((p * 3) % 3 == 0 && (p * 3 + 1) % 3 == 1 && (p * 3 + 2) % 3 == 2);
}

impl Image {
    /// The rows of the image.
    pub open spec fn view(&self) -> Seq<Seq<(u8, u8, u8)>> {
        image_rows(*self)
    }

    /// Hands the image over as the bytes that an encoder reads: three for
    /// each pixel, and those of pixel `(x, y)` from `raw_offset` on.
    pub fn into_raw(self) -> (bytes: Vec<u8>)
        ensures
            bytes@ == raw_bytes(self@),
            ColorMatrix::<(u8, u8, u8)>::rectangular(self@) ==> {
                &&& bytes@.len() == 3 * self@.len() * self@[0].len()
                &&& forall|x: int, y: int|
                    0 <= x < self@[0].len() && 0 <= y < self@.len() ==> {
                        let at = #[trigger] raw_offset(self@[0].len(), x, y);
                        &&& 0 <= at
                        &&& at + 2 < bytes@.len()
                        &&& self@[y][x] == (bytes@[at], bytes@[at + 1], bytes@[at + 2])
                    }
            },
    {
        let ghost rows = self@;
        let bytes = image_into_raw(self);
        proof {
            if ColorMatrix::<(u8, u8, u8)>::rectangular(rows) {
                lemma_raw_bytes_layout(rows, 0, 0);
                assert forall|x: int, y: int|
                    0 <= x < rows[0].len() && 0 <= y < rows.len() implies {
                    let at = #[trigger] raw_offset(rows[0].len(), x, y);
                    &&& 0 <= at
                    &&& at + 2 < bytes@.len()
                    &&& rows[y][x] == (bytes@[at], bytes@[at + 1], bytes@[at + 2])
                } by {
                    lemma_raw_bytes_layout(rows, x, y);
                }
            }
        }
        bytes
    }
}

/// A frame: a grid of pixels in rows. A well-formed frame has `height` rows
/// of `width` pixels each, neither of them zero; every frame that this module
/// hands out is well formed, and its methods keep it so.
pub struct ColorMatrix<C> {
    matrix: Vec<Vec<C>>,
}

impl<C> ColorMatrix<C> {
    /// The rows of the frame, top row first.
    pub closed spec fn view(&self) -> Seq<Seq<C>> {
        Seq::new(self.matrix@.len(), |y: int| self.matrix@[y]@)
    }

    /// The rows form a non-empty rectangle.
    pub open spec fn rectangular(rows: Seq<Seq<C>>) -> bool {
        &&& rows.len() > 0
        &&& rows[0].len() > 0
        &&& forall|y: int| 0 <= y < rows.len() ==> #[trigger] rows[y].len() == rows[0].len()
    }

    pub open spec fn wf(&self) -> bool {
        Self::rectangular(self@)
    }

    pub open spec fn spec_width(&self) -> nat {
        self@[0].len()
    }

    pub open spec fn spec_height(&self) -> nat {
        self@.len()
    }

    /// The pixel in column `x` of row `y`.
    pub open spec fn pixel(&self, x: int, y: int) -> C {
        self@[y][x]
    }

    pub fn width(&self) -> (w: usize)
        requires
            self.wf(),
        ensures
            w == self.spec_width(),
    {
        assert(self@[0] == self.matrix@[0]@);
        self.matrix[0].len()
    }

    pub fn height(&self) -> (h: usize)
        requires
            self.wf(),
        ensures
            h == self.spec_height(),
    {
        self.matrix.len()
    }
}

impl<C: Copy> ColorMatrix<C> {
    /// A frame of the given size with every pixel `fill`, or `None` where a
    /// dimension is zero.
    pub fn new(width: usize, height: usize, fill: C) -> (made: Option<Self>)
        ensures
            made is None <==> width == 0 || height == 0,
            made matches Some(m) ==> {
                &&& m.wf()
                &&& m.spec_width() == width
                &&& m.spec_height() == height
                &&& forall|x: int, y: int|
                    0 <= x < width && 0 <= y < height ==> #[trigger] m.pixel(x, y) == fill
            },
    {
        if width == 0 || height == 0 {
            return None;
        }
        let mut matrix: Vec<Vec<C>> = Vec::new();
        let mut y: usize = 0;
        while y < height
            invariant
                y <= height,
                matrix@.len() == y,
                forall|j: int| 0 <= j < y ==> (#[trigger] matrix@[j])@.len() == width,
                forall|i: int, j: int| 0 <= j < y && 0 <= i < width ==> #[trigger] matrix@[j]@[i] == fill,
            decreases height - y,
        {
            let mut row: Vec<C> = Vec::new();
            let mut x: usize = 0;
            while x < width
                invariant
                    x <= width,
                    row@.len() == x,
                    forall|i: int| 0 <= i < x ==> #[trigger] row@[i] == fill,
                decreases width - x,
            {
                row.push(fill);
                x += 1;
            }
            matrix.push(row);
            y += 1;
        }
        let made = ColorMatrix { matrix };
        assert(Self::rectangular(made@));
        Some(made)
    }

    /// The pixel in column `x` of row `y`.
    pub fn get(&self, x: usize, y: usize) -> (c: C)
        requires
            self.wf(),
            x < self.spec_width(),
            y < self.spec_height(),
        ensures
            c == self.pixel(x as int, y as int),
    {
        assert(self@[y as int] == self.matrix@[y as int]@);
        self.matrix[y][x]
    }

    /// Replaces the pixel in column `x` of row `y`, and no other.
    pub fn set(&mut self, x: usize, y: usize, c: C)
        requires
            old(self).wf(),
            x < old(self).spec_width(),
            y < old(self).spec_height(),
        ensures
            final(self).wf(),
            final(self)@ == old(self)@.update(y as int, old(self)@[y as int].update(x as int, c)),
            final(self).spec_width() == old(self).spec_width(),
            final(self).spec_height() == old(self).spec_height(),
            forall|i: int, j: int|
                0 <= i < old(self).spec_width() && 0 <= j < old(self).spec_height()
                    ==> #[trigger] final(self).pixel(i, j) == if i == x && j == y {
                    c
                } else {
                    old(self).pixel(i, j)
                },
    {
        assert(self@[y as int] == self.matrix@[y as int]@);
        assert(self@[0] == self.matrix@[0]@);
        self.matrix[y][x] = c;
        assert(self@ =~= old(self)@.update(y as int, old(self)@[y as int].update(x as int, c)));
    }

    /// The frame as an 8-bit image: every pixel is what `to_rgb` makes of the
    /// frame's pixel in that place.
    pub fn to_image<F: Fn(C) -> (u8, u8, u8)>(&self, to_rgb: &F) -> (image: Image)
        requires
            self.wf(),
            self.spec_width() <= u32::MAX,
            self.spec_height() <= u32::MAX,
            3 * self.spec_width() * self.spec_height() <= isize::MAX,
            forall|x: int, y: int|
                0 <= x < self.spec_width() && 0 <= y < self.spec_height() ==> call_requires(
                    *to_rgb,
                    (#[trigger] self.pixel(x, y),),
                ),
        ensures
            ColorMatrix::<(u8, u8, u8)>::rectangular(image@),
            image@.len() == self.spec_height(),
            forall|y: int|
                0 <= y < self.spec_height() ==> (#[trigger] image@[y]).len() == self.spec_width(),
            forall|x: int, y: int|
                0 <= x < self.spec_width() && 0 <= y < self.spec_height() ==> call_ensures(
                    *to_rgb,
                    (self.pixel(x, y),),
                    #[trigger] image@[y][x],
                ),
    {
        let width = self.width();
        let height = self.height();
        let mut img = blank_image(width as u32, height as u32);
        let mut x: usize = 0;
        while x < width
            invariant
                x <= width,
                self.wf(),
                width == self.spec_width(),
                height == self.spec_height(),
                width <= u32::MAX,
                height <= u32::MAX,
                forall|i: int, j: int|
                    0 <= i < width && 0 <= j < height ==> call_requires(
                        *to_rgb,
                        (#[trigger] self.pixel(i, j),),
                    ),
                image_rows(img).len() == height,
                forall|j: int| 0 <= j < height ==> (#[trigger] image_rows(img)[j]).len() == width,
                forall|i: int, j: int|
                    0 <= i < x && 0 <= j < height ==> call_ensures(
                        *to_rgb,
                        (self.pixel(i, j),),
                        #[trigger] image_rows(img)[j][i],
                    ),
            decreases width - x,
        {
            let mut y: usize = 0;
            while y < height
                invariant
                    x < width,
                    y <= height,
                    self.wf(),
                    width == self.spec_width(),
                    height == self.spec_height(),
                    width <= u32::MAX,
                    height <= u32::MAX,
                    forall|i: int, j: int|
                        0 <= i < width && 0 <= j < height ==> call_requires(
                            *to_rgb,
                            (#[trigger] self.pixel(i, j),),
                        ),
                    image_rows(img).len() == height,
                    forall|j: int|
                        0 <= j < height ==> (#[trigger] image_rows(img)[j]).len() == width,
                    forall|i: int, j: int|
                        0 <= i < width && 0 <= j < height && (i < x || (i == x && j < y))
                            ==> call_ensures(
                            *to_rgb,
                            (self.pixel(i, j),),
                            #[trigger] image_rows(img)[j][i],
                        ),
                decreases height - y,
            {
                let rgb = to_rgb(self.get(x, y));
                put_pixel(&mut img, x as u32, y as u32, rgb);
                y += 1;
            }
            x += 1;
        }
        img
    }

    /// Places rows `from..to` of `band` into this frame and leaves the other
    /// rows as they are. Bands of one frame are disjoint, so placing each is
    /// compositing them.
    pub fn composite(&mut self, band: &ColorMatrix<C>, from: usize, to: usize)
        requires
            old(self).wf(),
            band.wf(),
            band.spec_width() == old(self).spec_width(),
            band.spec_height() == old(self).spec_height(),
            from <= to <= old(self).spec_height(),
        ensures
            final(self).wf(),
            final(self).spec_width() == old(self).spec_width(),
            final(self).spec_height() == old(self).spec_height(),
            forall|x: int, y: int|
                0 <= x < old(self).spec_width() && 0 <= y < old(self).spec_height()
                    ==> #[trigger] final(self).pixel(x, y) == if from <= y < to {
                    band.pixel(x, y)
                } else {
                    old(self).pixel(x, y)
                },
    {
        let width = self.width();
        let mut y: usize = from;
        while y < to
            invariant
                from <= y <= to,
                to <= self.spec_height(),
                self.wf(),
                band.wf(),
                width == self.spec_width(),
                self.spec_width() == old(self).spec_width(),
                self.spec_height() == old(self).spec_height(),
                band.spec_width() == width,
                band.spec_height() == self.spec_height(),
                forall|i: int, j: int|
                    0 <= i < width && 0 <= j < self.spec_height() ==> #[trigger] self.pixel(i, j) == if from
                        <= j < y {
                        band.pixel(i, j)
                    } else {
                        old(self).pixel(i, j)
                    },
            decreases to - y,
        {
            let mut x: usize = 0;
            while x < width
                invariant
                    x <= width,
                    from <= y < to,
                    to <= self.spec_height(),
                    self.wf(),
                    band.wf(),
                    width == self.spec_width(),
                    self.spec_width() == old(self).spec_width(),
                    self.spec_height() == old(self).spec_height(),
                    band.spec_width() == width,
                    band.spec_height() == self.spec_height(),
                    forall|i: int, j: int|
                        0 <= i < width && 0 <= j < self.spec_height() ==> #[trigger] self.pixel(i, j)
                            == if from <= j < y || (j == y && i < x) {
                            band.pixel(i, j)
                        } else {
                            old(self).pixel(i, j)
                        },
                decreases width - x,
            {
                let c = band.get(x, y);
                self.set(x, y, c);
                x += 1;
            }
            y += 1;
        }
    }

    /// Merges one more sample into the running frame: every pixel becomes
    /// what `blend` makes of the pixel so far, the sample's pixel and the
    /// number of samples merged before.
    pub fn add_iteration<F: Fn(C, C, usize) -> C>(
        &mut self,
        sample: &ColorMatrix<C>,
        iteration: usize,
        blend: &F,
    )
        requires
            old(self).wf(),
            sample.wf(),
            sample.spec_width() == old(self).spec_width(),
            sample.spec_height() == old(self).spec_height(),
            forall|x: int, y: int|
                0 <= x < sample.spec_width() && 0 <= y < sample.spec_height() ==> call_requires(
                    *blend,
                    (#[trigger] old(self).pixel(x, y), sample.pixel(x, y), iteration),
                ),
        ensures
            final(self).wf(),
            final(self).spec_width() == old(self).spec_width(),
            final(self).spec_height() == old(self).spec_height(),
            forall|x: int, y: int|
                0 <= x < old(self).spec_width() && 0 <= y < old(self).spec_height() ==> call_ensures(
                    *blend,
                    (old(self).pixel(x, y), sample.pixel(x, y), iteration),
                    #[trigger] final(self).pixel(x, y),
                ),
    {
        let width = self.width();
        let height = self.height();
        let mut y: usize = 0;
        while y < height
            invariant
                y <= height,
                self.wf(),
                sample.wf(),
                width == self.spec_width(),
                height == self.spec_height(),
                self.spec_width() == old(self).spec_width(),
                self.spec_height() == old(self).spec_height(),
                sample.spec_width() == width,
                sample.spec_height() == height,
                forall|i: int, j: int|
                    0 <= i < width && 0 <= j < height ==> call_requires(
                        *blend,
                        (#[trigger] old(self).pixel(i, j), sample.pixel(i, j), iteration),
                    ),
                forall|i: int, j: int|
                    0 <= i < width && 0 <= j < height ==> if j < y {
                        call_ensures(
                            *blend,
                            (old(self).pixel(i, j), sample.pixel(i, j), iteration),
                            #[trigger] self.pixel(i, j),
                        )
                    } else {
                        self.pixel(i, j) == old(self).pixel(i, j)
                    },
            decreases height - y,
        {
            let mut x: usize = 0;
            while x < width
                invariant
                    x <= width,
                    y < height,
                    self.wf(),
                    sample.wf(),
                    width == self.spec_width(),
                    height == self.spec_height(),
                    self.spec_width() == old(self).spec_width(),
                    self.spec_height() == old(self).spec_height(),
                    sample.spec_width() == width,
                    sample.spec_height() == height,
                    forall|i: int, j: int|
                        0 <= i < width && 0 <= j < height ==> call_requires(
                            *blend,
                            (#[trigger] old(self).pixel(i, j), sample.pixel(i, j), iteration),
                        ),
                    forall|i: int, j: int|
                        0 <= i < width && 0 <= j < height ==> if j < y || (j == y && i < x) {
                            call_ensures(
                                *blend,
                                (old(self).pixel(i, j), sample.pixel(i, j), iteration),
                                #[trigger] self.pixel(i, j),
                            )
                        } else {
                            self.pixel(i, j) == old(self).pixel(i, j)
                        },
                decreases width - x,
            {
                let c = blend(self.get(x, y), sample.get(x, y), iteration);
                self.set(x, y, c);
                x += 1;
            }
            y += 1;
        }
    }
}

} // verus!
