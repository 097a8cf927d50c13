//! Finished images: a grid of 8-bit pixels, and how it is written down as
//! plain PPM text and as a PNG stream.
use vstd::prelude::*;
use vstd::string::*;

verus! {

/// A pixel as an image file holds it: red, green and blue, each 0 to 255.
pub type Rgb = (u8, u8, u8);

/// The character of the decimal digit `d`.
pub open spec fn digit(d: int) -> char {
    if d == 0 {
        '0'
    } else if d == 1 {
        '1'
    } else if d == 2 {
        '2'
    } else if d == 3 {
        '3'
    } else if d == 4 {
        '4'
    } else if d == 5 {
        '5'
    } else if d == 6 {
        '6'
    } else if d == 7 {
        '7'
    } else if d == 8 {
        '8'
    } else {
        '9'
    }
}

/// The decimal numeral of `n`, without leading zeros.
pub open spec fn decimal(n: nat) -> Seq<char>
    decreases n,
{
    if n < 10 {
        seq![digit(n as int)]
    } else {
        decimal(n / 10).push(digit((n % 10) as int))
    }
}

/// The `parts` one after another with `separator` between each two.
pub open spec fn joined(parts: Seq<Seq<char>>, separator: Seq<char>) -> Seq<char>
    decreases parts.len(),
{
    if parts.len() == 0 {
        Seq::empty()
    } else if parts.len() == 1 {
        parts[0]
    } else {
        joined(parts.drop_last(), separator) + separator + parts.last()
    }
}

/// A pixel in PPM text: its three numerals with a space between them.
pub open spec fn pixel_text(p: Rgb) -> Seq<char> {
    decimal(p.0 as nat) + seq![' '] + decimal(p.1 as nat) + seq![' '] + decimal(p.2 as nat)
}

/// A row of pixels in PPM text: the pixels with a space between them.
pub open spec fn row_text(row: Seq<Rgb>) -> Seq<char> {
    joined(row.map_values(|p: Rgb| pixel_text(p)), seq![' '])
}

/// The head of a plain PPM file for an image of the given size with 255 as
/// the greatest value: three lines, of which the first names the format, the
/// second gives width and height, and the third the greatest value.
pub open spec fn ppm_header(width: nat, height: nat) -> Seq<char> {
    seq!['P', '3', '\n'] + decimal(width) + seq![' '] + decimal(height) + seq![
        '\n',
        '2',
        '5',
        '5',
        '\n',
    ]
}

/// A plain PPM file: the head, then the rows, one per line, and a newline at
/// the end.
pub open spec fn ppm_document(width: nat, height: nat, rows: Seq<Seq<Rgb>>) -> Seq<char> {
    ppm_header(width, height) + joined(rows.map_values(|row: Seq<Rgb>| row_text(row)), seq!['\n'])
        + seq!['\n']
}

/// The one-character string of the decimal digit `d`.
fn digit_str(d: usize) -> (s: &'static str)
    requires
        d < 10,
    ensures
        s@ == seq![digit(d as int)],
{
    proof {
        reveal_strlit("0");
        reveal_strlit("1");
        reveal_strlit("2");
        reveal_strlit("3");
        reveal_strlit("4");
        reveal_strlit("5");
        reveal_strlit("6");
        reveal_strlit("7");
        reveal_strlit("8");
        reveal_strlit("9");
    }
    let s = if d == 0 {
        "0"
    } else if d == 1 {
        "1"
    } else if d == 2 {
        "2"
    } else if d == 3 {
        "3"
    } else if d == 4 {
        "4"
    } else if d == 5 {
        "5"
    } else if d == 6 {
        "6"
    } else if d == 7 {
        "7"
    } else if d == 8 {
        "8"
    } else {
        "9"
    };
    assert(s@ =~= seq![digit(d as int)]);
    s
}

/// Appends the decimal numeral of `n` to `out`.
fn append_decimal(out: &mut String, n: usize)
    ensures
        final(out)@ == old(out)@ + decimal(n as nat),
    decreases n,
{
    if n >= 10 {
        append_decimal(out, n / 10);
    }
    out.append(digit_str(n % 10));
    proof {
        assert(final(out)@ =~= old(out)@ + decimal(n as nat));
    }
}

/// Appends a pixel in PPM text to `out`.
fn append_pixel(out: &mut String, p: Rgb)
    ensures
        final(out)@ == old(out)@ + pixel_text(p),
{
    proof {
        reveal_strlit(" ");
    }
    append_decimal(out, p.0 as usize);
    out.append(" ");
    append_decimal(out, p.1 as usize);
    out.append(" ");
    append_decimal(out, p.2 as usize);
    assert(" "@ =~= seq![' ']);
    assert(final(out)@ =~= old(out)@ + pixel_text(p));
}

/// Appends a row of pixels in PPM text to `out`.
fn append_row(out: &mut String, row: &Vec<Rgb>)
    ensures
        final(out)@ == old(out)@ + row_text(row@),
{
    proof {
        reveal_strlit(" ");
        assert(" "@ =~= seq![' ']);
    }
    let ghost texts = row@.map_values(|p: Rgb| pixel_text(p));
    let mut x: usize = 0;
    while x < row.len()
        invariant
            x <= row.len(),
            " "@ == seq![' '],
            texts == row@.map_values(|p: Rgb| pixel_text(p)),
            out@ == old(out)@ + joined(texts.take(x as int), seq![' ']),
        decreases row.len() - x,
    {
        if x > 0 {
            out.append(" ");
        }
        append_pixel(out, row[x]);
        proof {
            assert(texts.take(x + 1).drop_last() =~= texts.take(x as int));
            assert(texts.take(x + 1).last() == pixel_text(row@[x as int]));
            assert(out@ =~= old(out)@ + joined(texts.take(x + 1), seq![' ']));
        }
        x = x + 1;
    }
    proof {
        assert(texts.take(x as int) =~= texts);
    }
}

/// An image of 8-bit pixels: `width` columns by `height` rows, every pixel
/// black until it is written.
pub struct PpmCanvas {
    width: usize,
    height: usize,
    grid: Vec<Vec<Rgb>>,
}

impl PpmCanvas {
    /// Whether the grid has `height` rows of `width` pixels each. Every canvas
    /// that `new` made is, and `write_pixel` keeps it so.
    pub closed spec fn well_formed(&self) -> bool {
        &&& self.grid.len() == self.height
        &&& forall|y: int| 0 <= y < self.grid.len() ==> (#[trigger] self.grid[y]).len() == self.width
    }

    /// The number of columns.
    pub closed spec fn spec_width(&self) -> nat {
        self.width as nat
    }

    /// The number of rows.
    pub closed spec fn spec_height(&self) -> nat {
        self.height as nat
    }

    /// The rows from the top, each from the left. There are `spec_height()`
    /// rows of `spec_width()` pixels each.
    pub closed spec fn rows(&self) -> Seq<Seq<Rgb>> {
        Seq::new(self.height as nat, |y: int| self.grid[y]@)
    }

    /// Whether the rows are as many and as long as the size says.
    pub open spec fn rows_fit(&self) -> bool {
        &&& self.rows().len() == self.spec_height()
        &&& forall|y: int|
            0 <= y < self.rows().len() ==> (#[trigger] self.rows()[y]).len() == self.spec_width()
    }

    /// A black image of the given size.
    pub fn new(width: usize, height: usize) -> (canvas: PpmCanvas)
        ensures
            canvas.well_formed(),
            canvas.spec_width() == width,
            canvas.spec_height() == height,
            canvas.rows_fit(),
            forall|x: int, y: int|
                0 <= x < width && 0 <= y < height ==> #[trigger] canvas.rows()[y][x] == (
                    0u8,
                    0u8,
                    0u8,
                ),
    {
        let mut grid: Vec<Vec<Rgb>> = Vec::new();
        let mut y: usize = 0;
        while y < height
            invariant
                y <= height,
                grid.len() == y,
                forall|j: int| 0 <= j < y ==> (#[trigger] grid[j]).len() == width,
                forall|i: int, j: int|
                    0 <= i < width && 0 <= j < y ==> #[trigger] grid[j][i] == (0u8, 0u8, 0u8),
            decreases height - y,
        {
            let mut row: Vec<Rgb> = Vec::new();
            let mut x: usize = 0;
            while x < width
                invariant
                    x <= width,
                    row.len() == x,
                    forall|i: int| 0 <= i < x ==> #[trigger] row[i] == (0u8, 0u8, 0u8),
                decreases width - x,
            {
                row.push((0, 0, 0));
                x = x + 1;
            }
            grid.push(row);
            y = y + 1;
        }
        PpmCanvas { width, height, grid }
    }

    /// The number of columns.
    pub fn width(&self) -> (w: usize)
        ensures
            w == self.spec_width(),
    {
        self.width
    }

    /// The number of rows.
    pub fn height(&self) -> (h: usize)
        ensures
            h == self.spec_height(),
    {
        self.height
    }

    /// The pixel in column `x` of row `y`.
    pub fn pixel_at(&self, x: usize, y: usize) -> (p: &Rgb)
        requires
            self.well_formed(),
            x < self.spec_width(),
            y < self.spec_height(),
        ensures
            self.rows_fit(),
            *p == self.rows()[y as int][x as int],
    {
        &self.grid[y][x]
    }

    /// Sets the pixel in column `x` of row `y` to `c`, and no other.
    pub fn write_pixel(&mut self, c: &Rgb, x: usize, y: usize)
        requires
            old(self).well_formed(),
            x < old(self).spec_width(),
            y < old(self).spec_height(),
        ensures
            final(self).well_formed(),
            final(self).spec_width() == old(self).spec_width(),
            final(self).spec_height() == old(self).spec_height(),
            final(self).rows_fit(),
            final(self).rows() == old(self).rows().update(
                y as int,
                old(self).rows()[y as int].update(x as int, *c),
            ),
    {
        self.grid[y][x] = *c;
        proof {
            assert(final(self).rows() =~= old(self).rows().update(
                y as int,
                old(self).rows()[y as int].update(x as int, *c),
            ));
        }
    }

    /// The image as a plain PPM file: the three lines of the head; then one
    /// line per row with the three values of each pixel, all separated by
    /// single spaces; and a newline at the end.
    pub fn to_ppm(&self) -> (text: String)
        requires
            self.well_formed(),
        ensures
            text@ == ppm_document(self.spec_width(), self.spec_height(), self.rows()),
    {
        proof {
            reveal_strlit("P3\n");
            reveal_strlit(" ");
            reveal_strlit("\n255\n");
            reveal_strlit("\n");
        }
        let mut out = String::from_str("P3\n");
        append_decimal(&mut out, self.width);
        out.append(" ");
        append_decimal(&mut out, self.height);
        out.append("\n255\n");
        proof {
            assert("P3\n"@ =~= seq!['P', '3', '\n']);
            assert(" "@ =~= seq![' ']);
            assert("\n255\n"@ =~= seq!['\n', '2', '5', '5', '\n']);
            assert("\n"@ =~= seq!['\n']);
            assert(out@ =~= ppm_header(self.width as nat, self.height as nat));
        }
        let ghost texts = self.rows().map_values(|row: Seq<Rgb>| row_text(row));
        let mut y: usize = 0;
        while y < self.height
            invariant
                y <= self.height,
                self.grid.len() == self.height,
                "\n"@ == seq!['\n'],
                texts == self.rows().map_values(|row: Seq<Rgb>| row_text(row)),
                out@ == ppm_header(self.width as nat, self.height as nat) + joined(
                    texts.take(y as int),
                    seq!['\n'],
                ),
            decreases self.height - y,
        {
            if y > 0 {
                out.append("\n");
            }
            append_row(&mut out, &self.grid[y]);
            proof {
                assert(texts.take(y + 1).drop_last() =~= texts.take(y as int));
                assert(texts.take(y + 1).last() == row_text(self.grid[y as int]@));
                assert(out@ =~= ppm_header(self.width as nat, self.height as nat) + joined(
                    texts.take(y + 1),
                    seq!['\n'],
                ));
            }
            y = y + 1;
        }
        out.append("\n");
        proof {
            assert(texts.take(y as int) =~= texts);
        }
        out
    }
}

/// Why an image was not written as a PNG stream.
#[derive(Clone, Copy, Debug, PartialEq, Eq, Structural)]
pub enum PngError {
    /// The width or the height does not fit the 32 bits that PNG has for it.
    TooLarge,
    /// The image has no column.
    ZeroWidth,
    /// The image has a column and no row.
    ZeroHeight,
    /// The encoder could not write to its output.
    Io,
    /// The encoder found the image ill-formed.
    Format,
    /// The encoder found a parameter out of place.
    Parameter,
    /// The encoder ran into a limit of its own.
    LimitsExceeded,
}

/// The samples of an image in the order of a PNG scanline: row after row,
/// pixel after pixel, red, green, blue.
pub open spec fn rgb_samples(rows: Seq<Seq<Rgb>>) -> Seq<u8>
    decreases rows.len(),
{
    if rows.len() == 0 {
        Seq::empty()
    } else {
        rgb_samples(rows.drop_last()) + row_samples(rows.last())
    }
}

/// The samples of one row: pixel after pixel, red, green, blue.
pub open spec fn row_samples(row: Seq<Rgb>) -> Seq<u8>
    decreases row.len(),
{
    if row.len() == 0 {
        Seq::empty()
    } else {
        row_samples(row.drop_last()) + seq![row.last().0, row.last().1, row.last().2]
    }
}

/// The PNG stream that the `png` crate's encoder writes for an image of the
/// given size with the given samples, 8 bits deep, in colour type RGB, with
/// the encoder's own choice of filter and compression.
pub uninterp spec fn png_rgb8_stream(width: u32, height: u32, samples: Seq<u8>) -> Seq<u8>;

/// Runs the `png` crate's encoder on an RGB image of 8 bits per sample:
/// `png::Encoder::new` on an empty byte vector, `set_color`, `set_depth`,
/// `write_header`, then `Writer::write_image_data` and `Writer::finish`.
///
/// Believed of it, not proved: where it succeeds, the bytes written are the
/// stream named `png_rgb8_stream` of the three arguments; and its errors are
/// the encoder's four, none of which is one of this library's own three.
/// Nothing is claimed on when it succeeds.
#[verifier::external_body]
fn png_encode_rgb8(width: u32, height: u32, samples: &Vec<u8>) -> (r: Result<Vec<u8>, PngError>)
    requires
        width > 0,
        height > 0,
        samples.len() == 3 * width * height,
    ensures
        match r {
            Ok(stream) => stream@ == png_rgb8_stream(width, height, samples@),
            Err(e) => e == PngError::Io || e == PngError::Format || e == PngError::Parameter || e
                == PngError::LimitsExceeded,
        },
{
    let mut stream: Vec<u8> = Vec::new();
    let mut encoder = png::Encoder::new(&mut stream, width, height);
    encoder.set_color(png::ColorType::Rgb);
    encoder.set_depth(png::BitDepth::Eight);
    let written = encoder.write_header().and_then(
        |mut writer| writer.write_image_data(samples).and_then(|_| writer.finish()),
    );
    match written {
        Ok(()) => Ok(stream),
        Err(png::EncodingError::IoError(_)) => Err(PngError::Io),
        Err(png::EncodingError::Format(_)) => Err(PngError::Format),
        Err(png::EncodingError::Parameter(_)) => Err(PngError::Parameter),
        Err(png::EncodingError::LimitsExceeded) => Err(PngError::LimitsExceeded),
    }
}

/// An image of 8-bit pixels that is written down as PNG.
pub struct PngCanvas {
    inner: PpmCanvas,
}

impl PngCanvas {
    /// Whether the grid has `height` rows of `width` pixels each.
    pub closed spec fn well_formed(&self) -> bool {
        self.inner.well_formed()
    }

    /// The number of columns.
    pub closed spec fn spec_width(&self) -> nat {
        self.inner.spec_width()
    }

    /// The number of rows.
    pub closed spec fn spec_height(&self) -> nat {
        self.inner.spec_height()
    }

    /// The rows from the top, each from the left.
    pub closed spec fn rows(&self) -> Seq<Seq<Rgb>> {
        self.inner.rows()
    }

    /// Whether the rows are as many and as long as the size says.
    pub open spec fn rows_fit(&self) -> bool {
        &&& self.rows().len() == self.spec_height()
        &&& forall|y: int|
            0 <= y < self.rows().len() ==> (#[trigger] self.rows()[y]).len() == self.spec_width()
    }

    /// A black image of the given size.
    pub fn new(width: usize, height: usize) -> (canvas: PngCanvas)
        ensures
            canvas.well_formed(),
            canvas.spec_width() == width,
            canvas.spec_height() == height,
            canvas.rows_fit(),
            forall|x: int, y: int|
                0 <= x < width && 0 <= y < height ==> #[trigger] canvas.rows()[y][x] == (
                    0u8,
                    0u8,
                    0u8,
                ),
    {
        PngCanvas { inner: PpmCanvas::new(width, height) }
    }

    /// The number of columns.
    pub fn width(&self) -> (w: usize)
        ensures
            w == self.spec_width(),
    {
        self.inner.width()
    }

    /// The number of rows.
    pub fn height(&self) -> (h: usize)
        ensures
            h == self.spec_height(),
    {
        self.inner.height()
    }

    /// The pixel in column `x` of row `y`.
    pub fn pixel_at(&self, x: usize, y: usize) -> (p: &Rgb)
        requires
            self.well_formed(),
            x < self.spec_width(),
            y < self.spec_height(),
        ensures
            self.rows_fit(),
            *p == self.rows()[y as int][x as int],
    {
        self.inner.pixel_at(x, y)
    }

    /// Sets the pixel in column `x` of row `y` to `c`, and no other.
    pub fn write_pixel(&mut self, c: &Rgb, x: usize, y: usize)
        requires
            old(self).well_formed(),
            x < old(self).spec_width(),
            y < old(self).spec_height(),
        ensures
            final(self).well_formed(),
            final(self).spec_width() == old(self).spec_width(),
            final(self).spec_height() == old(self).spec_height(),
            final(self).rows_fit(),
            final(self).rows() == old(self).rows().update(
                y as int,
                old(self).rows()[y as int].update(x as int, *c),
            ),
    {
        self.inner.write_pixel(c, x, y);
    }

    /// The samples of the image, as many as three times its pixels: row after
    /// row, pixel after pixel, red, green, blue.
    pub fn samples(&self) -> (data: Vec<u8>)
        requires
            self.well_formed(),
        ensures
            data@ == rgb_samples(self.rows()),
            data.len() == 3 * self.spec_width() * self.spec_height(),
    {
        let mut data: Vec<u8> = Vec::new();
        let mut y: usize = 0;
        while y < self.inner.height
            invariant
                self.inner.well_formed(),
                y <= self.inner.height,
                data@ == rgb_samples(self.rows().take(y as int)),
                data.len() == 3 * self.inner.width * y,
            decreases self.inner.height - y,
        {
            let row = &self.inner.grid[y];
            let ghost before = data@;
            let mut x: usize = 0;
            while x < row.len()
                invariant
                    x <= row.len(),
                    data@ == before + row_samples(row@.take(x as int)),
                decreases row.len() - x,
            {
                let p = row[x];
                data.push(p.0);
                data.push(p.1);
                data.push(p.2);
                proof {
                    assert(row@.take(x + 1).drop_last() =~= row@.take(x as int));
                    assert(data@ =~= before + row_samples(row@.take(x + 1)));
                }
                x = x + 1;
            }
            proof {
                assert(row@.take(x as int) =~= row@);
                assert(self.rows().take(y + 1).drop_last() =~= self.rows().take(y as int));
                assert(self.rows().take(y + 1).last() == row@);
                lemma_row_samples_len(row@);
                assert(3 * self.inner.width * (y + 1) == 3 * self.inner.width * y + 3
                    * self.inner.width) by (nonlinear_arith);
            }
            y = y + 1;
        }
        proof {
            assert(self.rows().take(y as int) =~= self.rows());
        }
        data
    }

    /// The image as a PNG stream, 8 bits deep, colour type RGB.
    ///
    /// PNG has 32 bits each for width and height and knows no image without
    /// pixels: such an image is refused before the encoder is asked. For every
    /// other image the encoder is run on the samples of the image, and its
    /// answer is the result.
    pub fn to_png(&self) -> (r: Result<Vec<u8>, PngError>)
        requires
            self.well_formed(),
        ensures
            self.spec_width() > u32::MAX || self.spec_height() > u32::MAX ==> r == Err::<
                Vec<u8>,
                PngError,
            >(PngError::TooLarge),
            self.spec_width() <= u32::MAX && self.spec_height() <= u32::MAX && self.spec_width()
                == 0 ==> r == Err::<Vec<u8>, PngError>(PngError::ZeroWidth),
            0 < self.spec_width() <= u32::MAX && self.spec_height() == 0 ==> r == Err::<
                Vec<u8>,
                PngError,
            >(PngError::ZeroHeight),
            0 < self.spec_width() <= u32::MAX && 0 < self.spec_height() <= u32::MAX ==> match r {
                Ok(stream) => stream@ == png_rgb8_stream(
                    self.spec_width() as u32,
                    self.spec_height() as u32,
                    rgb_samples(self.rows()),
                ),
                Err(e) => e == PngError::Io || e == PngError::Format || e == PngError::Parameter
                    || e == PngError::LimitsExceeded,
            },
    {
        let width = self.inner.width;
        let height = self.inner.height;
        if width > 0xffff_ffff || height > 0xffff_ffff {
            return Err(PngError::TooLarge);
        }
        if width == 0 {
            return Err(PngError::ZeroWidth);
        }
        if height == 0 {
            return Err(PngError::ZeroHeight);
        }
        let data = self.samples();
        png_encode_rgb8(width as u32, height as u32, &data)
    }
}

/// A row has three samples for each of its pixels.
pub proof fn lemma_row_samples_len(row: Seq<Rgb>)
    ensures
        row_samples(row).len() == 3 * row.len(),
    decreases row.len(),
{
    if row.len() > 0 {
        lemma_row_samples_len(row.drop_last());
    }
}

} // verus!
