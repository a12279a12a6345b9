//! Bitmap files with 24 bits per pixel: the packed header and the pixel data.
use vstd::prelude::*;
use crate::image::ImageBuffer;

verus! {

/// The header of a bitmap file with 24 bits per pixel: the file header and
/// the info header, 54 bytes when packed.
#[derive(Clone, Copy, Debug)]
pub struct BMPHeader {
    pub file_type: [u8; 2],
    pub file_size: u32,
    pub reserved_1: u16,
    pub reserved_2: u16,
    pub pixel_offset: u32,
    pub header_size: u32,
    pub x_size: u32,
    pub y_size: u32,
    pub planes: u16,
    pub bpp: u16,
    pub compression: u32,
    pub image_size: u32,
    pub x_ppm: u32,
    pub y_ppm: u32,
    pub used_colors: u32,
    pub important_colors: u32,
}

/// The length of a packed header.
pub const HEADER_BYTES: usize = 54;

/// The `n` low bytes of `v`, lowest first.
pub open spec fn le_bytes(v: nat, n: nat) -> Seq<u8>
    decreases n,
{
    if n == 0 {
        Seq::empty()
    } else {
        seq![(v % 256) as u8] + le_bytes(v / 256, (n - 1) as nat)
    }
}

/// The three bytes of a pixel `[red, green, blue]` as a bitmap stores them:
/// blue, green, red.
pub open spec fn bgr(pixel: [u8; 3]) -> Seq<u8> {
    seq![pixel[2], pixel[1], pixel[0]]
}

/// `acc` followed by the bytes of the `n` pixels that start at place `start`
/// of `pixels`.
pub open spec fn pixels_onto(acc: Seq<u8>, pixels: Seq<[u8; 3]>, start: int, n: nat) -> Seq<u8>
    decreases n,
{
    if n == 0 {
        acc
    } else {
        let pixel = pixels[start + n - 1];
        pixels_onto(acc, pixels, start, (n - 1) as nat).push(pixel[2]).push(pixel[1]).push(pixel[0])
    }
}

/// `acc` followed by `n` zero bytes.
pub open spec fn zeros_onto(acc: Seq<u8>, n: nat) -> Seq<u8>
    decreases n,
{
    if n == 0 {
        acc
    } else {
        zeros_onto(acc, (n - 1) as nat).push(0u8)
    }
}

/// The zero bytes that follow a row of `width` pixels in a bitmap file: as
/// many as make the row a multiple of four bytes long.
pub open spec fn row_padding(width: int) -> nat {
    ((4 - (width * 3) % 4) % 4) as nat
}

/// `acc` followed by the first `n` rows of the pixel data of a bitmap file
/// of `width` by `height`, which holds the rows from the bottom up and pads
/// each of them.
pub open spec fn padded_rows_onto(
    acc: Seq<u8>,
    pixels: Seq<[u8; 3]>,
    width: int,
    height: int,
    n: nat,
) -> Seq<u8>
    decreases n,
{
    if n == 0 {
        acc
    } else {
        zeros_onto(
            pixels_onto(
                padded_rows_onto(acc, pixels, width, height, (n - 1) as nat),
                pixels,
                (height - n) * width,
                width as nat,
            ),
            row_padding(width),
        )
    }
}

fn push_u16(out: &mut Vec<u8>, v: u16)
    ensures
        final(out)@ == old(out)@ + le_bytes(v as nat, 2),
{
    out.push((v % 256) as u8);
    out.push((v / 256) as u8);
    assert(le_bytes(v as nat, 2) =~= seq![(v % 256) as u8, (v / 256) as u8]) by {
        reveal_with_fuel(le_bytes, 3);
    }
}

fn push_u32(out: &mut Vec<u8>, v: u32)
    ensures
        final(out)@ == old(out)@ + le_bytes(v as nat, 4),
{
    out.push((v % 256) as u8);
    out.push((v / 256 % 256) as u8);
    out.push((v / 65536 % 256) as u8);
    out.push((v / 16777216) as u8);
    assert(le_bytes(v as nat, 4) =~= seq![
        (v % 256) as u8,
        (v / 256 % 256) as u8,
        (v / 65536 % 256) as u8,
        (v / 16777216) as u8,
    ]) by {
        reveal_with_fuel(le_bytes, 5);
    }
}

impl BMPHeader {
    /// The header of an image of `width` by `height` pixels. Sizes that do
    /// not fit the header's 32-bit fields are cut to their low 32 bits.
    pub fn for_image(width: usize, height: usize) -> (header: BMPHeader)
        requires
            width * height * 3 + 54 <= usize::MAX,
        ensures
            header.file_type@ == seq![66u8, 77u8],
            header.file_size == (width * height * 3 + 54) % 0x1_0000_0000int,
            header.reserved_1 == 0,
            header.reserved_2 == 0,
            header.pixel_offset == 54,
            header.header_size == 40,
            header.x_size == (width as int) % 0x1_0000_0000int,
            header.y_size == (height as int) % 0x1_0000_0000int,
            header.planes == 1,
            header.bpp == 24,
            header.compression == 0,
            header.image_size == 0,
            header.x_ppm == 0,
            header.y_ppm == 0,
            header.used_colors == 0,
            header.important_colors == 0,
    {
        assert(width * height <= width * height * 3 + 54) by (nonlinear_arith)
            requires
                0 <= width * height,
        ;
        let size: u64 = (width * height * 3 + 54) as u64;
        BMPHeader {
            file_type: [66, 77],
            file_size: (size % 0x1_0000_0000) as u32,
            reserved_1: 0,
            reserved_2: 0,
            pixel_offset: 54,
            header_size: 40,
            x_size: (width as u64 % 0x1_0000_0000) as u32,
            y_size: (height as u64 % 0x1_0000_0000) as u32,
            planes: 1,
            bpp: 24,
            compression: 0,
            image_size: 0,
            x_ppm: 0,
            y_ppm: 0,
            used_colors: 0,
            important_colors: 0,
        }
    }

    /// The bytes of the packed header: the fields in order, each number with
    /// its lowest byte first.
    pub open spec fn packed(&self) -> Seq<u8> {
        self.file_type@ + le_bytes(self.file_size as nat, 4) + le_bytes(self.reserved_1 as nat, 2)
            + le_bytes(self.reserved_2 as nat, 2) + le_bytes(self.pixel_offset as nat, 4)
            + le_bytes(self.header_size as nat, 4) + le_bytes(self.x_size as nat, 4) + le_bytes(
            self.y_size as nat,
            4,
        ) + le_bytes(self.planes as nat, 2) + le_bytes(self.bpp as nat, 2) + le_bytes(
            self.compression as nat,
            4,
        ) + le_bytes(self.image_size as nat, 4) + le_bytes(self.x_ppm as nat, 4) + le_bytes(
            self.y_ppm as nat,
            4,
        ) + le_bytes(self.used_colors as nat, 4) + le_bytes(self.important_colors as nat, 4)
    }

    /// Packs the header into its 54 bytes.
    pub fn pack(&self) -> (bytes: Vec<u8>)
        ensures
            bytes@ == self.packed(),
            bytes@.len() == HEADER_BYTES,
    {
        let mut out: Vec<u8> = Vec::new();
        out.push(self.file_type[0]);
        out.push(self.file_type[1]);
        assert(out@ =~= self.file_type@);
        push_u32(&mut out, self.file_size);
        push_u16(&mut out, self.reserved_1);
        push_u16(&mut out, self.reserved_2);
        push_u32(&mut out, self.pixel_offset);
        push_u32(&mut out, self.header_size);
        push_u32(&mut out, self.x_size);
        push_u32(&mut out, self.y_size);
        push_u16(&mut out, self.planes);
        push_u16(&mut out, self.bpp);
        push_u32(&mut out, self.compression);
        push_u32(&mut out, self.image_size);
        push_u32(&mut out, self.x_ppm);
        push_u32(&mut out, self.y_ppm);
        push_u32(&mut out, self.used_colors);
        push_u32(&mut out, self.important_colors);
        proof {
            lemma_le_bytes_len(self.file_size as nat, 4);
            lemma_le_bytes_len(self.reserved_1 as nat, 2);
            lemma_le_bytes_len(self.reserved_2 as nat, 2);
            lemma_le_bytes_len(self.pixel_offset as nat, 4);
            lemma_le_bytes_len(self.header_size as nat, 4);
            lemma_le_bytes_len(self.x_size as nat, 4);
            lemma_le_bytes_len(self.y_size as nat, 4);
            lemma_le_bytes_len(self.planes as nat, 2);
            lemma_le_bytes_len(self.bpp as nat, 2);
            lemma_le_bytes_len(self.compression as nat, 4);
            lemma_le_bytes_len(self.image_size as nat, 4);
            lemma_le_bytes_len(self.x_ppm as nat, 4);
            lemma_le_bytes_len(self.y_ppm as nat, 4);
            lemma_le_bytes_len(self.used_colors as nat, 4);
            lemma_le_bytes_len(self.important_colors as nat, 4);
        }
        out
    }
}

/// `le_bytes` gives exactly `n` bytes.
pub proof fn lemma_le_bytes_len(v: nat, n: nat)
    ensures
        le_bytes(v, n).len() == n,
    decreases n,
{
    if n > 0 {
        lemma_le_bytes_len(v / 256, (n - 1) as nat);
    }
}

/// The bytes of `n` pixels are three for each.
pub proof fn lemma_pixels_len(acc: Seq<u8>, pixels: Seq<[u8; 3]>, start: int, n: nat)
    ensures
        pixels_onto(acc, pixels, start, n).len() == acc.len() + 3 * n,
    decreases n,
{
    if n > 0 {
        lemma_pixels_len(acc, pixels, start, (n - 1) as nat);
    }
}

/// `n` zero bytes are `n` bytes.
pub proof fn lemma_zeros_len(acc: Seq<u8>, n: nat)
    ensures
        zeros_onto(acc, n).len() == acc.len() + n,
    decreases n,
{
    if n > 0 {
        lemma_zeros_len(acc, (n - 1) as nat);
    }
}

/// A padded row is a multiple of four bytes long, and the padding is the
/// least that makes it so.
pub proof fn lemma_padded_row_is_whole_words(width: int)
    requires
        0 <= width,
    ensures
        row_padding(width) < 4,
        (width * 3 + row_padding(width)) % 4 == 0,
{
}

/// The pixel data of a bitmap file has a padded row for each row of the
/// image.
pub proof fn lemma_padded_rows_len(
    acc: Seq<u8>,
    pixels: Seq<[u8; 3]>,
    width: int,
    height: int,
    n: nat,
)
    requires
        0 <= width,
    ensures
        padded_rows_onto(acc, pixels, width, height, n).len() == acc.len() + n * (width * 3
            + row_padding(width)),
    decreases n,
{
    let row_len = width * 3 + row_padding(width);
    if n > 0 {
        let before = padded_rows_onto(acc, pixels, width, height, (n - 1) as nat);
        lemma_padded_rows_len(acc, pixels, width, height, (n - 1) as nat);
        let row = pixels_onto(before, pixels, (height - n) * width, width as nat);
        lemma_pixels_len(before, pixels, (height - n) * width, width as nat);
        lemma_zeros_len(row, row_padding(width));
        assert(n * row_len == (n - 1) * row_len + row_len) by (nonlinear_arith);
    } else {
        assert(0 * row_len == 0);
    }
}

impl ImageBuffer<[u8; 3]> {
    /// The pixels as bytes, three for each pixel in the order blue, green,
    /// red, row after row from the top.
    pub fn get_rgb8_buffer(&self) -> (stream: Vec<u8>)
        requires
            self.is_grid(),
        ensures
            stream@ == pixels_onto(Seq::empty(), self.pixels(), 0, self.pixels().len()),
    {
        let mut pixel_stream: Vec<u8> = Vec::new();
        let mut y: usize = 0;
        while y < self.height
            invariant
                y <= self.height,
                self.is_grid(),
                pixel_stream@ == pixels_onto(
                    Seq::empty(),
                    self.pixels(),
                    0,
                    (y * self.width) as nat,
                ),
            decreases self.height - y,
        {
            let mut x: usize = 0;
            while x < self.width
                invariant
                    x <= self.width,
                    y < self.height,
                    self.is_grid(),
                    pixel_stream@ == pixels_onto(
                        Seq::empty(),
                        self.pixels(),
                        0,
                        (y * self.width + x) as nat,
                    ),
                decreases self.width - x,
            {
                assert(y * self.width + x < self.width * self.height) by (nonlinear_arith)
                    requires
                        y < self.height,
                        x < self.width,
                ;
                let pixel = self.pixel(x, y);
                pixel_stream.push(pixel[2]);
                pixel_stream.push(pixel[1]);
                pixel_stream.push(pixel[0]);
                x = x + 1;
            }
            assert((y + 1) * self.width == y * self.width + self.width) by (nonlinear_arith);
            y = y + 1;
        }
        assert(y * self.width == self.width * self.height) by (nonlinear_arith)
            requires
                y == self.height,
        ;
        pixel_stream
    }

    /// The pixel data of a bitmap file: three bytes for each pixel in the
    /// order blue, green, red, row after row from the bottom, and after each
    /// row the zero bytes that make it a multiple of four bytes long.
    pub fn bmp_pixel_data(&self) -> (stream: Vec<u8>)
        requires
            self.is_grid(),
        ensures
            stream@ == padded_rows_onto(
                Seq::empty(),
                self.pixels(),
                self.width as int,
                self.height as int,
                self.height as nat,
            ),
    {
        let padding: usize = (4 - (self.width % 4) * 3 % 4) % 4;
        assert(padding == row_padding(self.width as int));
        let mut pixel_stream: Vec<u8> = Vec::new();
        let mut y: usize = 0;
        while y < self.height
            invariant
                y <= self.height,
                self.is_grid(),
                padding == row_padding(self.width as int),
                pixel_stream@ == padded_rows_onto(
                    Seq::empty(),
                    self.pixels(),
                    self.width as int,
                    self.height as int,
                    y as nat,
                ),
            decreases self.height - y,
        {
            let row: usize = self.height - y - 1;
            let ghost base = pixel_stream@;
            let ghost start = (self.height - (y + 1)) * self.width;
            let mut x: usize = 0;
            while x < self.width
                invariant
                    x <= self.width,
                    row < self.height,
                    start == row * self.width,
                    self.is_grid(),
                    pixel_stream@ == pixels_onto(base, self.pixels(), start, x as nat),
                decreases self.width - x,
            {
                assert(row * self.width + x < self.width * self.height) by (nonlinear_arith)
                    requires
                        row < self.height,
                        x < self.width,
                ;
                let pixel = self.pixel(x, row);
                pixel_stream.push(pixel[2]);
                pixel_stream.push(pixel[1]);
                pixel_stream.push(pixel[0]);
                x = x + 1;
            }
            let ghost filled = pixel_stream@;
            let mut line_pos: usize = 0;
            while line_pos < padding
                invariant
                    line_pos <= padding,
                    pixel_stream@ == zeros_onto(filled, line_pos as nat),
                decreases padding - line_pos,
            {
                pixel_stream.push(0);
                line_pos = line_pos + 1;
            }
            y = y + 1;
        }
        pixel_stream
    }
}

} // verus!
