//! Cover art for the terminal: the picture is cut to a centred square,
//! scaled, and drawn two pixel rows per text row with the upper half block,
//! whose foreground is the upper pixel and whose background the lower.
use vstd::prelude::*;

verus! {

/// An RGB picture: `width * height` pixels of three bytes each, row by row.
#[derive(Debug, Clone)]
pub struct RgbPixels {
    pub width: u32,
    pub height: u32,
    pub bytes: Vec<u8>,
}

/// A colour as red, green and blue.
pub type Rgb = (u8, u8, u8);

/// One text cell of drawn art: the colour of its upper and of its lower half.
#[derive(Debug, Clone, Copy, PartialEq, Eq)]
pub struct HalfBlock {
    pub top: Rgb,
    pub bottom: Rgb,
}

impl RgbPixels {
    /// The bytes hold exactly the pixels that the dimensions call for.
    pub open spec fn wf(&self) -> bool {
        self.bytes@.len() == self.width * self.height * 3
    }

    /// The colour of the pixel in column `x` and row `y`.
    pub open spec fn pixel(&self, x: int, y: int) -> Rgb {
        pixel_of(self.bytes@, self.width as int, x, y)
    }
}

/// The colour of the pixel in column `x` and row `y` of a picture `width`
/// pixels wide whose bytes are `bytes`.
pub open spec fn pixel_of(bytes: Seq<u8>, width: int, x: int, y: int) -> Rgb {
    let i = (y * width + x) * 3;
    (bytes[i], bytes[i + 1], bytes[i + 2])
}

/// The bytes of the `w` by `h` part of a picture `width` pixels wide whose
/// top left pixel is `(x, y)`.
pub open spec fn cropped_bytes(bytes: Seq<u8>, width: int, x: int, y: int, w: int, h: int) -> Seq<
    u8,
> {
    Seq::new(
        (w * h * 3) as nat,
        |k: int| bytes[((y + (k / 3) / w) * width + x + (k / 3) % w) * 3 + k % 3],
    )
}

/// The position of the pixel `(x, y)` lies within the bytes of a picture.
proof fn lemma_pixel_index(w: int, h: int, x: int, y: int)
    requires
        0 <= x < w,
        0 <= y < h,
    ensures
        0 <= (y * w + x) * 3,
        (y * w + x) * 3 + 2 < w * h * 3,
{
    assert(y * w + x < w * h) by (nonlinear_arith)
        requires
            0 <= x < w,
            0 <= y < h,
    ;
    assert(0 <= y * w) by (nonlinear_arith)
        requires
            0 <= y,
            0 <= w,
    ;
}

/// The centred square of a `width` by `height` picture: its left column, its
/// top row and its side.
pub open spec fn centre_square(width: u32, height: u32) -> (u32, u32, u32) {
    let side = if width <= height {
        width
    } else {
        height
    };
    (((width - side) / 2) as u32, ((height - side) / 2) as u32, side)
}

/// The centred square of a picture, as `(left, top, side)`.
pub fn centre_square_of(width: u32, height: u32) -> (r: (u32, u32, u32))
    ensures
        r == centre_square(width, height),
        r.0 + r.2 <= width,
        r.1 + r.2 <= height,
{
    let side = if width <= height {
        width
    } else {
        height
    };
    ((width - side) / 2, (height - side) / 2, side)
}

/// Copies the `w` by `h` part of a picture whose top left pixel is `(x, y)`,
/// with `image::imageops::crop_imm` and `SubImage::to_image`. Within the
/// picture's bounds, as here, the crop is exactly that part.
#[verifier::external_body]
fn crop(img: &RgbPixels, x: u32, y: u32, w: u32, h: u32) -> (r: RgbPixels)
    requires
        img.wf(),
        x + w <= img.width,
        y + h <= img.height,
    ensures
        r.width == w,
        r.height == h,
        r.wf(),
        r.bytes@ == cropped_bytes(img.bytes@, img.width as int, x as int, y as int, w as int, h as int),
{
    let buf = image::RgbImage::from_raw(img.width, img.height, img.bytes.clone()).unwrap();
    let out = image::imageops::crop_imm(&buf, x, y, w, h).to_image();
    RgbPixels { width: out.width(), height: out.height(), bytes: out.into_raw() }
}

/// What `image::imageops::resize` with the triangle filter makes of a
/// picture's bytes, scaled from `width` by `height` to `new_width` by
/// `new_height`.
pub uninterp spec fn triangle_resized(
    bytes: Seq<u8>,
    width: u32,
    height: u32,
    new_width: u32,
    new_height: u32,
) -> Seq<u8>;

/// Scales a picture with `image::imageops::resize` and
/// `FilterType::Triangle`. The contract names the result; of it, it states
/// the dimensions, and that a picture already of the new size comes back
/// unchanged.
#[verifier::external_body]
fn resize_triangle(img: &RgbPixels, new_width: u32, new_height: u32) -> (r: RgbPixels)
    requires
        img.wf(),
        new_width > 0,
        new_height > 0,
        img.width * new_height * 16 <= isize::MAX,
        new_width * new_height * 16 <= isize::MAX,
    ensures
        r.width == new_width,
        r.height == new_height,
        r.wf(),
        r.bytes@ == triangle_resized(img.bytes@, img.width, img.height, new_width, new_height),
        img.width == new_width && img.height == new_height ==> r.bytes@ == img.bytes@,
{
    let buf = image::RgbImage::from_raw(img.width, img.height, img.bytes.clone()).unwrap();
    let out = image::imageops::resize(&buf, new_width, new_height, image::imageops::FilterType::Triangle);
    RgbPixels { width: out.width(), height: out.height(), bytes: out.into_raw() }
}

/// The colour of pixel `(x, y)`.
pub fn pixel_at(img: &RgbPixels, x: u32, y: u32) -> (c: Rgb)
    requires
        img.wf(),
        x < img.width,
        y < img.height,
    ensures
        c == img.pixel(x as int, y as int),
{
    let len = img.bytes.len();
    proof {
        lemma_pixel_index(img.width as int, img.height as int, x as int, y as int);
        assert(0 <= y * img.width) by (nonlinear_arith)
            requires
                0 <= y,
                0 <= img.width,
        ;
    }
    let i: usize = (y as usize * img.width as usize + x as usize) * 3;
    (img.bytes[i], img.bytes[i + 1], img.bytes[i + 2])
}

/// Whether `rows` draws `img` in half blocks: one text row for each two pixel
/// rows, one cell per column, the upper half the pixel of the even row and
/// the lower half the pixel below it, or the upper pixel again on a last odd
/// row.
pub open spec fn draws_half_blocks(
    width: int,
    height: int,
    bytes: Seq<u8>,
    rows: Seq<Vec<HalfBlock>>,
) -> bool {
    &&& rows.len() == (height + 1) / 2
    &&& forall|r: int| 0 <= r < rows.len() ==> #[trigger] rows[r]@.len() == width
    &&& forall|r: int, x: int|
        0 <= r < rows.len() && 0 <= x < width ==> {
            let cell = #[trigger] rows[r]@[x];
            &&& cell.top == pixel_of(bytes, width, x, 2 * r)
            &&& cell.bottom == (if 2 * r + 1 < height {
                pixel_of(bytes, width, x, 2 * r + 1)
            } else {
                pixel_of(bytes, width, x, 2 * r)
            })
        }
}

/// Draws a picture in half blocks, two pixel rows per text row.
pub fn half_blocks(img: &RgbPixels) -> (rows: Vec<Vec<HalfBlock>>)
    requires
        img.wf(),
    ensures
        draws_half_blocks(img.width as int, img.height as int, img.bytes@, rows@),
{
    let mut rows: Vec<Vec<HalfBlock>> = Vec::new();
    let count: u32 = img.height / 2 + img.height % 2;
    let mut r: u32 = 0;
    while r < count
        invariant
            img.wf(),
            count == (img.height + 1) / 2,
            r <= count,
            rows@.len() == r,
            forall|k: int| 0 <= k < rows@.len() ==> #[trigger] rows@[k]@.len() == img.width,
            forall|k: int, x: int|
                0 <= k < rows@.len() && 0 <= x < img.width ==> {
                    let cell = #[trigger] rows@[k]@[x];
                    &&& cell.top == img.pixel(x, 2 * k)
                    &&& cell.bottom == (if 2 * k + 1 < img.height {
                        img.pixel(x, 2 * k + 1)
                    } else {
                        img.pixel(x, 2 * k)
                    })
                },
        decreases count - r,
    {
        let y: u32 = 2 * r;
        let mut row: Vec<HalfBlock> = Vec::new();
        let mut x: u32 = 0;
        while x < img.width
            invariant
                img.wf(),
                y < img.height,
                x <= img.width,
                row@.len() == x,
                forall|k: int|
                    0 <= k < x ==> {
                        let cell = #[trigger] row@[k];
                        &&& cell.top == img.pixel(k, y as int)
                        &&& cell.bottom == (if y + 1 < img.height {
                            img.pixel(k, y + 1)
                        } else {
                            img.pixel(k, y as int)
                        })
                    },
            decreases img.width - x,
        {
            let top = pixel_at(img, x, y);
            let bottom = if y + 1 < img.height {
                pixel_at(img, x, y + 1)
            } else {
                top
            };
            row.push(HalfBlock { top, bottom });
            x += 1;
        }
        rows.push(row);
        assert(rows@[rows@.len() - 1]@ == row@);
        r += 1;
    }
    rows
}

/// The side, in text cells, of drawn cover art.
pub const ART_CELLS: u32 = 22;

/// Whether the buffers that drawing art `cells` cells a side from a picture
/// `width` pixels wide takes fit in memory.
pub open spec fn art_fits(width: u32, cells: u32) -> bool {
    &&& width * (2 * cells) * 16 <= isize::MAX
    &&& (2 * cells) * (2 * cells) * 16 <= isize::MAX
}

/// Whether `rows` is the cover art `cells` text cells a side of `img`: the
/// centred square of the picture, scaled to `2 * cells` pixels a side with
/// the triangle filter, drawn in half blocks.
pub open spec fn is_art_of(img: RgbPixels, cells: u32, rows: Seq<Vec<HalfBlock>>) -> bool {
    let (x0, y0, side) = centre_square(img.width, img.height);
    let square = cropped_bytes(
        img.bytes@,
        img.width as int,
        x0 as int,
        y0 as int,
        side as int,
        side as int,
    );
    let n = 2 * cells;
    &&& draws_half_blocks(n, n, triangle_resized(square, side, side, n as u32, n as u32), rows)
    &&& rows.len() == cells
}

/// Draws cover art `cells` text cells a side: the centred square of the
/// picture, scaled to `2 * cells` pixels a side with the triangle filter,
/// drawn in half blocks.
pub fn render_art(img: &RgbPixels, cells: u32) -> (rows: Vec<Vec<HalfBlock>>)
    requires
        img.wf(),
        img.width * (2 * cells) * 16 <= isize::MAX,
        (2 * cells) * (2 * cells) * 16 <= isize::MAX,
    ensures
        is_art_of(*img, cells, rows@),
        rows@.len() == cells,
{
    if cells == 0 {
        return Vec::new();
    }
    let (x0, y0, side) = centre_square_of(img.width, img.height);
    let square = crop(img, x0, y0, side, side);
    proof {
        assert(side * (2 * cells) * 16 <= img.width * (2 * cells) * 16) by (nonlinear_arith)
            requires
                side <= img.width,
        ;
    }
    proof {
        let m: int = 2 * cells;
        assert(isize::MAX <= 0x7fff_ffff_ffff_ffff);
        assert(m < 0x1_0000_0000) by (nonlinear_arith)
            requires
                m >= 0,
                m * m * 16 <= 0x7fff_ffff_ffff_ffff,
        ;
    }
    let n = 2 * cells;
    let scaled = resize_triangle(&square, n, n);
    half_blocks(&scaled)
}

/// Decodes JPEG bytes into RGB pixels, as
/// `image::load_from_memory_with_format(bytes, ImageFormat::Jpeg)` followed by
/// `DynamicImage::to_rgb8`; `None` where decoding fails. The decoder chooses
/// code paths by the processor it runs on, so the contract states only that a
/// decoded picture holds the bytes its dimensions call for, not its pixels.
#[verifier::external_body]
fn decode_jpeg_rgb(bytes: &[u8]) -> (r: Option<RgbPixels>)
    ensures
        r matches Some(p) ==> p.wf(),
{
    match image::load_from_memory_with_format(bytes, image::ImageFormat::Jpeg) {
        Ok(decoded) => {
            let rgb = decoded.to_rgb8();
            let (width, height) = rgb.dimensions();
            Some(RgbPixels { width, height, bytes: rgb.into_raw() })
        },
        Err(_) => None,
    }
}

/// Whether a picture holds the bytes that its dimensions call for.
pub fn picture_well_formed(img: &RgbPixels) -> (b: bool)
    ensures
        b == img.wf(),
{
    let w: u128 = img.width as u128;
    let h: u128 = img.height as u128;
    proof {
        assert(w * h <= 0xffff_ffff * 0xffff_ffff) by (nonlinear_arith)
            requires
                w <= 0xffff_ffff,
                h <= 0xffff_ffff,
        ;
    }
    img.bytes.len() as u128 == w * h * 3
}

/// Whether drawing art `cells` cells a side from a picture `width` pixels
/// wide fits in memory.
pub fn art_fits_exec(width: u32, cells: u32) -> (b: bool)
    ensures
        b == art_fits(width, cells),
{
    let side: u128 = 2 * cells as u128;
    let w: u128 = width as u128;
    let limit: u128 = isize::MAX as u128;
    proof {
        assert(w * side <= 0xffff_ffff * 0x1_ffff_fffe) by (nonlinear_arith)
            requires
                w <= 0xffff_ffff,
                side <= 0x1_ffff_fffe,
        ;
        assert(side * side <= 0x1_ffff_fffe * 0x1_ffff_fffe) by (nonlinear_arith)
            requires
                side <= 0x1_ffff_fffe,
        ;
    }
    w * side * 16 <= limit && side * side * 16 <= limit
}

/// Draws cover art from a picture, where there is a well-formed picture whose
/// art fits in memory; `None` otherwise.
pub fn art_of_picture(picture: Option<RgbPixels>, cells: u32) -> (r: Option<Vec<Vec<HalfBlock>>>)
    ensures
        match picture {
            Some(p) => if p.wf() && art_fits(p.width, cells) {
                r matches Some(rows) && is_art_of(p, cells, rows@)
            } else {
                r is None
            },
            None => r is None,
        },
{
    match picture {
        Some(p) => {
            if picture_well_formed(&p) && art_fits_exec(p.width, cells) {
                Some(render_art(&p, cells))
            } else {
                None
            }
        },
        None => None,
    }
}

/// Draws cover art `cells` text cells a side from the bytes of a JPEG file:
/// where the bytes decode, the art of the decoded picture; `None` where they
/// do not, or where the art would not fit in memory.
pub fn art_from_jpeg(bytes: &[u8], cells: u32) -> (r: Option<Vec<Vec<HalfBlock>>>)
    ensures
        r matches Some(rows) ==> exists|p: RgbPixels|
            p.wf() && art_fits(p.width, cells) && #[trigger] is_art_of(p, cells, rows@),
        !((2 * cells) * (2 * cells) * 16 <= isize::MAX) ==> r is None,
{
    let picture = decode_jpeg_rgb(bytes);
    let r = art_of_picture(picture, cells);
    proof {
        if r is Some {
            let p = picture->0;
            assert(p.wf() && art_fits(p.width, cells) && is_art_of(p, cells, r->0@));
        }
    }
    r
}

} // verus!
