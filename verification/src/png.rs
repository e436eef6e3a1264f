//! Tiles as PNG images.

use vstd::prelude::*;

use crate::error::ZarrError;
use crate::floats::is_nan_32;
use crate::warp::TILE_PIXELS;

#[allow(unused_imports)]
use crate::floats::rank_32;

verus! {

/// An image of red, green, blue and opacity.
#[verifier::external_body]
pub struct Raster {
    image: image::RgbaImage,
}

/// The width and the height of an image, in pixels.
pub uninterp spec fn raster_size(raster: Raster) -> Seq<int>;

/// The pixels of an image, row by row from the top.
pub uninterp spec fn raster_pixels(raster: Raster) -> Seq<[u8; 4]>;

/// The PNG file of an image of this size with these pixels; none where there is no
/// such file.
pub uninterp spec fn png_file(width: int, height: int, pixels: Seq<[u8; 4]>) -> Option<Seq<u8>>;

impl Raster {
    /// An image without colour or opacity: `image::RgbaImage::new`, which is there
    /// for any image that fits into memory.
    #[verifier::external_body]
    fn new(width: u32, height: u32) -> (r: Raster)
        requires
            4 * (width * height) <= isize::MAX,
        ensures
            raster_size(r) == seq![width as int, height as int],
            raster_pixels(r) == Seq::new((width * height) as nat, |p: int| [0u8, 0u8, 0u8, 0u8]),
    {
        Raster { image: image::RgbaImage::new(width, height) }
    }

    /// Sets a pixel: `image::RgbaImage::put_pixel`, which takes a column and a row
    /// inside the image.
    #[verifier::external_body]
    fn put_pixel(&mut self, x: u32, y: u32, pixel: [u8; 4])
        requires
            x < raster_size(*old(self))[0],
            y < raster_size(*old(self))[1],
        ensures
            raster_size(*final(self)) == raster_size(*old(self)),
            raster_pixels(*final(self)) == raster_pixels(*old(self)).update(
                y * raster_size(*old(self))[0] + x,
                pixel,
            ),
    {
        self.image.put_pixel(x, y, image::Rgba(pixel));
    }

    /// The PNG file of the image: `image::RgbaImage::write_to` in the format `Png`,
    /// into memory. The encoder refuses an image without width or height, and no
    /// other.
    #[verifier::external_body]
    fn to_png(&self) -> (r: Result<Vec<u8>, image::ImageError>)
        ensures
            match r {
                Ok(bytes) => png_file(
                    raster_size(*self)[0],
                    raster_size(*self)[1],
                    raster_pixels(*self),
                ) == Some(bytes@),
                Err(_) => png_file(
                    raster_size(*self)[0],
                    raster_size(*self)[1],
                    raster_pixels(*self),
                ) is None,
            },
            r is Ok == (raster_size(*self)[0] != 0 && raster_size(*self)[1] != 0),
    {
        let mut bytes = std::io::Cursor::new(Vec::new());
        self.image.write_to(&mut bytes, image::ImageFormat::Png)?;
        Ok(bytes.into_inner())
    }
}

/// The pixel of a sample: grey of its shade, or nothing where the sample is no
/// number.
pub open spec fn shaded(sample: u32, shade: u8) -> [u8; 4] {
    if rank_32(sample) is None {
        [0u8, 0u8, 0u8, 0u8]
    } else {
        [shade, shade, shade, 255u8]
    }
}

/// The last sample that falls on a pixel. Samples are counted with 32 bits, so
/// those of an image with more pixels than that start anew.
pub open spec fn last_sample(count: int, pixel: int) -> int {
    pixel + 0x1_0000_0000 * ((count - 1 - pixel) / 0x1_0000_0000)
}

/// The pixels of an image of `size` pixels after its first `count` samples: what
/// no sample falls on stays transparent.
pub open spec fn painted(samples: Seq<u32>, shades: Seq<u8>, size: int, count: int) -> Seq<[u8; 4]> {
    Seq::new(
        size as nat,
        |p: int|
            if p < count && p < 0x1_0000_0000 {
                shaded(samples[last_sample(count, p)], shades[last_sample(count, p)])
            } else {
                [0u8, 0u8, 0u8, 0u8]
            },
    )
}

/// Whether this is the file of an image with these pixels, or the error of the
/// encoder where there is none.
pub open spec fn png_result(
    width: u32,
    height: u32,
    pixels: Seq<[u8; 4]>,
    r: Result<Vec<u8>, ZarrError>,
) -> bool {
    match png_file(width as int, height as int, pixels) {
        Some(file) => r matches Ok(bytes) && bytes@ == file,
        None => r matches Err(e) && e is ImageError,
    }
}

/// The image of sampled data as a PNG file, row by row: a sample is shown in grey
/// of its shade, and one that is no number is transparent. There is no file of an
/// image without width or height.
///
/// `sampled_data` holds bit patterns of single-precision numbers, `shades` how
/// bright each of them is.
pub fn sampled_data_to_png(
    sampled_data: &Vec<u32>,
    shades: &Vec<u8>,
    width: u32,
    height: u32,
) -> (r: Result<Vec<u8>, ZarrError>)
    requires
        shades@.len() == sampled_data@.len(),
        4 * (width * height) <= isize::MAX,
        sampled_data@.len() <= width * height || width * height >= 0x1_0000_0000,
    ensures
        png_result(
            width,
            height,
            painted(
                sampled_data@,
                shades@,
                width * height,
                sampled_data@.len() as int,
            ),
            r,
        ),
        r is Ok <==> width > 0 && height > 0,
{
    let mut image = Raster::new(width, height);
    let n: usize = sampled_data.len();
    assert(raster_pixels(image) =~= painted(sampled_data@, shades@, width * height, 0));
    for i in 0..n
        invariant
            n == sampled_data@.len(),
            n == shades@.len(),
            n <= width * height || width * height >= 0x1_0000_0000,
            raster_size(image) == seq![width as int, height as int],
            raster_pixels(image) == painted(sampled_data@, shades@, width * height, i as int),
    {
        let value = sampled_data[i];
        let shade = shades[i];
        let pixel: [u8; 4] = if is_nan_32(value) {
            [0u8, 0u8, 0u8, 0u8]
        } else {
            [shade, shade, shade, 255u8]
        };
        let at: u32 = (i as u64 % 0x1_0000_0000) as u32;
        proof {
            lemma_width(width as int, height as int, at as int);
        }
        let x: u32 = at % width;
        let y: u32 = at / width;
        proof {
            lemma_position(width as int, height as int, at as int);
        }
        let ghost before = raster_pixels(image);
        image.put_pixel(x, y, pixel);
        assert(pixel == shaded(value, shade));
        assert(before.update(at as int, pixel) =~= painted(
            sampled_data@,
            shades@,
            width * height,
            i + 1,
        ));
    }
    match image.to_png() {
        Ok(bytes) => Ok(bytes),
        Err(e) => Err(ZarrError::ImageError(e)),
    }
}

/// An image with a pixel has a width.
proof fn lemma_width(width: int, height: int, at: int)
    requires
        0 <= width,
        0 <= at < width * height,
    ensures
        width > 0,
{
    assert(width > 0) by (nonlinear_arith)
        requires
            0 <= width,
            0 <= at < width * height,
    ;
}

/// The column and the row of a pixel.
proof fn lemma_position(width: int, height: int, at: int)
    requires
        0 < width,
        0 <= at < width * height,
    ensures
        0 <= at % width < width,
        0 <= at / width < height,
        (at / width) * width + at % width == at,
{
    assert(0 <= at % width < width && 0 <= at / width && (at / width) * width + at % width == at)
        by (nonlinear_arith)
        requires
            0 < width,
            0 <= at,
    ;
    assert(at / width < height) by (nonlinear_arith)
        requires
            0 < width,
            0 <= at < width * height,
            (at / width) * width + at % width == at,
            0 <= at % width,
    ;
}

/// The image of a tile as a PNG file.
pub fn tile_to_png(sampled_data: &Vec<u32>, shades: &Vec<u8>) -> (r: Result<Vec<u8>, ZarrError>)
    requires
        shades@.len() == sampled_data@.len(),
        sampled_data@.len() <= TILE_PIXELS * TILE_PIXELS,
    ensures
        png_result(
            TILE_PIXELS,
            TILE_PIXELS,
            painted(
                sampled_data@,
                shades@,
                TILE_PIXELS * TILE_PIXELS,
                sampled_data@.len() as int,
            ),
            r,
        ),
        r is Ok,
{
    sampled_data_to_png(sampled_data, shades, TILE_PIXELS, TILE_PIXELS)
}

/// In an image with no more than 2^32 samples each sample is its own pixel, and
/// the pixels behind the last one are transparent.
pub proof fn law_samples_are_pixels(samples: Seq<u32>, shades: Seq<u8>, size: int, pixel: int)
    requires
        samples.len() <= size,
        samples.len() <= 0x1_0000_0000,
        0 <= pixel < size,
    ensures
        painted(samples, shades, size, samples.len() as int)[pixel] == (if pixel < samples.len() {
            shaded(samples[pixel], shades[pixel])
        } else {
            [0u8, 0u8, 0u8, 0u8]
        }),
{
    if pixel < samples.len() {
        assert(last_sample(samples.len() as int, pixel) == pixel);
    }
}

/// A pixel is transparent exactly where its sample is no number: any other sample is
/// opaque, and its red, green and blue are its shade, be it black. The pixels behind
/// the last sample are transparent.
pub proof fn law_only_nan_is_transparent(samples: Seq<u32>, shades: Seq<u8>, size: int, pixel: int)
    requires
        samples.len() <= size,
        samples.len() <= 0x1_0000_0000,
        0 <= pixel < size,
    ensures
        painted(samples, shades, size, samples.len() as int).len() == size,
        ({
            let bytes = painted(samples, shades, size, samples.len() as int)[pixel];
            let is_number = pixel < samples.len() && samples[pixel] as int % 0x8000_0000 <= 0x7f80_0000;
            &&& bytes[3] == 255 <==> is_number
            &&& bytes[3] == 0 <==> !is_number
            &&& is_number ==> {
                &&& bytes[0] == shades[pixel]
                &&& bytes[1] == shades[pixel]
                &&& bytes[2] == shades[pixel]
            }
            &&& !is_number ==> bytes[0] == 0 && bytes[1] == 0 && bytes[2] == 0
        }),
{
    law_samples_are_pixels(samples, shades, size, pixel);
}

/// The bytes of an image are those of its file, and nothing else is: a different
/// file, or an error, is no result where there is a file.
pub proof fn law_bytes_are_the_file(
    width: u32,
    height: u32,
    pixels: Seq<[u8; 4]>,
    r: Result<Vec<u8>, ZarrError>,
)
    requires
        png_result(width, height, pixels, r),
    ensures
        r matches Ok(bytes) ==> png_file(width as int, height as int, pixels) == Some(bytes@),
        r matches Err(e) ==> png_file(width as int, height as int, pixels) is None && e is ImageError,
{
}

} // verus!
