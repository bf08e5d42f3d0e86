use vstd::prelude::*;

use crate::ppm::Img;

verus! {

/// The PNG file that image's encoder produces for an 8-bit RGB raster of the
/// given size, three bytes per pixel, row by row.
pub uninterp spec fn png_rgb8(width: u32, height: u32, raw: Seq<u8>) -> Seq<u8>;

/// Relies on image's `PngEncoder::new` and `ImageEncoder::write_image` with
/// `ExtendedColorType::Rgb8`: it panics unless `raw` holds three bytes per
/// pixel, fails only on a zero width or height (png's `Writer::init`; 8-bit
/// RGB is a valid combination and writing to a `Vec` cannot fail), and the
/// bytes it writes depend on the size and the raster alone.
#[verifier::external_body]
fn png_of_rgb8(width: u32, height: u32, raw: &[u8]) -> (r: Option<Vec<u8>>)
    requires
        raw@.len() == 3 * width * height,
    ensures
        r matches Some(bytes) ==> bytes@ == png_rgb8(width, height, raw@),
        width > 0 && height > 0 ==> r is Some,
{
    let mut out: Vec<u8> = Vec::new();
    let encoder = image::codecs::png::PngEncoder::new(&mut out);
    match image::ImageEncoder::write_image(encoder, raw, width, height, image::ExtendedColorType::Rgb8) {
        Ok(()) => Some(out),
        Err(_) => None,
    }
}

/// The PNG encoding of an RGB raster; `None` for an empty size.
pub fn encode_png(width: u32, height: u32, raw: &Vec<u8>) -> (r: Option<Vec<u8>>)
    requires
        raw@.len() == 3 * width * height,
    ensures
        r matches Some(bytes) ==> bytes@ == png_rgb8(width, height, raw@),
        width > 0 && height > 0 ==> r is Some,
{
    png_of_rgb8(width, height, raw.as_slice())
}

/// A count shown at full brightness: 255 where it is positive, else 0.
pub open spec fn full_scale(v: i64) -> u8 {
    if v > 0 {
        255
    } else {
        0
    }
}

/// The raster in which pixel `i` has the bytes `full_scale` of the three
/// channels' counters `i`, for the first `n` pixels.
pub open spec fn full_scale_raster(r: Seq<i64>, g: Seq<i64>, b: Seq<i64>, n: int) -> Seq<u8>
    decreases n,
{
    if n <= 0 {
        Seq::empty()
    } else {
        full_scale_raster(r, g, b, n - 1) + seq![
            full_scale(r[n - 1]),
            full_scale(g[n - 1]),
            full_scale(b[n - 1]),
        ]
    }
}

proof fn lemma_raster_len(r: Seq<i64>, g: Seq<i64>, b: Seq<i64>, n: int)
    requires
        n >= 0,
    ensures
        full_scale_raster(r, g, b, n).len() == 3 * n,
    decreases n,
{
    if n > 0 {
        lemma_raster_len(r, g, b, n - 1);
    }
}

fn full_scale_byte(v: i64) -> (r: u8)
    ensures
        r == full_scale(v),
{
    if v > 0 {
        255
    } else {
        0
    }
}

/// The RGB raster of three channels in which every counted pixel is at full
/// brightness.
pub fn full_scale_rgb(r: &Vec<i64>, g: &Vec<i64>, b: &Vec<i64>) -> (out: Vec<u8>)
    requires
        g@.len() >= r@.len(),
        b@.len() >= r@.len(),
    ensures
        out@ == full_scale_raster(r@, g@, b@, r@.len() as int),
        out@.len() == 3 * r@.len(),
{
    let mut out: Vec<u8> = Vec::new();
    let mut i: usize = 0;
    while i < r.len()
        invariant
            i <= r@.len(),
            g@.len() >= r@.len(),
            b@.len() >= r@.len(),
            out@ == full_scale_raster(r@, g@, b@, i as int),
        decreases r@.len() - i,
    {
        out.push(full_scale_byte(r[i]));
        out.push(full_scale_byte(g[i]));
        out.push(full_scale_byte(b[i]));
        i = i + 1;
        assert(out@ =~= full_scale_raster(r@, g@, b@, i as int));
    }
    proof {
        lemma_raster_len(r@, g@, b@, r@.len() as int);
    }
    out
}

/// The PNG of the channels `imgs[0]`, `imgs[1]`, `imgs[2]` (red, green,
/// blue) with every counted pixel at full brightness, sized as the first;
/// `None` for an empty size.
pub fn write_png(imgs: &Vec<Img>) -> (out: Option<Vec<u8>>)
    requires
        imgs@.len() >= 3,
        imgs@[0].wf(),
        imgs@[0]@.width <= u32::MAX,
        imgs@[0]@.height <= u32::MAX,
        imgs@[1]@.pixels.len() >= imgs@[0]@.pixels.len(),
        imgs@[2]@.pixels.len() >= imgs@[0]@.pixels.len(),
    ensures
        out matches Some(bytes) ==> bytes@ == png_rgb8(
            imgs@[0]@.width as u32,
            imgs@[0]@.height as u32,
            full_scale_raster(
                imgs@[0]@.pixels,
                imgs@[1]@.pixels,
                imgs@[2]@.pixels,
                imgs@[0]@.pixels.len() as int,
            ),
        ),
        imgs@[0]@.width > 0 && imgs@[0]@.height > 0 ==> out is Some,
{
    let raw = full_scale_rgb(imgs[0].pixels(), imgs[1].pixels(), imgs[2].pixels());
    let width = imgs[0].width() as u32;
    let height = imgs[0].height() as u32;
    assert(raw@.len() == 3 * width * height) by (nonlinear_arith)
        requires
            raw@.len() == 3 * imgs@[0]@.pixels.len(),
            imgs@[0]@.pixels.len() == imgs@[0]@.height * imgs@[0]@.width,
            width == imgs@[0]@.width,
            height == imgs@[0]@.height,
    ;
    encode_png(width, height, &raw)
}

} // verus!
