use vstd::prelude::*;

verus! {

/// A grayscale raster: `width * height` intensities, row by row from the top left.
#[derive(Debug, PartialEq, Eq)]
pub struct SourceImage {
    pub width: u32,
    pub height: u32,
    pub pixels: Vec<u8>,
}

impl SourceImage {
    /// The pixel buffer holds exactly one intensity per pixel.
    pub open spec fn wf(&self) -> bool {
        self.pixels@.len() == self.width as int * self.height as int
    }

    /// Builds an image from its rows laid end to end; `None` when the buffer
    /// does not hold exactly `width * height` intensities.
    pub fn new(width: u32, height: u32, pixels: Vec<u8>) -> (r: Option<SourceImage>)
        ensures
            r is Some <==> pixels@.len() == width as int * height as int,
            r matches Some(img) ==> img.width == width && img.height == height
                && img.pixels@ == pixels@,
    {
        proof {
            assert(width as int * height as int <= u32::MAX as int * u32::MAX as int) by (nonlinear_arith)
                requires width <= u32::MAX, height <= u32::MAX;
        }
        let n: u64 = width as u64 * height as u64;
        if pixels.len() as u64 == n {
            Some(SourceImage { width, height, pixels })
        } else {
            None
        }
    }
}

/// Sizes and radii on which imageproc's adaptive threshold runs without
/// panicking: a positive radius, coordinates that stay within `i32` once the
/// radius is added, and intensity sums that fit in `u32`.
pub open spec fn adaptive_fits(width: int, height: int, radius: int) -> bool {
    &&& 0 < radius
    &&& width + radius <= i32::MAX
    &&& height + radius <= i32::MAX
    &&& 510 * width * height <= u32::MAX
}

/// The intensities that imageproc's adaptive threshold gives a `width` by
/// `height` image with intensities `pixels`, for a block radius `radius`.
pub uninterp spec fn adaptive_of(width: nat, height: nat, pixels: Seq<u8>, radius: nat) -> Seq<u8>;

/// The width and height that image's aspect-preserving resize gives a `width`
/// by `height` image asked to fit `new_width` columns and any number of rows.
pub uninterp spec fn resize_dims_of(width: nat, height: nat, new_width: nat) -> (nat, nat);

/// Relies on imageproc::contrast::adaptive_threshold: it returns an image of
/// the same size, black (0) or white (255) at each pixel, whose intensities
/// depend on the input and the radius alone.
#[verifier::external_body]
pub(crate) fn adaptive_threshold(img: &SourceImage, block_radius: u32) -> (r: SourceImage)
    requires
        img.wf(),
        adaptive_fits(img.width as int, img.height as int, block_radius as int),
    ensures
        r.wf(),
        r.width == img.width,
        r.height == img.height,
        r.pixels@ == adaptive_of(img.width as nat, img.height as nat, img.pixels@, block_radius as nat),
        forall|i: int| 0 <= i < r.pixels@.len() ==> #[trigger] r.pixels@[i] == 0 || r.pixels@[i] == 255,
{
    let src = image::GrayImage::from_raw(img.width, img.height, img.pixels.clone())
        .expect("one intensity per pixel");
    let out = imageproc::contrast::adaptive_threshold(&src, block_radius);
    SourceImage { width: out.width(), height: out.height(), pixels: out.into_raw() }
}

/// Relies on image::DynamicImage::resize with the Lanczos3 filter and an
/// unbounded height: the result is a grayscale image whose size depends on the
/// input's size and the new width alone. Its intensities go through `f32::sin`,
/// whose precision is unspecified, so nothing is claimed of them.
#[verifier::external_body]
fn resize_lanczos(img: &SourceImage, new_width: u32) -> (r: SourceImage)
    requires
        img.wf(),
    ensures
        r.wf(),
        (r.width as nat, r.height as nat) == resize_dims_of(img.width as nat, img.height as nat, new_width as nat),
{
    let src = image::GrayImage::from_raw(img.width, img.height, img.pixels.clone())
        .expect("one intensity per pixel");
    let out = image::DynamicImage::from(src)
        .resize(new_width, u32::MAX, image::imageops::FilterType::Lanczos3)
        .to_luma8();
    SourceImage { width: out.width(), height: out.height(), pixels: out.into_raw() }
}

/// Scales `img` to `width` columns, keeping its aspect ratio, when a width is
/// given; otherwise returns it as it is.
pub fn resize_to_width(img: SourceImage, width: Option<u32>) -> (r: SourceImage)
    requires
        img.wf(),
    ensures
        r.wf(),
        width is None ==> r == img,
        width matches Some(nw) ==> (r.width as nat, r.height as nat) == resize_dims_of(
            img.width as nat,
            img.height as nat,
            nw as nat,
        ),
{
    match width {
        Some(nw) => resize_lanczos(&img, nw),
        None => img,
    }
}

} // verus!
