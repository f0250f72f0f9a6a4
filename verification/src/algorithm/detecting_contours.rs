use vstd::prelude::*;
use photon_rs::PhotonImage;
use crate::domain::Eval;

verus! {

/// An RGBA frame as photon-rs holds it: four bytes per pixel, row by row.
pub struct PixelImage {
    pub pixels: Vec<u8>,
    pub width: u32,
    pub height: u32,
}

impl PixelImage {
    /// The pixel bytes fill the frame exactly, the frame has at least two rows and two
    /// columns (the blur shrinks its radius to fit them), and its byte count fits the `u32`
    /// arithmetic of photon-rs.
    pub open spec fn well_formed(&self) -> bool {
        &&& self.pixels@.len() == 4 * self.width * self.height
        &&& self.width >= 2
        &&& self.height >= 2
        &&& 4 * self.width * self.height <= u32::MAX
    }
}

/// The grey level of the pixel whose red byte stands at `base`: the mean of its
/// red, green and blue bytes, rounded down.
pub open spec fn grey_level(pixels: Seq<u8>, base: int) -> u8 {
    ((pixels[base] + pixels[base + 1] + pixels[base + 2]) / 3) as u8
}

/// The bytes after converting each pixel to grey: the colour bytes of a pixel all
/// become its grey level, the alpha byte stays.
pub open spec fn greyscale_pixels(pixels: Seq<u8>) -> Seq<u8> {
    Seq::new(
        pixels.len(),
        |i: int| if i % 4 == 3 { pixels[i] } else { grey_level(pixels, i - i % 4) },
    )
}

/// The bytes that photon-rs's Gaussian blur of the given radius gives for a frame.
pub uninterp spec fn gaussian_blur_of(pixels: Seq<u8>, width: u32, height: u32, radius: i32) -> Seq<u8>;

/// The bytes that photon-rs's vertical Sobel filter gives for a frame.
pub uninterp spec fn sobel_vertical_of(pixels: Seq<u8>, width: u32, height: u32) -> Seq<u8>;

/// The bytes that photon-rs's noise reduction kernel gives for a frame.
pub uninterp spec fn noise_reduction_of(pixels: Seq<u8>, width: u32, height: u32) -> Seq<u8>;

/// The bytes that photon-rs's luminance threshold gives for a frame.
pub uninterp spec fn threshold_of(pixels: Seq<u8>, level: u32) -> Seq<u8>;

/// Each colour byte is 0 or 255.
pub open spec fn black_and_white(pixels: Seq<u8>) -> bool {
    forall|i: int| 0 <= i < pixels.len() && i % 4 != 3 ==> pixels[i] == 0 || pixels[i] == 255
}

/// `after` has the bytes of `before`, each colour byte made 0 or 255, each alpha
/// byte kept.
pub open spec fn binarized(before: Seq<u8>, after: Seq<u8>) -> bool {
    &&& after.len() == before.len()
    &&& forall|i: int| 0 <= i < after.len() && i % 4 == 3 ==> after[i] == before[i]
    &&& black_and_white(after)
}

/// The blur radius of the contour search.
pub const BLUR_RADIUS: i32 = 3;

/// The luminance level above which a filtered pixel is a contour.
pub const CONTOUR_LEVEL: u32 = 7;

/// The contour image of a frame: grey, blurred, vertical Sobel, noise reduction,
/// threshold, in this order.
pub open spec fn contours_of(frame: PixelImage) -> Seq<u8> {
    let grey = greyscale_pixels(frame.pixels@);
    let blurred = gaussian_blur_of(grey, frame.width, frame.height, BLUR_RADIUS);
    let edges = sobel_vertical_of(blurred, frame.width, frame.height);
    let cleaned = noise_reduction_of(edges, frame.width, frame.height);
    threshold_of(cleaned, CONTOUR_LEVEL)
}

/// The contour image is the threshold, at level 7, of the noise-reduced vertical edge
/// (Sobel) response of the frame made grey and blurred with radius 3: the edge response
/// comes between the blur and the noise reduction.
pub proof fn lemma_contours_are_thresholded_edges(frame: PixelImage)
    ensures
        contours_of(frame) == threshold_of(
            noise_reduction_of(
                sobel_vertical_of(
                    gaussian_blur_of(greyscale_pixels(frame.pixels@), frame.width, frame.height, 3),
                    frame.width,
                    frame.height,
                ),
                frame.width,
                frame.height,
            ),
            7,
        ),
{
}

/// Calls `photon_rs::monochrome::grayscale`, which sets the three colour bytes of
/// each pixel to the mean of them, rounded down, and keeps the alpha byte.
#[verifier::external_body]
fn photon_grayscale(pixels: Vec<u8>, width: u32, height: u32) -> (res: Vec<u8>)
    requires
        pixels@.len() % 4 == 0,
    ensures
        res@ == greyscale_pixels(pixels@),
{
    let mut image = PhotonImage::new(pixels, width, height);
    photon_rs::monochrome::grayscale(&mut image);
    image.get_raw_pixels()
}

/// Calls `photon_rs::conv::gaussian_blur`; the result is named, and it has as many
/// bytes as the frame.
#[verifier::external_body]
fn photon_gaussian_blur(pixels: Vec<u8>, width: u32, height: u32, radius: i32) -> (res: Vec<u8>)
    requires
        pixels@.len() == 4 * width * height,
        width >= 2,
        height >= 2,
        4 * width * height <= u32::MAX,
        0 <= radius <= 3,
    ensures
        res@ == gaussian_blur_of(pixels@, width, height, radius),
        res@.len() == pixels@.len(),
{
    let mut image = PhotonImage::new(pixels, width, height);
    photon_rs::conv::gaussian_blur(&mut image, radius);
    image.get_raw_pixels()
}

/// Calls `photon_rs::conv::sobel_vertical`; the result is named, and it has as many
/// bytes as the frame.
#[verifier::external_body]
fn photon_sobel_vertical(pixels: Vec<u8>, width: u32, height: u32) -> (res: Vec<u8>)
    requires
        pixels@.len() == 4 * width * height,
        width >= 1,
        height >= 1,
        4 * width * height <= u32::MAX,
    ensures
        res@ == sobel_vertical_of(pixels@, width, height),
        res@.len() == pixels@.len(),
{
    let mut image = PhotonImage::new(pixels, width, height);
    photon_rs::conv::sobel_vertical(&mut image);
    image.get_raw_pixels()
}

/// Calls `photon_rs::conv::noise_reduction`; the result is named, and it has as
/// many bytes as the frame.
#[verifier::external_body]
fn photon_noise_reduction(pixels: Vec<u8>, width: u32, height: u32) -> (res: Vec<u8>)
    requires
        pixels@.len() == 4 * width * height,
        width >= 1,
        height >= 1,
        4 * width * height <= u32::MAX,
    ensures
        res@ == noise_reduction_of(pixels@, width, height),
        res@.len() == pixels@.len(),
{
    let mut image = PhotonImage::new(pixels, width, height);
    photon_rs::conv::noise_reduction(&mut image);
    image.get_raw_pixels()
}

/// Calls `photon_rs::monochrome::threshold`; the result is named, and each of its
/// colour bytes is 0 or 255 while each alpha byte stays.
#[verifier::external_body]
fn photon_threshold(pixels: Vec<u8>, width: u32, height: u32, level: u32) -> (res: Vec<u8>)
    requires
        pixels@.len() % 4 == 0,
    ensures
        res@ == threshold_of(pixels@, level),
        binarized(pixels@, res@),
{
    let mut image = PhotonImage::new(pixels, width, height);
    photon_rs::monochrome::threshold(&mut image, level);
    image.get_raw_pixels()
}

/// The contour image found by [DetectingContours].
pub struct DetectingContoursCtx {
    pub result: PixelImage,
}

/// Finds the rope contours on a frame.
pub struct DetectingContours {
    input_frame: PixelImage,
    result: Option<DetectingContoursCtx>,
}

impl DetectingContours {
    #[verifier::type_invariant]
    spec fn frame_fits(self) -> bool {
        self.input_frame.well_formed()
    }

    /// The frame this instance works on.
    pub closed spec fn frame(self) -> PixelImage {
        self.input_frame
    }

    /// A new instance over `input_frame`.
    pub fn new(input_frame: PixelImage) -> (res: Self)
        requires
            input_frame.well_formed(),
        ensures
            res.frame() == input_frame,
    {
        DetectingContours { input_frame, result: None }
    }

    /// The contour image of the frame, of the frame's size.
    fn get_contours(&self) -> (res: PixelImage)
        ensures
            res.pixels@ == contours_of(self.frame()),
            res.pixels@ == threshold_of(
                noise_reduction_of(
                    sobel_vertical_of(
                        gaussian_blur_of(greyscale_pixels(self.frame().pixels@), self.frame().width, self.frame().height, 3),
                        self.frame().width,
                        self.frame().height,
                    ),
                    self.frame().width,
                    self.frame().height,
                ),
                7,
            ),
            res.width == self.frame().width,
            res.height == self.frame().height,
            res.pixels@.len() == self.frame().pixels@.len(),
            black_and_white(res.pixels@),
    {
        proof {
            use_type_invariant(self);
        }
        let width = self.input_frame.width;
        let height = self.input_frame.height;
        let pixels = copy_bytes(&self.input_frame.pixels);
        proof {
            let w: int = width as int;
            let h: int = height as int;
            assert(4 * w * h == (w * h) * 4) by (nonlinear_arith);
            vstd::arithmetic::div_mod::lemma_mod_multiples_basic(w * h, 4);
        }
        let grey = photon_grayscale(pixels, width, height);
        let blurred = photon_gaussian_blur(grey, width, height, BLUR_RADIUS);
        let edges = photon_sobel_vertical(blurred, width, height);
        let cleaned = photon_noise_reduction(edges, width, height);
        let result = photon_threshold(cleaned, width, height, CONTOUR_LEVEL);
        PixelImage { pixels: result, width, height }
    }
}

/// A copy of `bytes`.
fn copy_bytes(bytes: &Vec<u8>) -> (res: Vec<u8>)
    ensures
        res@ == bytes@,
{
    let mut res: Vec<u8> = Vec::new();
    let mut i: usize = 0;
    while i < bytes.len()
        invariant
            i <= bytes@.len(),
            res@ == bytes@.subrange(0, i as int),
        decreases bytes@.len() - i,
    {
        res.push(bytes[i]);
        i = i + 1;
    }
    res
}

impl Eval<(), DetectingContoursCtx> for DetectingContours {
    /// The contour image of the frame.
    fn eval(&self, val: ()) -> (res: DetectingContoursCtx)
        ensures
            res.result.pixels@ == contours_of(self.frame()),
            res.result.pixels@ == threshold_of(
                noise_reduction_of(
                    sobel_vertical_of(
                        gaussian_blur_of(greyscale_pixels(self.frame().pixels@), self.frame().width, self.frame().height, 3),
                        self.frame().width,
                        self.frame().height,
                    ),
                    self.frame().width,
                    self.frame().height,
                ),
                7,
            ),
            res.result.width == self.frame().width,
            res.result.height == self.frame().height,
            black_and_white(res.result.pixels@),
    {
        DetectingContoursCtx { result: self.get_contours() }
    }
}

} // verus!
