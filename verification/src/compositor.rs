//! The transparency/upscale compositor.
//!
//! One raster image plus a 3-byte transparent color key and two booleans
//! (`upscale`, `compress`) decide a saved file and a format tag. The upscale
//! path separates the image into a binary color-key mask (resized with a
//! triangle filter as an anti-aliased transparency proxy) and a
//! transparent-key image handed to the external super-resolution engine; the
//! engine's opaque prediction is recombined with the resized mask's red
//! channel as the synthesized alpha.

use vstd::prelude::*;

use crate::raster::Raster;
use crate::raster::key_at;
use crate::raster::lemma_pixel_in_bounds;
use crate::raster::lemma_quad_mod;

verus! {

/// The fixed integer factor the upscale path enlarges by.
pub const UPSCALE_FACTOR: u32 = 3;

/// The format the compositor saves one processed image under.
#[derive(Clone, Copy, Debug, PartialEq, Eq, Structural)]
pub enum OutputFormat {
    /// Lossless container with the pixels untouched.
    OriginalRaster,
    /// Lossy container, no resize.
    CompressedRaster,
    /// Upscaled, saved losslessly.
    LosslessUpscaled,
    /// Upscaled, saved lossily.
    CompressedUpscaled,
}

impl OutputFormat {
    /// The file extension of the container this format is saved as.
    pub fn extension(&self) -> (s: &'static str)
        ensures
            self is OriginalRaster ==> s@ == "bmp"@,
            self is CompressedRaster ==> s@ == "webp"@,
            self is LosslessUpscaled ==> s@ == "png"@,
            self is CompressedUpscaled ==> s@ == "webp"@,
    {
        match self {
            OutputFormat::OriginalRaster => "bmp",
            OutputFormat::CompressedRaster => "webp",
            OutputFormat::LosslessUpscaled => "png",
            OutputFormat::CompressedUpscaled => "webp",
        }
    }
}

/// The compositor's 4-way output policy: evaluated in order, first match
/// wins. Without upscaling the pixels stay at their size, losslessly unless
/// compression is asked for; with upscaling the output is the upscaled image,
/// lossless or lossy as `compress` says.
pub open spec fn spec_choose_format(upscale: bool, compress: bool) -> OutputFormat {
    if !upscale && !compress {
        OutputFormat::OriginalRaster
    } else if !upscale && compress {
        OutputFormat::CompressedRaster
    } else if !compress {
        OutputFormat::LosslessUpscaled
    } else {
        OutputFormat::CompressedUpscaled
    }
}

/// Decide the output format for one image from the two booleans.
pub fn choose_format(upscale: bool, compress: bool) -> (f: OutputFormat)
    ensures
        f == spec_choose_format(upscale, compress),
{
    if !upscale {
        if compress {
            OutputFormat::CompressedRaster
        } else {
            OutputFormat::OriginalRaster
        }
    } else {
        if compress {
            OutputFormat::CompressedUpscaled
        } else {
            OutputFormat::LosslessUpscaled
        }
    }
}

/// Byte `i` of the mask image: a pixel matching the color key becomes the
/// color key itself, any other pixel becomes opaque black; alpha is 255
/// everywhere.
pub open spec fn mask_byte(s: Seq<u8>, i: int, key: [u8; 3]) -> u8 {
    let q = i / 4;
    let c = i % 4;
    if c == 3 {
        255u8
    } else if key_at(s, q, key) {
        key[c]
    } else {
        0u8
    }
}

/// The pixel bytes of the mask image built from source pixels `s`.
pub open spec fn mask_pixels_of(s: Seq<u8>, key: [u8; 3]) -> Seq<u8> {
    Seq::new(s.len(), |i: int| mask_byte(s, i, key))
}

/// Byte `i` of the transparent-key image: a pixel matching the color key
/// becomes fully transparent black, any other pixel passes through unchanged,
/// its own alpha included.
pub open spec fn keyed_byte(s: Seq<u8>, i: int, key: [u8; 3]) -> u8 {
    if key_at(s, i / 4, key) {
        0u8
    } else {
        s[i]
    }
}

/// The pixel bytes of the transparent-key image built from source pixels `s`.
pub open spec fn keyed_pixels_of(s: Seq<u8>, key: [u8; 3]) -> Seq<u8> {
    Seq::new(s.len(), |i: int| keyed_byte(s, i, key))
}

/// Byte `i` of the composite: color channels from the foreground image `fg`,
/// alpha synthesized as 255 minus the background image's red channel at the
/// same pixel.
pub open spec fn combined_byte(fg: Seq<u8>, bg: Seq<u8>, i: int) -> u8 {
    if i % 4 == 3 {
        (255 - bg[4 * (i / 4)]) as u8
    } else {
        fg[i]
    }
}

/// The pixel bytes of the composite of `fg` over the mask `bg`.
pub open spec fn combined_pixels_of(fg: Seq<u8>, bg: Seq<u8>) -> Seq<u8> {
    Seq::new(fg.len(), |i: int| combined_byte(fg, bg, i))
}

/// The pixel bytes the external resize returns for the given source image,
/// target dimensions, and the triangle (bilinear) filter.
pub uninterp spec fn triangle_resize_of(
    pixels: Seq<u8>,
    width: int,
    height: int,
    new_width: int,
    new_height: int,
) -> Seq<u8>;

/// Relies on image::imageops::resize with FilterType::Triangle: the result is
/// an image of exactly the requested dimensions, a function of the source
/// pixels and the dimensions alone.
#[verifier::external_body]
fn resize_triangle(img: &Raster, new_width: u32, new_height: u32) -> (r: Raster)
    requires
        img.wf(),
        4 * (new_width as int) * (new_height as int) <= usize::MAX,
    ensures
        r.wf(),
        r.width == new_width,
        r.height == new_height,
        r.pixels@ == triangle_resize_of(
            img.pixels@,
            img.width as int,
            img.height as int,
            new_width as int,
            new_height as int,
        ),
{
    let buf = image::RgbaImage::from_raw(img.width, img.height, img.pixels.clone())
        .expect("pixel buffer length matches the dimensions");
    let out = image::imageops::resize(
        &buf,
        new_width,
        new_height,
        image::imageops::FilterType::Triangle,
    );
    Raster { width: new_width, height: new_height, pixels: out.into_raw() }
}

/// The number of pixels of a well-formed raster, with the facts the
/// byte-indexing loops need.
fn pixel_count(img: &Raster) -> (count: usize)
    requires
        img.wf(),
    ensures
        count == (img.width as int) * (img.height as int),
        4 * count == img.pixels@.len(),
        4 * count <= usize::MAX,
{
    let n = img.pixels.len();
    proof {
        assert((img.width as int) * (img.height as int) * 4 == 4 * (img.width as int) * (
        img.height as int) && 0 <= (img.width as int) * (img.height as int)) by (nonlinear_arith);
    }
    (img.width as usize) * (img.height as usize)
}

/// Build the mask image: every pixel matching the color key exactly becomes
/// the color key itself, every other pixel becomes opaque black.
pub fn background_and_foreground(img: &Raster, transparent_color: [u8; 3]) -> (r: Raster)
    requires
        img.wf(),
    ensures
        r.wf(),
        r.width == img.width,
        r.height == img.height,
        r.pixels@ == mask_pixels_of(img.pixels@, transparent_color),
{
    let count = pixel_count(img);
    let mut pixels: Vec<u8> = Vec::new();
    let mut p: usize = 0;
    while p < count
        invariant
            p <= count,
            img.wf(),
            count == (img.width as int) * (img.height as int),
            4 * count == img.pixels@.len(),
            4 * count <= usize::MAX,
            pixels@.len() == 4 * p,
            forall|i: int|
                0 <= i < 4 * p ==> #[trigger] pixels@[i] == mask_byte(
                    img.pixels@,
                    i,
                    transparent_color,
                ),
        decreases count - p,
    {
        let base: usize = 4 * p;
        let matches = img.pixels[base] == transparent_color[0] && img.pixels[base + 1]
            == transparent_color[1] && img.pixels[base + 2] == transparent_color[2];
        if matches {
            pixels.push(transparent_color[0]);
            pixels.push(transparent_color[1]);
            pixels.push(transparent_color[2]);
            pixels.push(255);
        } else {
            pixels.push(0);
            pixels.push(0);
            pixels.push(0);
            pixels.push(255);
        }
        proof {
            lemma_quad_mod(p as int);
        }
        p = p + 1;
    }
    let r = Raster { width: img.width, height: img.height, pixels };
    proof {
        assert(r.pixels@ =~= mask_pixels_of(img.pixels@, transparent_color));
    }
    r
}

/// Build the transparent-key image: every pixel matching the color key
/// becomes fully transparent, every other pixel passes through unchanged.
pub fn background_to_transparent(img: &Raster, transparent_color: [u8; 3]) -> (r: Raster)
    requires
        img.wf(),
    ensures
        r.wf(),
        r.width == img.width,
        r.height == img.height,
        r.pixels@ == keyed_pixels_of(img.pixels@, transparent_color),
{
    let count = pixel_count(img);
    let mut pixels: Vec<u8> = Vec::new();
    let mut p: usize = 0;
    while p < count
        invariant
            p <= count,
            img.wf(),
            count == (img.width as int) * (img.height as int),
            4 * count == img.pixels@.len(),
            4 * count <= usize::MAX,
            pixels@.len() == 4 * p,
            forall|i: int|
                0 <= i < 4 * p ==> #[trigger] pixels@[i] == keyed_byte(
                    img.pixels@,
                    i,
                    transparent_color,
                ),
        decreases count - p,
    {
        let base: usize = 4 * p;
        let matches = img.pixels[base] == transparent_color[0] && img.pixels[base + 1]
            == transparent_color[1] && img.pixels[base + 2] == transparent_color[2];
        if matches {
            pixels.push(0);
            pixels.push(0);
            pixels.push(0);
            pixels.push(0);
        } else {
            pixels.push(img.pixels[base]);
            pixels.push(img.pixels[base + 1]);
            pixels.push(img.pixels[base + 2]);
            pixels.push(img.pixels[base + 3]);
        }
        proof {
            lemma_quad_mod(p as int);
        }
        p = p + 1;
    }
    let r = Raster { width: img.width, height: img.height, pixels };
    proof {
        assert(r.pixels@ =~= keyed_pixels_of(img.pixels@, transparent_color));
    }
    r
}

/// Composite the upscaled prediction over the upscaled mask: color channels
/// from `img`, alpha set to 255 minus the mask's red channel at the same
/// pixel.
pub fn combine_background(img: &Raster, background_img: &Raster) -> (r: Raster)
    requires
        img.wf(),
        background_img.wf(),
        img.width == background_img.width,
        img.height == background_img.height,
    ensures
        r.wf(),
        r.width == img.width,
        r.height == img.height,
        r.pixels@ == combined_pixels_of(img.pixels@, background_img.pixels@),
{
    let count = pixel_count(img);
    let mut pixels: Vec<u8> = Vec::new();
    let mut p: usize = 0;
    while p < count
        invariant
            p <= count,
            img.wf(),
            background_img.wf(),
            img.width == background_img.width,
            img.height == background_img.height,
            count == (img.width as int) * (img.height as int),
            4 * count == img.pixels@.len(),
            4 * count <= usize::MAX,
            4 * count == background_img.pixels@.len(),
            pixels@.len() == 4 * p,
            forall|i: int|
                0 <= i < 4 * p ==> #[trigger] pixels@[i] == combined_byte(
                    img.pixels@,
                    background_img.pixels@,
                    i,
                ),
        decreases count - p,
    {
        let base: usize = 4 * p;
        pixels.push(img.pixels[base]);
        pixels.push(img.pixels[base + 1]);
        pixels.push(img.pixels[base + 2]);
        pixels.push(255 - background_img.pixels[base]);
        proof {
            lemma_quad_mod(p as int);
        }
        p = p + 1;
    }
    let r = Raster { width: img.width, height: img.height, pixels };
    proof {
        assert(r.pixels@ =~= combined_pixels_of(img.pixels@, background_img.pixels@));
    }
    r
}

/// What the upscale path hands to the external super-resolution engine: the
/// transparent-key image to predict from, and the already-resized mask whose
/// red channel later becomes the synthesized alpha.
pub struct UpscaleJob {
    pub mask_upscaled: Raster,
    pub transparent: Raster,
}

/// The dimension bounds under which the upscale path fits the machine's
/// integer types.
pub open spec fn upscale_fits(img: Raster) -> bool {
    &&& (UPSCALE_FACTOR as int) * (img.width as int) <= u32::MAX
    &&& (UPSCALE_FACTOR as int) * (img.height as int) <= u32::MAX
    &&& 4 * ((UPSCALE_FACTOR as int) * (img.width as int)) * ((UPSCALE_FACTOR as int)
        * (img.height as int)) <= usize::MAX
}

/// `job` is exactly what the upscale path derives from `img`: the
/// transparent-key image, and the color-key mask resized by the fixed factor
/// with the triangle filter.
pub open spec fn spec_upscale_job(job: UpscaleJob, img: Raster, key: [u8; 3]) -> bool {
    &&& job.transparent.wf()
    &&& job.transparent.width == img.width
    &&& job.transparent.height == img.height
    &&& job.transparent.pixels@ == keyed_pixels_of(img.pixels@, key)
    &&& job.mask_upscaled.wf()
    &&& job.mask_upscaled.width == (UPSCALE_FACTOR as int) * (img.width as int)
    &&& job.mask_upscaled.height == (UPSCALE_FACTOR as int) * (img.height as int)
    &&& job.mask_upscaled.pixels@ == triangle_resize_of(
        mask_pixels_of(img.pixels@, key),
        img.width as int,
        img.height as int,
        (UPSCALE_FACTOR as int) * (img.width as int),
        (UPSCALE_FACTOR as int) * (img.height as int),
    )
}

/// Stage the upscale of one image: build the mask, resize it by the fixed
/// factor, and build the transparent-key image for the inference engine.
pub fn prepare_upscale(img: &Raster, transparent_color: [u8; 3]) -> (job: UpscaleJob)
    requires
        img.wf(),
        upscale_fits(*img),
    ensures
        spec_upscale_job(job, *img, transparent_color),
{
    let mask = background_and_foreground(img, transparent_color);
    let mask_upscaled = resize_triangle(
        &mask,
        img.width * UPSCALE_FACTOR,
        img.height * UPSCALE_FACTOR,
    );
    let transparent = background_to_transparent(img, transparent_color);
    UpscaleJob { mask_upscaled, transparent }
}

/// The pixel work one image still needs: either the pixels are finished, or
/// the staged upscale awaits the external engine's prediction.
pub enum ProcessStage {
    /// No upscale: these pixels are saved as they are.
    Direct(Raster),
    /// Upscale: the engine's prediction over the job's transparent-key image
    /// is composited with [`combine_background`] before saving.
    NeedsInference(UpscaleJob),
}

/// What the compositor decides for one image: the chosen output format and the
/// pixel work that leads to it.
pub struct ProcessOutcome {
    pub format: OutputFormat,
    pub stage: ProcessStage,
}

/// Process one raster image per the output policy: without upscaling the
/// pixels pass through untouched and only the container differs; with
/// upscaling the color-key mask and transparent-key image are staged for the
/// external engine.
pub fn process_image(img: Raster, compress: bool, upscale: bool, transparent_color: [u8; 3]) -> (r:
    ProcessOutcome)
    requires
        img.wf(),
        upscale ==> upscale_fits(img),
    ensures
        r.format == spec_choose_format(upscale, compress),
        !upscale ==> (r.stage matches ProcessStage::Direct(d) && d.width == img.width
            && d.height == img.height && d.pixels@ == img.pixels@),
        upscale ==> (r.stage matches ProcessStage::NeedsInference(job) && spec_upscale_job(
            job,
            img,
            transparent_color,
        )),
{
    let format = choose_format(upscale, compress);
    if !upscale {
        ProcessOutcome { format, stage: ProcessStage::Direct(img) }
    } else {
        let job = prepare_upscale(&img, transparent_color);
        ProcessOutcome { format, stage: ProcessStage::NeedsInference(job) }
    }
}

/// What the mask holds at an in-bounds pixel: the color key where the source
/// matched it, opaque black elsewhere.
pub proof fn lemma_mask_pixel(img: Raster, m: Raster, key: [u8; 3], x: int, y: int)
    requires
        img.wf(),
        m.width == img.width,
        m.height == img.height,
        m.pixels@ == mask_pixels_of(img.pixels@, key),
        0 <= x < img.width,
        0 <= y < img.height,
    ensures
        img.matches_key(x, y, key) ==> m.spec_pixel(x, y) == (key[0], key[1], key[2], 255u8),
        !img.matches_key(x, y, key) ==> m.spec_pixel(x, y) == (0u8, 0u8, 0u8, 255u8),
{
    lemma_pixel_in_bounds(img.width as int, img.height as int, x, y);
    lemma_quad_mod(y * img.width + x);
}

/// What the transparent-key image holds at an in-bounds pixel: fully
/// transparent black where the source matched the key, the source pixel
/// unchanged elsewhere.
pub proof fn lemma_keyed_pixel(img: Raster, t: Raster, key: [u8; 3], x: int, y: int)
    requires
        img.wf(),
        t.width == img.width,
        t.height == img.height,
        t.pixels@ == keyed_pixels_of(img.pixels@, key),
        0 <= x < img.width,
        0 <= y < img.height,
    ensures
        img.matches_key(x, y, key) ==> t.spec_pixel(x, y) == (0u8, 0u8, 0u8, 0u8),
        !img.matches_key(x, y, key) ==> t.spec_pixel(x, y) == img.spec_pixel(x, y),
{
    lemma_pixel_in_bounds(img.width as int, img.height as int, x, y);
    lemma_quad_mod(y * img.width + x);
}

/// What the composite holds at an in-bounds pixel: the foreground's color
/// channels, and 255 minus the mask's red channel as alpha.
pub proof fn lemma_combined_pixel(fg: Raster, bg: Raster, out: Raster, x: int, y: int)
    requires
        fg.wf(),
        bg.wf(),
        bg.width == fg.width,
        bg.height == fg.height,
        out.width == fg.width,
        out.height == fg.height,
        out.pixels@ == combined_pixels_of(fg.pixels@, bg.pixels@),
        0 <= x < fg.width,
        0 <= y < fg.height,
    ensures
        out.spec_pixel(x, y) == (
            fg.chan(x, y, 0),
            fg.chan(x, y, 1),
            fg.chan(x, y, 2),
            (255 - bg.chan(x, y, 0)) as u8,
        ),
{
    lemma_pixel_in_bounds(fg.width as int, fg.height as int, x, y);
    lemma_quad_mod(y * fg.width + x);
}

/// The upscale path scales both pixel dimensions by exactly the fixed
/// factor: any composite built from an engine prediction of the staged
/// mask's dimensions measures factor times the source in each direction.
pub proof fn lemma_upscale_dimensions(
    img: Raster,
    job: UpscaleJob,
    ai: Raster,
    out: Raster,
    key: [u8; 3],
)
    requires
        spec_upscale_job(job, img, key),
        ai.width == job.mask_upscaled.width,
        ai.height == job.mask_upscaled.height,
        out.width == ai.width,
        out.height == ai.height,
    ensures
        out.width == (UPSCALE_FACTOR as int) * (img.width as int),
        out.height == (UPSCALE_FACTOR as int) * (img.height as int),
{
}

/// Color-key alpha synthesis: wherever the (resized) mask's red channel is
/// fully saturated, the composite's alpha is exactly 0. On a mask that is
/// saturated everywhere -- as the mask of a solid color-key image is, for a
/// key with a 255 red channel -- every composite pixel is fully transparent.
pub proof fn lemma_saturated_mask_transparent(fg: Raster, bg: Raster, out: Raster)
    requires
        fg.wf(),
        bg.wf(),
        bg.width == fg.width,
        bg.height == fg.height,
        out.width == fg.width,
        out.height == fg.height,
        out.pixels@ == combined_pixels_of(fg.pixels@, bg.pixels@),
        forall|x: int, y: int|
            0 <= x < bg.width && 0 <= y < bg.height ==> #[trigger] bg.chan(x, y, 0) == 255,
    ensures
        forall|x: int, y: int|
            0 <= x < out.width && 0 <= y < out.height ==> #[trigger] out.chan(x, y, 3) == 0,
{
    assert forall|x: int, y: int|
        0 <= x < out.width && 0 <= y < out.height implies #[trigger] out.chan(x, y, 3) == 0 by {
        lemma_combined_pixel(fg, bg, out, x, y);
    }
}

/// The mask of an image every pixel of which matches the color key holds the
/// color key at every pixel; in particular its red channel is the key's red
/// channel everywhere.
pub proof fn lemma_solid_key_mask(img: Raster, m: Raster, key: [u8; 3])
    requires
        img.wf(),
        m.width == img.width,
        m.height == img.height,
        m.pixels@ == mask_pixels_of(img.pixels@, key),
        forall|x: int, y: int|
            0 <= x < img.width && 0 <= y < img.height ==> #[trigger] img.matches_key(x, y, key),
    ensures
        forall|x: int, y: int|
            0 <= x < m.width && 0 <= y < m.height ==> #[trigger] m.spec_pixel(x, y) == (
                key[0],
                key[1],
                key[2],
                255u8,
            ),
        forall|x: int, y: int|
            0 <= x < m.width && 0 <= y < m.height ==> #[trigger] m.chan(x, y, 0) == key[0],
{
    assert forall|x: int, y: int|
        0 <= x < m.width && 0 <= y < m.height implies #[trigger] m.spec_pixel(x, y) == (
        key[0],
        key[1],
        key[2],
        255u8,
    ) by {
        lemma_mask_pixel(img, m, key, x, y);
    }
    assert forall|x: int, y: int|
        0 <= x < m.width && 0 <= y < m.height implies #[trigger] m.chan(x, y, 0) == key[0] by {
        assert(m.spec_pixel(x, y) == (key[0], key[1], key[2], 255u8));
    }
}

/// One successfully processed image: its flat filename in the working pool
/// and the format it was saved under.
pub struct ProcessedImage {
    pub name: String,
    pub format: OutputFormat,
}

impl ProcessedImage {
    /// An owned copy of this record.
    pub fn duplicate(&self) -> (r: ProcessedImage)
        ensures
            r == *self,
    {
        ProcessedImage { name: self.name.clone(), format: self.format }
    }
}

/// A planned copy of one file of the working pool under a second name.
pub struct CopyOp {
    pub src: String,
    pub dst: String,
}

/// The view of a copy plan: source and destination names.
pub open spec fn copy_views(cs: Seq<CopyOp>) -> Seq<(Seq<char>, Seq<char>)> {
    cs.map_values(|c: CopyOp| (c.src@, c.dst@))
}

/// The view of a processed-image list: name and format tag.
pub open spec fn processed_views(ps: Seq<ProcessedImage>) -> Seq<(Seq<char>, OutputFormat)> {
    ps.map_values(|p: ProcessedImage| (p.name@, p.format))
}

/// The file extension of each output format, as a character sequence.
pub open spec fn spec_format_ext(f: OutputFormat) -> Seq<char> {
    match f {
        OutputFormat::OriginalRaster => "bmp"@,
        OutputFormat::CompressedRaster => "webp"@,
        OutputFormat::LosslessUpscaled => "png"@,
        OutputFormat::CompressedUpscaled => "webp"@,
    }
}

} // verus!
