//! Getting a captured image ready for the vision model: downscaled where it is
//! larger than allowed, otherwise byte for byte as it was captured.

use crate::paths::{has_extension, names_extension, path_extension};
use vstd::prelude::*;

verus! {

/// `image::DynamicImage`, a decoded image.
#[verifier::external_type_specification]
#[verifier::external_body]
pub struct ExDynamicImage(image::DynamicImage);

/// `image::ImageError`, why an image could not be decoded or encoded.
#[verifier::external_type_specification]
#[verifier::external_body]
pub struct ExImageError(image::ImageError);

/// `image::ImageFormat`, a file format.
#[verifier::external_type_specification]
#[verifier::external_body]
pub struct ExImageFormat(image::ImageFormat);

/// A decoded image.
pub ghost struct Picture {
    pub width: u32,
    pub height: u32,
    /// The layout of the samples, and after it the samples themselves.
    pub samples: Seq<u8>,
}

/// What an `image::DynamicImage` holds.
pub uninterp spec fn picture(img: image::DynamicImage) -> Picture;

/// The text that an `image::ImageError` is printed as.
pub uninterp spec fn image_message(e: image::ImageError) -> Seq<char>;

/// The text that an `image::ImageError` is printed as together with what
/// caused it, by the alternate `Display` of `anyhow::Error`.
pub uninterp spec fn image_chain(e: image::ImageError) -> Seq<char>;

/// What is said of an image that could not be decoded or encoded.
pub ghost struct ProblemView {
    /// The error itself.
    pub message: Seq<char>,
    /// The error and what caused it.
    pub chain: Seq<char>,
}

/// What is said of an error.
pub open spec fn problem_with(e: image::ImageError) -> ProblemView {
    ProblemView { message: image_message(e), chain: image_chain(e) }
}

/// What `image::load_from_memory` makes of a file's bytes, the format being
/// guessed from the bytes themselves.
pub uninterp spec fn decoded(bytes: Seq<u8>) -> Result<Picture, ProblemView>;

/// The format that `image::ImageFormat::from_path` finds in the extension of a
/// path.
pub uninterp spec fn path_format(path: Seq<char>) -> Result<image::ImageFormat, ProblemView>;

/// What `image::ImageReader::decode` makes of a file's bytes in a format.
pub uninterp spec fn decoded_with(bytes: Seq<u8>, format: image::ImageFormat) -> Result<
    Picture,
    ProblemView,
>;

/// What `image::DynamicImage::resize` with the triangle filter makes of a
/// picture, both bounds being `max`.
pub uninterp spec fn resized(p: Picture, max: u32) -> Picture;

/// The PNG file that `image::DynamicImage::write_to` writes of a picture.
pub uninterp spec fn png_of(p: Picture) -> Result<Seq<u8>, ProblemView>;

/// The `Display` of `image::ImageError`.
#[verifier::external_body]
fn message_of(e: &image::ImageError) -> (r: String)
    ensures
        r@ == image_message(*e),
{
    e.to_string()
}

/// The alternate `Display` of `anyhow::Error`: the error, and after it what
/// caused it.
#[verifier::external_body]
fn chain_of(e: image::ImageError) -> (r: String)
    ensures
        r@ == image_chain(e),
{
    format!("{:#}", anyhow::Error::from(e))
}

/// `image::load_from_memory`: a picture, or an error, by the bytes alone. The
/// crate lets a process register decoders of its own; none is registered here,
/// nor by anything that this library depends on.
#[verifier::external_body]
fn decode(bytes: &[u8]) -> (r: Result<image::DynamicImage, image::ImageError>)
    ensures
        match r {
            Ok(img) => decoded(bytes@) == Ok::<Picture, ProblemView>(picture(img)),
            Err(e) => decoded(bytes@) == Err::<Picture, ProblemView>(problem_with(e)),
        },
{
    image::load_from_memory(bytes)
}

/// `image::ImageFormat::from_path`: the format that the extension of a path
/// names, or an error.
#[verifier::external_body]
fn format_of(path: &str) -> (r: Result<image::ImageFormat, image::ImageError>)
    ensures
        match r {
            Ok(format) => path_format(path@) == Ok::<image::ImageFormat, ProblemView>(format),
            Err(e) => path_format(path@) == Err::<image::ImageFormat, ProblemView>(
                problem_with(e),
            ),
        },
{
    image::ImageFormat::from_path(path)
}

/// `image::ImageReader::decode` on bytes in memory in the given format: a
/// picture, or an error, by the bytes and the format.
#[verifier::external_body]
fn decode_with(bytes: &[u8], format: image::ImageFormat) -> (r: Result<
    image::DynamicImage,
    image::ImageError,
>)
    ensures
        match r {
            Ok(img) => decoded_with(bytes@, format) == Ok::<Picture, ProblemView>(picture(img)),
            Err(e) => decoded_with(bytes@, format) == Err::<Picture, ProblemView>(
                problem_with(e),
            ),
        },
{
    image::ImageReader::with_format(std::io::Cursor::new(bytes), format).decode()
}

/// `image::DynamicImage::width`.
#[verifier::external_body]
fn width_of(img: &image::DynamicImage) -> (r: u32)
    ensures
        r == picture(*img).width,
{
    img.width()
}

/// `image::DynamicImage::height`.
#[verifier::external_body]
fn height_of(img: &image::DynamicImage) -> (r: u32)
    ensures
        r == picture(*img).height,
{
    img.height()
}

/// An edge of a picture, scaled as another edge of length `long` is to `max`:
/// less than a pixel off, and one pixel at least.
pub open spec fn scaled_edge(edge: u32, long: u32, max: u32, scaled: u32) -> bool {
    scaled >= 1 && -long < scaled * long - edge * max < long
}

/// `to` has the shape of `from`, and its long edge is `max`.
pub open spec fn same_shape(from: Picture, to: Picture, max: u32) -> bool {
    if from.width >= from.height {
        to.width == max && scaled_edge(from.height, from.width, max, to.height)
    } else {
        to.height == max && scaled_edge(from.width, from.height, max, to.width)
    }
}

/// `image::DynamicImage::resize` with the triangle filter, both bounds being
/// `max`: the result fits within the bounds, its long edge meets them, and its
/// shape is kept up to rounding. It is never smaller than one by one, so with
/// bounds of zero it does not fit.
#[verifier::external_body]
fn resize(img: &image::DynamicImage, max: u32) -> (r: image::DynamicImage)
    ensures
        picture(r) == resized(picture(*img), max),
        max > 0 ==> picture(r).width <= max && picture(r).height <= max,
        max > 0 && picture(*img).width > 0 && picture(*img).height > 0 ==> same_shape(
            picture(*img),
            picture(r),
            max,
        ),
{
    img.resize(max, max, image::imageops::FilterType::Triangle)
}

/// `image::DynamicImage::write_to` a buffer in memory, as PNG.
#[verifier::external_body]
fn encode_png(img: &image::DynamicImage) -> (r: Result<Vec<u8>, image::ImageError>)
    ensures
        match r {
            Ok(bytes) => png_of(picture(*img)) == Ok::<Seq<u8>, ProblemView>(bytes@),
            Err(e) => png_of(picture(*img)) == Err::<Seq<u8>, ProblemView>(problem_with(e)),
        },
{
    let mut buf = std::io::Cursor::new(Vec::new());
    img.write_to(&mut buf, image::ImageFormat::Png)?;
    Ok(buf.into_inner())
}

/// What is said of an image that could not be decoded or encoded.
pub struct Problem {
    /// The error itself.
    pub message: String,
    /// The error and what caused it.
    pub chain: String,
}

impl View for Problem {
    type V = ProblemView;

    open spec fn view(&self) -> ProblemView {
        ProblemView { message: self.message@, chain: self.chain@ }
    }
}

fn problem(e: image::ImageError) -> (r: Problem)
    ensures
        r@ == problem_with(e),
{
    let message = message_of(&e);
    Problem { message, chain: chain_of(e) }
}

/// Why an image could not be got ready.
pub enum ImageFailure {
    /// It could not be decoded.
    Decode(Problem),
    /// The downscaled image could not be encoded.
    Encode(Problem),
}

/// An image got ready, or why it could not be.
pub ghost enum Prepared {
    Bytes(Seq<u8>),
    Undecodable(ProblemView),
    Unencodable(ProblemView),
}

/// What a preparation gave.
pub open spec fn prepared_view(r: Result<Vec<u8>, ImageFailure>) -> Prepared {
    match r {
        Ok(bytes) => Prepared::Bytes(bytes@),
        Err(ImageFailure::Decode(p)) => Prepared::Undecodable(p@),
        Err(ImageFailure::Encode(p)) => Prepared::Unencodable(p@),
    }
}

/// The format of the file at `path`. An empty extension names none, just as
/// where there is no extension.
pub open spec fn file_format(path: Seq<char>) -> Result<image::ImageFormat, ProblemView> {
    path_format(
        if has_extension(path) {
            path
        } else {
            ""@
        },
    )
}

/// What becomes of a file's bytes in the format that its path names.
pub open spec fn decoded_as(bytes: Seq<u8>, path: Seq<char>) -> Result<Picture, ProblemView> {
    match file_format(path) {
        Ok(format) => decoded_with(bytes, format),
        Err(p) => Err(p),
    }
}

fn decode_as(bytes: &[u8], path: &str) -> (r: Result<image::DynamicImage, image::ImageError>)
    ensures
        match r {
            Ok(img) => decoded_as(bytes@, path@) == Ok::<Picture, ProblemView>(picture(img)),
            Err(e) => decoded_as(bytes@, path@) == Err::<Picture, ProblemView>(problem_with(e)),
        },
{
    let named: &str = if names_extension(path) {
        path
    } else {
        ""
    };
    match format_of(named) {
        Ok(format) => decode_with(bytes, format),
        Err(e) => Err(e),
    }
}

/// A picture whose long edge is over `max` has to be downscaled.
pub open spec fn too_large(width: u32, height: u32, max: u32) -> bool {
    width > max || height > max
}

/// Whether the long edge of a picture is over `max`.
pub fn needs_downscale(width: u32, height: u32, max: u32) -> (r: bool)
    ensures
        r == too_large(width, height, max),
        r <==> width > max || height > max,
{
    let long_edge: u32 = if width < height {
        height
    } else {
        width
    };
    long_edge > max
}

/// What becomes of a file: the bytes as they are where the picture in them is
/// no larger than `max`, otherwise a PNG of the picture resized.
pub open spec fn downscaled(p: Result<Picture, ProblemView>, raw: Seq<u8>, max: u32) -> Prepared {
    match p {
        Ok(p) => if too_large(p.width, p.height, max) {
            match png_of(resized(p, max)) {
                Ok(bytes) => Prepared::Bytes(bytes),
                Err(problem) => Prepared::Unencodable(problem),
            }
        } else {
            Prepared::Bytes(raw)
        },
        Err(problem) => Prepared::Undecodable(problem),
    }
}

/// The bytes of an image that is no larger than `max`: either the captured
/// ones of the picture `p`, or the PNG of a picture that fits and has the
/// shape of `p`.
pub open spec fn fits(
    bytes: Seq<u8>,
    raw: Seq<u8>,
    p: Result<Picture, ProblemView>,
    max: u32,
) -> bool {
    p matches Ok(own) && {
        ||| bytes == raw && !too_large(own.width, own.height, max)
        ||| exists|small: Picture|
            {
                &&& #[trigger] png_of(small) == Ok::<Seq<u8>, ProblemView>(bytes)
                &&& !too_large(small.width, small.height, max)
                &&& own.width > 0 && own.height > 0 ==> same_shape(own, small, max)
            }
    }
}

fn shrink(
    decoded: Result<image::DynamicImage, image::ImageError>,
    raw: Vec<u8>,
    max: u32,
    Ghost(p): Ghost<Result<Picture, ProblemView>>,
) -> (r: Result<Vec<u8>, ImageFailure>)
    requires
        match decoded {
            Ok(img) => p == Ok::<Picture, ProblemView>(picture(img)),
            Err(e) => p == Err::<Picture, ProblemView>(problem_with(e)),
        },
    ensures
        prepared_view(r) == downscaled(p, raw@, max),
        max > 0 ==> (r matches Ok(bytes) ==> fits(bytes@, raw@, p, max)),
{
    match decoded {
        Ok(img) => {
            if !needs_downscale(width_of(&img), height_of(&img), max) {
                return Ok(raw);
            }
            let small = resize(&img, max);
            match encode_png(&small) {
                Ok(bytes) => {
                    assert(png_of(picture(small)) == Ok::<Seq<u8>, ProblemView>(bytes@));
                    Ok(bytes)
                },
                Err(e) => Err(ImageFailure::Encode(problem(e))),
            }
        },
        Err(e) => Err(ImageFailure::Decode(problem(e))),
    }
}

/// Gets a captured file ready: as it is where downscaling is off, otherwise
/// decoded by its own bytes and downscaled where it is larger than `max`.
pub fn prepare_image(raw: Vec<u8>, enabled: bool, max: u32) -> (r: Result<Vec<u8>, ImageFailure>)
    ensures
        !enabled ==> prepared_view(r) == Prepared::Bytes(raw@),
        enabled ==> prepared_view(r) == downscaled(decoded(raw@), raw@, max),
        enabled && max > 0 ==> (r matches Ok(bytes) ==> fits(
            bytes@,
            raw@,
            decoded(raw@),
            max,
        )),
{
    if !enabled {
        return Ok(raw);
    }
    let ghost p = decoded(raw@);
    let img = decode(raw.as_slice());
    shrink(img, raw, max, Ghost(p))
}

/// Gets the file at `path` ready: as it is where downscaling is off, otherwise
/// decoded by the path's extension and downscaled where it is larger than
/// `max`.
pub fn prepare_file(raw: Vec<u8>, path: &str, enabled: bool, max: u32) -> (r: Result<
    Vec<u8>,
    ImageFailure,
>)
    ensures
        !enabled ==> prepared_view(r) == Prepared::Bytes(raw@),
        enabled ==> prepared_view(r) == downscaled(decoded_as(raw@, path@), raw@, max),
        enabled && max > 0 ==> (r matches Ok(bytes) ==> fits(
            bytes@,
            raw@,
            decoded_as(raw@, path@),
            max,
        )),
{
    if !enabled {
        return Ok(raw);
    }
    let ghost p = decoded_as(raw@, path@);
    let img = decode_as(raw.as_slice(), path);
    shrink(img, raw, max, Ghost(p))
}

// ---------------------------------------------------------------------------
// Laws

/// A file whose picture is within the limit stays as it is, byte for byte; a
/// larger picture is resized and encoded; what cannot be decoded or encoded is
/// reported as the decoder or the encoder does.
pub proof fn law_downscaled(p: Picture, problem: ProblemView, raw: Seq<u8>, max: u32)
    ensures
        p.width <= max && p.height <= max ==> downscaled(Ok(p), raw, max) == Prepared::Bytes(raw),
        p.width > max || p.height > max ==> {
            &&& png_of(resized(p, max)) matches Ok(bytes) ==> downscaled(Ok(p), raw, max)
                == Prepared::Bytes(bytes)
            &&& png_of(resized(p, max)) matches Err(e) ==> downscaled(Ok(p), raw, max)
                == Prepared::Unencodable(e)
        },
        downscaled(Err(problem), raw, max) == Prepared::Undecodable(problem),
{
}

/// A file is decoded in the format that its extension names; without one, or
/// with an empty one, in none.
pub proof fn law_decoded_as(bytes: Seq<u8>, path: Seq<char>)
    ensures
        path_extension(path) matches Some(ext) && ext.len() > 0 ==> {
            &&& path_format(path) matches Ok(format) ==> decoded_as(bytes, path) == decoded_with(
                bytes,
                format,
            )
            &&& path_format(path) matches Err(e) ==> decoded_as(bytes, path) == Err::<
                Picture,
                ProblemView,
            >(e)
        },
        !(path_extension(path) matches Some(ext) && ext.len() > 0) ==> (path_format(
            ""@,
        ) matches Err(e) ==> decoded_as(bytes, path) == Err::<Picture, ProblemView>(e)),
{
}

/// What a preparation gives is the bytes themselves, or what was wrong.
pub proof fn law_prepared_view(bytes: Vec<u8>, problem: Problem)
    ensures
        prepared_view(Ok(bytes)) == Prepared::Bytes(bytes@),
        prepared_view(Err(ImageFailure::Decode(problem))) == Prepared::Undecodable(problem@),
        prepared_view(Err(ImageFailure::Encode(problem))) == Prepared::Unencodable(problem@),
        problem@.message == problem.message@,
        problem@.chain == problem.chain@,
{
}

} // verus!
