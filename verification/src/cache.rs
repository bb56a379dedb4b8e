//! The cache of image previews.

use std::collections::hash_map::DefaultHasher;
use std::hash::{BuildHasher, BuildHasherDefault};
use vstd::prelude::*;
use image::codecs::jpeg::JpegEncoder;
use image::imageops::FilterType;
use image::{GenericImageView, ImageFormat, ImageReader, RgbImage};
use crate::config::{join_path, joined};
use crate::encoding::{base64_encode, base64_of};
use crate::loaders::estimator::{make_safe_component, safe_component};
use crate::text::{cat2, cat4};

verus! {

/// The largest file that a preview is made of.
pub const THUMBNAIL_MAX_SOURCE_BYTES: u64 = 16777216;

/// The longest side of a preview.
pub const THUMBNAIL_MAX_DIMENSION: u32 = 360;

/// The quality of a preview, in percent.
pub const THUMBNAIL_JPEG_QUALITY: u8 = 72;

#[derive(Debug)]
pub struct CacheManager {
    pub workdir: String,
}

#[derive(Debug)]
pub struct CachedThumbnail {
    pub media_type: String,
    pub data_base64: String,
    pub data_url: String,
    pub width: u32,
    pub height: u32,
    pub size_bytes: usize,
}

#[derive(Debug)]
pub struct ThumbnailMetadata {
    pub media_type: String,
    pub width: u32,
    pub height: u32,
    pub original_width: u32,
    pub original_height: u32,
}

#[derive(Debug)]
pub struct CachedImagePreview {
    pub original_width: u32,
    pub original_height: u32,
    pub thumbnail: CachedThumbnail,
}

// ---------------------------------------------------------------------------
// Pixels
// ---------------------------------------------------------------------------
/// An image that was scaled: its size before, its size after, and four bytes per pixel.
#[derive(Debug)]
pub struct ScaledImage {
    pub original_width: u32,
    pub original_height: u32,
    pub width: u32,
    pub height: u32,
    pub rgba: Vec<u8>,
}

pub struct ScaledView {
    pub original_width: u32,
    pub original_height: u32,
    pub width: u32,
    pub height: u32,
    pub rgba: Seq<u8>,
}

impl ScaledImage {
    pub open spec fn view(self) -> ScaledView {
        ScaledView {
            original_width: self.original_width,
            original_height: self.original_height,
            width: self.width,
            height: self.height,
            rgba: self.rgba@,
        }
    }
}

pub open spec fn opt_scaled(s: Option<ScaledImage>) -> Option<ScaledView> {
    match s {
        Some(s) => Some(s@),
        None => None,
    }
}

/// The image that bytes hold, in the format that the path names, scaled to fit a square.
pub uninterp spec fn scaled_image(bytes: Seq<u8>, path: Seq<char>, side: u32) -> Option<ScaledView>;

/// The JPEG file of an image with three bytes per pixel.
pub uninterp spec fn jpeg_file(rgb: Seq<u8>, width: u32, height: u32, quality: u8) -> Option<
    Seq<u8>,
>;

/// `image::ImageReader::decode` in the format of `ImageFormat::from_path`, then
/// `DynamicImage::resize` with the triangle filter and `to_rgba8`: none where the bytes
/// are no image of that format. The image fits within the square, and there are four bytes
/// for each pixel.
#[verifier::external_body]
fn decode_scaled(bytes: &[u8], path: &str, side: u32) -> (r: Option<ScaledImage>)
    requires
        side > 0,
    ensures
        opt_scaled(r) == scaled_image(bytes@, path@, side),
        r matches Some(s) ==> s.width <= side && s.height <= side && s.rgba@.len() == 4 * s.width
            * s.height,
{
    let format = ImageFormat::from_path(path).ok()?;
    let image = ImageReader::with_format(std::io::Cursor::new(bytes), format).decode().ok()?;
    let (original_width, original_height) = image.dimensions();
    let resized = image.resize(side, side, FilterType::Triangle).to_rgba8();
    let (width, height) = resized.dimensions();
    Some(ScaledImage { original_width, original_height, width, height, rgba: resized.into_raw() })
}

/// `image::codecs::jpeg::JpegEncoder::encode_image` on three bytes per pixel: none where
/// a side is zero or too long for the format.
#[verifier::external_body]
fn encode_jpeg(rgb: Vec<u8>, width: u32, height: u32, quality: u8) -> (r: Option<Vec<u8>>)
    requires
        rgb@.len() == 3 * width * height,
    ensures
        (match r {
            Some(file) => Some(file@),
            None => None,
        }) == jpeg_file(rgb@, width, height, quality),
{
    let image = RgbImage::from_raw(width, height, rgb)?;
    let mut encoded = std::io::Cursor::new(Vec::new());
    JpegEncoder::new_with_quality(&mut encoded, quality).encode_image(&image).ok()?;
    Some(encoded.into_inner())
}

/// A channel of a pixel over white.
pub open spec fn over_white(channel: u8, alpha: u8) -> u8 {
    ((channel * alpha + 255 * (255 - alpha)) / 255) as u8
}

proof fn lemma_over_white(channel: u8, alpha: u8)
    ensures
        0 <= channel * alpha + 255 * (255 - alpha) <= 65025,
        (channel * alpha + 255 * (255 - alpha)) / 255 <= 255,
{
    assert(0 <= channel * alpha + 255 * (255 - alpha) <= 65025) by (nonlinear_arith)
        requires
            0 <= channel <= 255,
            0 <= alpha <= 255,
    ;
}

pub fn blend(channel: u8, alpha: u8) -> (r: u8)
    ensures
        r == over_white(channel, alpha),
{
    proof {
        lemma_over_white(channel, alpha);
        assert(0 <= channel * alpha <= 65025) by (nonlinear_arith)
            requires
                0 <= channel <= 255,
                0 <= alpha <= 255,
        ;
    }
    ((channel as u32 * alpha as u32 + 255 * (255 - alpha as u32)) / 255) as u8
}

/// An opaque pixel keeps its colour, a transparent one is white, no channel gets darker, and
/// between the two the colour and white are mixed in the shares that the alpha gives them.
pub proof fn blending_is_over_white(channel: u8, alpha: u8)
    ensures
        over_white(channel, 255) == channel,
        over_white(channel, 0) == 255,
        over_white(channel, alpha) >= channel,
        255 * over_white(channel, alpha) <= channel * alpha + 255 * (255 - alpha),
        channel * alpha + 255 * (255 - alpha) < 255 * over_white(channel, alpha) + 255,
{
    lemma_over_white(channel, alpha);
    assert((channel * 255) / 255 == channel);
    assert(channel * alpha + 255 * (255 - alpha) >= 255 * channel) by (nonlinear_arith)
        requires
            0 <= channel <= 255,
            0 <= alpha <= 255,
    ;
}

/// Three bytes per pixel, over white, of four bytes per pixel.
pub open spec fn flattened(rgba: Seq<u8>, pixels: nat) -> Seq<u8>
    decreases pixels,
{
    if pixels == 0 {
        Seq::empty()
    } else {
        let i = 4 * (pixels - 1);
        flattened(rgba, (pixels - 1) as nat) + seq![
            over_white(rgba[i], rgba[i + 3]),
            over_white(rgba[i + 1], rgba[i + 3]),
            over_white(rgba[i + 2], rgba[i + 3]),
        ]
    }
}

/// Red, green and blue of every pixel stay in their places: the byte of a channel shows that
/// channel of that pixel over white, and an opaque pixel keeps all three.
pub proof fn flattened_channels_keep_their_places(rgba: Seq<u8>, pixels: nat, i: int, c: int)
    requires
        rgba.len() == 4 * pixels,
        0 <= i < pixels,
        0 <= c < 3,
    ensures
        flattened(rgba, pixels).len() == 3 * pixels,
        flattened(rgba, pixels)[3 * i + c] == over_white(rgba[4 * i + c], rgba[4 * i + 3]),
        rgba[4 * i + 3] == 255 ==> flattened(rgba, pixels)[3 * i + c] == rgba[4 * i + c],
        rgba[4 * i + 3] == 0 ==> flattened(rgba, pixels)[3 * i + c] == 255,
{
    blending_is_over_white(rgba[4 * i + c], rgba[4 * i + 3]);
    lemma_flattened(rgba, pixels, i, c);
}

proof fn lemma_flattened(rgba: Seq<u8>, pixels: nat, i: int, c: int)
    requires
        rgba.len() >= 4 * pixels,
        0 <= i < pixels,
        0 <= c < 3,
    ensures
        flattened(rgba, pixels).len() == 3 * pixels,
        flattened(rgba, pixels)[3 * i + c] == over_white(rgba[4 * i + c], rgba[4 * i + 3]),
    decreases pixels,
{
    let before = flattened(rgba, (pixels - 1) as nat);
    if pixels > 1 {
        lemma_flattened(rgba, (pixels - 1) as nat, 0, 0);
    } else {
        assert(flattened(rgba, 0).len() == 0);
    }
    if i < pixels - 1 {
        lemma_flattened(rgba, (pixels - 1) as nat, i, c);
        assert(flattened(rgba, pixels)[3 * i + c] == before[3 * i + c]);
    }
}

fn flatten(rgba: &Vec<u8>, pixels: usize) -> (r: Vec<u8>)
    requires
        rgba@.len() == 4 * pixels,
    ensures
        r@ == flattened(rgba@, pixels as nat),
        r@.len() == 3 * pixels,
        forall|i: int|
            0 <= i < pixels ==> r@[3 * i] == over_white(#[trigger] rgba@[4 * i], rgba@[4 * i + 3])
                && r@[3 * i + 1] == over_white(rgba@[4 * i + 1], rgba@[4 * i + 3]) && r@[3 * i + 2]
                == over_white(rgba@[4 * i + 2], rgba@[4 * i + 3]),
{
    let mut r: Vec<u8> = Vec::new();
    let total: usize = rgba.len();
    let mut i: usize = 0;
    while i < pixels
        invariant
            i <= pixels,
            total == rgba@.len(),
            rgba@.len() == 4 * pixels,
            r@ == flattened(rgba@, i as nat),
            r@.len() == 3 * i,
        decreases pixels - i,
    {
        let at: usize = 4 * i;
        let alpha: u8 = rgba[at + 3];
        let ghost before = r@;
        r.push(blend(rgba[at], alpha));
        r.push(blend(rgba[at + 1], alpha));
        r.push(blend(rgba[at + 2], alpha));
        assert(r@ =~= flattened(rgba@, (i + 1) as nat));
        i += 1;
    }
    proof {
        assert forall|i: int| 0 <= i < pixels implies r@[3 * i] == over_white(
            #[trigger] rgba@[4 * i],
            rgba@[4 * i + 3],
        ) && r@[3 * i + 1] == over_white(rgba@[4 * i + 1], rgba@[4 * i + 3]) && r@[3 * i + 2]
            == over_white(rgba@[4 * i + 2], rgba@[4 * i + 3]) by {
            flattened_channels_keep_their_places(rgba@, pixels as nat, i, 0);
            flattened_channels_keep_their_places(rgba@, pixels as nat, i, 1);
            flattened_channels_keep_their_places(rgba@, pixels as nat, i, 2);
        }
    }
    r
}

/// The preview of an image file and what is noted of it; none where the bytes are no
/// image or it cannot be written.
pub open spec fn preview_of(bytes: Seq<u8>, path: Seq<char>) -> Option<(Seq<u8>, ScaledView)> {
    match scaled_image(bytes, path, THUMBNAIL_MAX_DIMENSION) {
        Some(s) => match jpeg_file(
            flattened(s.rgba, (s.width * s.height) as nat),
            s.width,
            s.height,
            THUMBNAIL_JPEG_QUALITY,
        ) {
            Some(file) => Some((file, s)),
            None => None,
        },
        None => None,
    }
}

/// Writes the preview of a scaled image.
pub fn encode_preview(image: ScaledImage) -> (r: Option<(ThumbnailMetadata, Vec<u8>)>)
    requires
        image.rgba@.len() == 4 * image.width * image.height,
    ensures
        match (
            r,
            jpeg_file(
                flattened(image.rgba@, (image.width * image.height) as nat),
                image.width,
                image.height,
                THUMBNAIL_JPEG_QUALITY,
            ),
        ) {
            (Some((m, file)), Some(f)) => file@ == f && m.media_type@ == "image/jpeg"@ && m.width
                == image.width && m.height == image.height && m.original_width
                == image.original_width && m.original_height == image.original_height,
            (None, None) => true,
            _ => false,
        },
{
    let bytes: usize = image.rgba.len();
    let pixels: usize = bytes / 4;
    proof {
        assert(4 * image.width * image.height == 4 * (image.width * image.height))
            by (nonlinear_arith);
        assert(pixels == image.width * image.height);
        assert(3 * image.width * image.height == 3 * (image.width * image.height))
            by (nonlinear_arith);
    }
    let rgb: Vec<u8> = flatten(&image.rgba, pixels);
    match encode_jpeg(rgb, image.width, image.height, THUMBNAIL_JPEG_QUALITY) {
        Some(file) => Some(
            (
                ThumbnailMetadata {
                    media_type: "image/jpeg".to_owned(),
                    width: image.width,
                    height: image.height,
                    original_width: image.original_width,
                    original_height: image.original_height,
                },
                file,
            ),
        ),
        None => None,
    }
}

/// Makes the preview of an image file from its bytes; its path tells the format.
pub fn make_preview(bytes: &[u8], path: &str) -> (r: Option<(ThumbnailMetadata, Vec<u8>)>)
    ensures
        match (r, preview_of(bytes@, path@)) {
            (Some((m, file)), Some((f, s))) => file@ == f && m.media_type@ == "image/jpeg"@
                && m.width == s.width && m.height == s.height && m.original_width
                == s.original_width && m.original_height == s.original_height && m.width
                <= THUMBNAIL_MAX_DIMENSION && m.height <= THUMBNAIL_MAX_DIMENSION,
            (None, None) => true,
            _ => false,
        },
{
    match decode_scaled(bytes, path, THUMBNAIL_MAX_DIMENSION) {
        Some(image) => encode_preview(image),
        None => None,
    }
}

/// Whether a file is too large for a preview.
pub fn source_too_large(size: u64) -> (b: bool)
    ensures
        b == (size > THUMBNAIL_MAX_SOURCE_BYTES),
{
    size > THUMBNAIL_MAX_SOURCE_BYTES
}

// ---------------------------------------------------------------------------
// Previews
// ---------------------------------------------------------------------------
/// What is kept of a preview: the image file, and what is noted of it.
#[derive(Debug)]
pub struct StoredPreview {
    pub metadata: ThumbnailMetadata,
    pub bytes: Vec<u8>,
}

pub struct StoredView {
    pub media_type: Seq<char>,
    pub width: u32,
    pub height: u32,
    pub original_width: u32,
    pub original_height: u32,
    pub bytes: Seq<u8>,
}

/// A preview as it is shown.
pub struct PreviewView {
    pub original_width: u32,
    pub original_height: u32,
    pub media_type: Seq<char>,
    pub data_base64: Seq<char>,
    pub data_url: Seq<char>,
    pub width: u32,
    pub height: u32,
    pub size_bytes: nat,
}

pub open spec fn stored_view(m: ThumbnailMetadata, bytes: Seq<u8>) -> StoredView {
    StoredView {
        media_type: m.media_type@,
        width: m.width,
        height: m.height,
        original_width: m.original_width,
        original_height: m.original_height,
        bytes,
    }
}

impl StoredPreview {
    pub open spec fn view(self) -> StoredView {
        stored_view(self.metadata, self.bytes@)
    }
}

impl CachedImagePreview {
    pub open spec fn view(self) -> PreviewView {
        PreviewView {
            original_width: self.original_width,
            original_height: self.original_height,
            media_type: self.thumbnail.media_type@,
            data_base64: self.thumbnail.data_base64@,
            data_url: self.thumbnail.data_url@,
            width: self.thumbnail.width,
            height: self.thumbnail.height,
            size_bytes: self.thumbnail.size_bytes as nat,
        }
    }
}

/// How a stored preview is shown.
pub open spec fn shown_preview(s: StoredView) -> PreviewView {
    PreviewView {
        original_width: s.original_width,
        original_height: s.original_height,
        media_type: s.media_type,
        data_base64: base64_of(s.bytes),
        data_url: "data:"@ + s.media_type + ";base64,"@ + base64_of(s.bytes),
        width: s.width,
        height: s.height,
        size_bytes: s.bytes.len(),
    }
}

pub fn cached_preview_from_parts(metadata: &ThumbnailMetadata, bytes: &Vec<u8>) -> (r:
    CachedImagePreview)
    ensures
        r@ == shown_preview(stored_view(*metadata, bytes@)),
{
    let data_base64: String = base64_encode(bytes.as_slice());
    let data_url: String = cat4(
        "data:",
        metadata.media_type.as_str(),
        ";base64,",
        data_base64.as_str(),
    );
    CachedImagePreview {
        original_width: metadata.original_width,
        original_height: metadata.original_height,
        thumbnail: CachedThumbnail {
            media_type: metadata.media_type.clone(),
            data_base64,
            data_url,
            width: metadata.width,
            height: metadata.height,
            size_bytes: bytes.len(),
        },
    }
}

/// The preview that is made of a file: none where the file is missing, is too large or
/// holds no image.
pub open spec fn made_preview(source: Option<Seq<u8>>, path: Seq<char>) -> Option<StoredView> {
    match source {
        Some(bytes) => if bytes.len() > THUMBNAIL_MAX_SOURCE_BYTES {
            None
        } else {
            match preview_of(bytes, path) {
                Some((file, s)) => Some(
                    StoredView {
                        media_type: "image/jpeg"@,
                        width: s.width,
                        height: s.height,
                        original_width: s.original_width,
                        original_height: s.original_height,
                        bytes: file,
                    },
                ),
                None => None,
            }
        },
        None => None,
    }
}

/// What is stored: a preview that was made, and only where none was stored before.
pub open spec fn to_store(
    cached: Option<StoredView>,
    source: Option<Seq<u8>>,
    path: Seq<char>,
) -> Option<StoredView> {
    match cached {
        Some(_) => None,
        None => made_preview(source, path),
    }
}

/// The preview that is shown: the stored one, else the one that is made.
pub open spec fn looked_up(
    cached: Option<StoredView>,
    source: Option<Seq<u8>>,
    path: Seq<char>,
) -> Option<PreviewView> {
    match cached {
        Some(s) => Some(shown_preview(s)),
        None => match made_preview(source, path) {
            Some(s) => Some(shown_preview(s)),
            None => None,
        },
    }
}

/// The outcome of asking for a preview: the preview, and what is to be stored.
#[derive(Debug)]
pub struct PreviewOutcome {
    pub preview: Option<CachedImagePreview>,
    pub store: Option<StoredPreview>,
}

pub open spec fn opt_stored(s: Option<StoredPreview>) -> Option<StoredView> {
    match s {
        Some(s) => Some(s@),
        None => None,
    }
}

pub open spec fn opt_preview(p: Option<CachedImagePreview>) -> Option<PreviewView> {
    match p {
        Some(p) => Some(p@),
        None => None,
    }
}

pub open spec fn opt_bytes(b: Option<&[u8]>) -> Option<Seq<u8>> {
    match b {
        Some(b) => Some(b@),
        None => None,
    }
}

/// A preview that was stored is shown again, the same, whatever became of the file since
/// then, and is not made anew.
pub proof fn stored_preview_is_shown_again(
    source: Option<Seq<u8>>,
    later: Option<Seq<u8>>,
    path: Seq<char>,
)
    requires
        to_store(None, source, path) is Some,
    ensures
        looked_up(to_store(None, source, path), later, path) == looked_up(None, source, path),
        looked_up(None, source, path) is Some,
        to_store(to_store(None, source, path), later, path) is None,
{
}

/// A preview shows the image that the file holds, scaled to fit a square of 360 pixels and
/// laid over white, as a JPEG file of quality 72 and of its own size. The sizes of the image
/// and of the preview are told apart.
pub proof fn preview_shows_the_scaled_image(
    source: Seq<u8>,
    path: Seq<char>,
    s: ScaledView,
    rgb: Seq<u8>,
)
    requires
        source.len() <= 16 * 1024 * 1024,
        scaled_image(source, path, 360) == Some(s),
        s.rgba.len() == 4 * (s.width * s.height),
        rgb.len() == 3 * (s.width * s.height),
        forall|i: int, c: int|
            0 <= i < s.width * s.height && 0 <= c < 3 ==> #[trigger] rgb[3 * i + c] == over_white(
                s.rgba[4 * i + c],
                s.rgba[4 * i + 3],
            ),
    ensures
        match (made_preview(Some(source), path), jpeg_file(rgb, s.width, s.height, 72)) {
            (Some(p), Some(file)) => {
                &&& p.bytes == file
                &&& p.media_type == "image/jpeg"@
                &&& p.width == s.width && p.height == s.height
                &&& p.original_width == s.original_width
                &&& p.original_height == s.original_height
            },
            (None, None) => true,
            _ => false,
        },
{
    let n = (s.width * s.height) as nat;
    assert(n >= 0) by (nonlinear_arith)
        requires
            n == s.width * s.height,
    ;
    let f = flattened(s.rgba, n);
    lemma_flattened_len(s.rgba, n);
    assert forall|k: int| 0 <= k < rgb.len() implies #[trigger] rgb[k] == f[k] by {
        let i = k / 3;
        let c = k % 3;
        assert(k == 3 * i + c);
        assert(rgb[3 * i + c] == over_white(s.rgba[4 * i + c], s.rgba[4 * i + 3]));
        flattened_channels_keep_their_places(s.rgba, n, i, c);
    }
    assert(rgb =~= f);
}

proof fn lemma_flattened_len(rgba: Seq<u8>, pixels: nat)
    ensures
        flattened(rgba, pixels).len() == 3 * pixels,
    decreases pixels,
{
    if pixels > 0 {
        lemma_flattened_len(rgba, (pixels - 1) as nat);
    }
}

/// No preview is made of a file of more than sixteen mebibytes or of one that is missing, and
/// none of bytes that hold no image.
pub proof fn no_preview_without_a_small_image(source: Option<Seq<u8>>, path: Seq<char>)
    requires
        match source {
            Some(bytes) => bytes.len() > 16 * 1024 * 1024 || scaled_image(bytes, path, 360) is None,
            None => true,
        },
    ensures
        looked_up(None, source, path) is None,
        to_store(None, source, path) is None,
{
}

/// A preview is shown with the bytes that are kept of it, once alone and once behind their
/// media type.
pub proof fn shown_preview_carries_its_bytes(s: StoredView)
    ensures
        shown_preview(s).data_base64 == base64_of(s.bytes),
        shown_preview(s).data_url == "data:"@ + s.media_type + ";base64,"@ + base64_of(s.bytes),
        shown_preview(s).size_bytes == s.bytes.len(),
        shown_preview(s).media_type == s.media_type,
        shown_preview(s).width == s.width,
        shown_preview(s).height == s.height,
        shown_preview(s).original_width == s.original_width,
        shown_preview(s).original_height == s.original_height,
{
}

// ---------------------------------------------------------------------------
// Places
// ---------------------------------------------------------------------------
/// The hash of two texts.
pub uninterp spec fn hash_of(first: Seq<char>, second: Seq<char>) -> u64;

/// `std::hash::BuildHasher::hash_one` of a pair of texts with `DefaultHasher`. All hashers
/// that `DefaultHasher::default` makes are the same, so the hash depends on the two texts
/// alone.
#[verifier::external_body]
fn hash_texts(first: &str, second: &str) -> (r: u64)
    ensures
        r == hash_of(first@, second@),
{
    BuildHasherDefault::<DefaultHasher>::default().hash_one((first, second))
}

pub open spec fn small_hex_digit(n: int) -> char {
    if n < 10 {
        (0x30 + n) as char
    } else {
        (0x61 + n - 10) as char
    }
}

/// A number in `k` hexadecimal digits.
pub open spec fn hex_text(n: nat, k: nat) -> Seq<char>
    decreases k,
{
    if k == 0 {
        Seq::empty()
    } else {
        hex_text(n / 16, (k - 1) as nat).push(small_hex_digit((n % 16) as int))
    }
}

fn push_hex(r: &mut String, n: u64, k: usize)
    requires
        k <= 16,
    ensures
        final(r)@ == old(r)@ + hex_text(n as nat, k as nat),
    decreases k,
{
    if k > 0 {
        push_hex(r, n / 16, k - 1);
        let d: u8 = (n % 16) as u8;
        let c: char = if d < 10 {
            (0x30 + d) as char
        } else {
            (0x61 + (d - 10)) as char
        };
        r.push(c);
        assert(r@ =~= old(r)@ + hex_text(n as nat, k as nat));
    } else {
        assert(r@ =~= old(r)@ + Seq::<char>::empty());
    }
}

/// A number in sixteen hexadecimal digits.
pub fn hex16(n: u64) -> (r: String)
    ensures
        r@ == hex_text(n as nat, 16),
{
    let mut r: String = String::new();
    push_hex(&mut r, n, 16);
    assert(r@ =~= hex_text(n as nat, 16));
    r
}

/// The name under which the preview of a file is kept: the digits of a hash of its path.
pub open spec fn cache_key(path: Seq<char>) -> Seq<char> {
    hex_text(hash_of("web-thumbnail-v1"@, path) as nat, 16)
}

pub fn thumbnail_cache_key(path: &str) -> (r: String)
    ensures
        r@ == cache_key(path@),
{
    hex16(hash_texts("web-thumbnail-v1", path))
}

/// The directory of the previews of a conversation.
pub open spec fn thumbnail_place(workdir: Seq<char>, conversation_id: Seq<char>) -> Seq<char> {
    joined(
        joined(
            joined(joined(joined(workdir, "rundir"@), "cache"@), "conversations"@),
            safe_component(conversation_id),
        ),
        "thumbnails"@,
    )
}

/// The files of the preview of a file in a conversation: the image, and what is noted of it.
pub open spec fn preview_files(
    workdir: Seq<char>,
    conversation_id: Seq<char>,
    source_path: Seq<char>,
) -> (Seq<char>, Seq<char>) {
    let dir = thumbnail_place(workdir, conversation_id);
    let key = cache_key(source_path);
    (joined(dir, key + ".jpg"@), joined(dir, key + ".json"@))
}

impl CacheManager {
    pub fn new(workdir: &str) -> (r: Self)
        ensures
            r.workdir@ == workdir@,
    {
        CacheManager { workdir: workdir.to_owned() }
    }

    /// The directory that holds the caches of all conversations.
    pub fn layout_root(&self) -> (r: String)
        ensures
            r@ == joined(joined(joined(self.workdir@, "rundir"@), "cache"@), "conversations"@),
    {
        let a: String = join_path(self.workdir.as_str(), "rundir");
        let b: String = join_path(a.as_str(), "cache");
        join_path(b.as_str(), "conversations")
    }

    pub fn thumbnail_dir(&self, conversation_id: &str) -> (r: String)
        ensures
            r@ == thumbnail_place(self.workdir@, conversation_id@),
    {
        let root: String = self.layout_root();
        let own: String = make_safe_component(conversation_id);
        let dir: String = join_path(root.as_str(), own.as_str());
        join_path(dir.as_str(), "thumbnails")
    }

    /// The files of the preview of a file: the image, and what is noted of it.
    pub fn thumbnail_files(&self, conversation_id: &str, source_path: &str) -> (r: (String, String))
        ensures
            (r.0@, r.1@) == preview_files(self.workdir@, conversation_id@, source_path@),
    {
        let key: String = thumbnail_cache_key(source_path);
        let dir: String = self.thumbnail_dir(conversation_id);
        let image: String = cat2(key.as_str(), ".jpg");
        let metadata: String = cat2(key.as_str(), ".json");
        (join_path(dir.as_str(), image.as_str()), join_path(dir.as_str(), metadata.as_str()))
    }

    /// The preview of an image. `cached` is what the files of the preview hold, and `source`
    /// is the image file, which matters only where they hold none.
    pub fn image_thumbnail(
        &self,
        source_path: &str,
        cached: Option<StoredPreview>,
        source: Option<&[u8]>,
    ) -> (r: PreviewOutcome)
        ensures
            opt_preview(r.preview) == looked_up(
                opt_stored(cached),
                opt_bytes(source),
                source_path@,
            ),
            opt_stored(r.store) == to_store(opt_stored(cached), opt_bytes(source), source_path@),
            cached is None ==> (r.preview matches Some(p) ==> p.thumbnail.width
                <= THUMBNAIL_MAX_DIMENSION && p.thumbnail.height <= THUMBNAIL_MAX_DIMENSION),
    {
        if let Some(stored) = cached {
            let preview: CachedImagePreview = cached_preview_from_parts(
                &stored.metadata,
                &stored.bytes,
            );
            return PreviewOutcome { preview: Some(preview), store: None };
        }
        match source {
            Some(bytes) => {
                if source_too_large(bytes.len() as u64) {
                    return PreviewOutcome { preview: None, store: None };
                }
                match make_preview(bytes, source_path) {
                    Some((metadata, file)) => {
                        let preview: CachedImagePreview = cached_preview_from_parts(
                            &metadata,
                            &file,
                        );
                        PreviewOutcome {
                            preview: Some(preview),
                            store: Some(StoredPreview { metadata, bytes: file }),
                        }
                    },
                    None => PreviewOutcome { preview: None, store: None },
                }
            },
            None => PreviewOutcome { preview: None, store: None },
        }
    }
}

} // verus!
