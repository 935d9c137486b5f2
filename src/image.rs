use vstd::prelude::*;

verus! {

/// Why image bytes could not be read.
#[derive(Debug, Clone, Copy, PartialEq, Eq)]
pub enum ImageError {
    /// The format of the bytes is not recognized.
    UnknownFormat,
    /// The dimensions could not be read.
    Unreadable,
}

/// The name (`Debug` form) of the format that `image::guess_format` finds in `bytes`; `None`
/// where it finds none.
pub uninterp spec fn guessed_format(bytes: Seq<u8>) -> Option<Seq<char>>;

/// Relies on `image::guess_format`, naming the format by its `Debug` form.
#[verifier::external_body]
fn guess_format_name(bytes: &[u8]) -> (r: Option<String>)
    ensures
        crate::urls::opt_view(r) == guessed_format(bytes@),
{
    image::guess_format(bytes).ok().map(|f| format!("{:?}", f))
}

/// The width and height that `image::ImageReader` reads from the header of `bytes` after
/// guessing the format; `None` where it cannot.
pub uninterp spec fn header_dimensions(bytes: Seq<u8>) -> Option<(u32, u32)>;

/// Relies on `image::ImageReader::new`, `ImageReader::with_guessed_format` and
/// `ImageReader::into_dimensions`.
#[verifier::external_body]
fn read_dimensions(bytes: &[u8]) -> (r: Option<(u32, u32)>)
    ensures
        r == header_dimensions(bytes@),
{
    let reader = image::ImageReader::new(std::io::Cursor::new(bytes)).with_guessed_format().ok()?;
    reader.into_dimensions().ok()
}

/// The size class of an image of `pixels` pixels.
pub open spec fn size_category(pixels: int) -> Seq<char> {
    if pixels <= 100_000 {
        "thumbnail"@
    } else if pixels <= 500_000 {
        "small"@
    } else if pixels <= 2_000_000 {
        "medium"@
    } else if pixels <= 8_000_000 {
        "large"@
    } else if pixels <= 20_000_000 {
        "very_large"@
    } else {
        "ultra_high_res"@
    }
}

/// Classifies an image by its pixel count: up to 0.1 MP a thumbnail, then small (0.5 MP),
/// medium (2 MP), large (8 MP), very large (20 MP), and beyond that ultra high resolution.
pub fn categorize_image_size(width: u32, height: u32) -> (r: &'static str)
    ensures
        r@ == size_category(width * height),
{
    proof {
        assert((width as int) * (height as int) <= 0xffff_ffffint * 0xffff_ffffint) by (nonlinear_arith)
            requires
                width <= 0xffff_ffffint,
                height <= 0xffff_ffffint,
        ;
    }
    let pixels: u64 = (width as u64) * (height as u64);
    if pixels <= 100_000 {
        "thumbnail"
    } else if pixels <= 500_000 {
        "small"
    } else if pixels <= 2_000_000 {
        "medium"
    } else if pixels <= 8_000_000 {
        "large"
    } else if pixels <= 20_000_000 {
        "very_large"
    } else {
        "ultra_high_res"
    }
}

/// The orientation of a `width` by `height` image.
pub open spec fn orientation(width: u32, height: u32) -> Seq<char> {
    if width > height {
        "landscape"@
    } else if height > width {
        "portrait"@
    } else {
        "square"@
    }
}

/// Whether an image is landscape, portrait or square.
pub fn get_image_orientation(width: u32, height: u32) -> (r: &'static str)
    ensures
        r@ == orientation(width, height),
{
    if width > height {
        "landscape"
    } else if height > width {
        "portrait"
    } else {
        "square"
    }
}

/// The format of image bytes (PNG, JPEG, GIF, WebP, ...), from their first bytes.
pub fn detect_image_format(image_bytes: &[u8]) -> (r: Result<String, ImageError>)
    ensures
        match guessed_format(image_bytes@) {
            Some(name) => r matches Ok(v) && v@ == name,
            None => r == Err::<String, ImageError>(ImageError::UnknownFormat),
        },
{
    match guess_format_name(image_bytes) {
        Some(name) => Ok(name),
        None => Err(ImageError::UnknownFormat),
    }
}

/// The width and height of an image, read from its header without decoding it.
pub fn get_image_dimensions(image_bytes: &[u8]) -> (r: Result<(u32, u32), ImageError>)
    ensures
        match header_dimensions(image_bytes@) {
            Some(d) => r == Ok::<(u32, u32), ImageError>(d),
            None => r == Err::<(u32, u32), ImageError>(ImageError::Unreadable),
        },
{
    match read_dimensions(image_bytes) {
        Some(d) => Ok(d),
        None => Err(ImageError::Unreadable),
    }
}

} // verus!
