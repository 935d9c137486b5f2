use fetch_mcp::image::{
    categorize_image_size, detect_image_format, get_image_dimensions, get_image_orientation,
    ImageError,
};

// 1920x1080 is 2,073,600 pixels, above the 2,000,000 bound of "medium", and 4000x3000 is
// 12,000,000 pixels, above the 8,000,000 bound of "large".
#[test]
fn test_categorize_image_size() {
    assert_eq!(categorize_image_size(100, 100), "thumbnail");
    assert_eq!(categorize_image_size(800, 600), "small");
    assert_eq!(categorize_image_size(1600, 1200), "medium");
    assert_eq!(categorize_image_size(1920, 1080), "large");
    assert_eq!(categorize_image_size(4000, 3000), "very_large");
}

#[test]
fn image_size_bounds() {
    assert_eq!(categorize_image_size(1000, 100), "thumbnail");
    assert_eq!(categorize_image_size(100_001, 1), "small");
    assert_eq!(categorize_image_size(4000, 5000), "very_large");
    assert_eq!(categorize_image_size(u32::MAX, u32::MAX), "ultra_high_res");
}

#[test]
fn test_image_orientation() {
    assert_eq!(get_image_orientation(1920, 1080), "landscape");
    assert_eq!(get_image_orientation(1080, 1920), "portrait");
    assert_eq!(get_image_orientation(1000, 1000), "square");
}

fn red_png(width: u32, height: u32) -> Vec<u8> {
    let img = image::RgbImage::from_pixel(width, height, image::Rgb([255, 0, 0]));
    let mut bytes: Vec<u8> = Vec::new();
    img.write_to(&mut std::io::Cursor::new(&mut bytes), image::ImageFormat::Png).unwrap();
    bytes
}

#[test]
fn image_format_and_dimensions() {
    let bytes = red_png(10, 7);
    assert_eq!(detect_image_format(&bytes).unwrap(), "Png");
    assert_eq!(get_image_dimensions(&bytes).unwrap(), (10, 7));
    let (w, h) = get_image_dimensions(&bytes).unwrap();
    assert_eq!(get_image_orientation(w, h), "landscape");
    assert_eq!(categorize_image_size(w, h), "thumbnail");
}

#[test]
fn unknown_image_bytes() {
    assert_eq!(detect_image_format(b"not an image"), Err(ImageError::UnknownFormat));
    assert_eq!(get_image_dimensions(b"not an image"), Err(ImageError::Unreadable));
}
