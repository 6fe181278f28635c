use grebe::icon::{icon_rgba, IconPixels};

#[test]
fn bgra_to_rgba() {
    let icon = IconPixels { width: 2, height: 1, bgra_bytes: vec![1, 2, 3, 4, 5, 6, 7, 8] };
    assert_eq!(icon.rgba_bytes(), vec![3, 2, 1, 4, 7, 6, 5, 8]);
}

#[test]
fn trailing_bytes_stay() {
    let icon = IconPixels { width: 1, height: 1, bgra_bytes: vec![10, 20, 30, 40, 50, 60, 70] };
    assert_eq!(icon.rgba_bytes(), vec![30, 20, 10, 40, 50, 60, 70]);
    let empty = IconPixels { width: 0, height: 0, bgra_bytes: vec![] };
    assert!(empty.rgba_bytes().is_empty());
}

#[test]
fn swapping_twice_restores() {
    let bytes: Vec<u8> = (0u8..23).collect();
    let once = IconPixels { width: 0, height: 0, bgra_bytes: bytes.clone() }.rgba_bytes();
    let twice = IconPixels { width: 0, height: 0, bgra_bytes: once.clone() }.rgba_bytes();
    assert_ne!(once, bytes);
    assert_eq!(twice, bytes);
}

fn png_bytes(width: u32, height: u32, pixels: Vec<u8>) -> Vec<u8> {
    let img = image::RgbaImage::from_raw(width, height, pixels).unwrap();
    let mut out = std::io::Cursor::new(Vec::new());
    img.write_to(&mut out, image::ImageFormat::Png).unwrap();
    out.into_inner()
}

#[test]
fn decodes_png_icon() {
    let pixels = vec![255, 0, 0, 255, 0, 255, 0, 128, 0, 0, 255, 0, 9, 8, 7, 6];
    let png = png_bytes(2, 2, pixels.clone());
    let icon = icon_rgba(&png).unwrap();
    assert_eq!(icon.width, 2);
    assert_eq!(icon.height, 2);
    assert_eq!(icon.rgba, pixels);
    assert_ne!(icon.rgba, png);
}

#[test]
fn rejects_non_image() {
    assert!(icon_rgba(b"not an image at all").is_none());
    assert!(icon_rgba(&[]).is_none());
}
