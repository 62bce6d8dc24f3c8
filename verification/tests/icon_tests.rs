use relay_curve_estimator::icon::{icon_from_decoded, load_app_icon};

#[test]
fn undecodable_bytes_give_no_icon() {
    assert!(load_app_icon(&[1, 2, 3, 4]).is_none());
    assert!(load_app_icon(&[]).is_none());
}

#[test]
fn png_icon_decodes_to_rgba() {
    let mut img = image::RgbaImage::new(2, 3);
    img.put_pixel(1, 2, image::Rgba([10, 20, 30, 255]));
    let mut bytes: Vec<u8> = Vec::new();
    image::DynamicImage::ImageRgba8(img)
        .write_to(&mut std::io::Cursor::new(&mut bytes), image::ImageFormat::Png)
        .unwrap();
    let icon = load_app_icon(&bytes).unwrap();
    assert_eq!((icon.width, icon.height), (2, 3));
    assert_eq!(icon.rgba.len(), 24);
    assert_eq!(&icon.rgba[20..24], &[10, 20, 30, 255]);
}

#[test]
fn decoded_image_passes_through_unchanged() {
    let icon = icon_from_decoded(Some((vec![1, 2, 3, 4, 5, 6, 7, 8], 2, 1))).unwrap();
    assert_eq!(icon.rgba, vec![1, 2, 3, 4, 5, 6, 7, 8]);
    assert_eq!((icon.width, icon.height), (2, 1));
    assert!(icon_from_decoded(None).is_none());
}
