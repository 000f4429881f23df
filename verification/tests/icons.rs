use satisfactory_map::icons::{icon_from_decoded, load_icon};

const TWO_PIXEL_PNG: [u8; 71] = [
    137, 80, 78, 71, 13, 10, 26, 10, 0, 0, 0, 13, 73, 72, 68, 82, 0, 0, 0, 1, 0, 0, 0, 2, 8, 6, 0,
    0, 0, 153, 129, 182, 39, 0, 0, 0, 14, 73, 68, 65, 84, 120, 156, 99, 248, 207, 192, 0, 70, 13,
    0, 18, 120, 3, 126, 34, 81, 0, 168, 0, 0, 0, 0, 73, 69, 78, 68, 174, 66, 96, 130,
];

#[test]
fn decodes_png_to_rgba() {
    let icon = load_icon(&TWO_PIXEL_PNG).expect("valid image");
    assert_eq!(icon.width, 1);
    assert_eq!(icon.height, 2);
    assert_eq!(icon.pixels, vec![255, 0, 0, 255, 0, 255, 0, 128]);
}

#[test]
fn refuses_garbage() {
    assert!(load_icon(&[1, 2, 3, 4, 5]).is_none());
    assert!(load_icon(&[]).is_none());
}

#[test]
fn icon_needs_four_bytes_per_pixel() {
    assert!(icon_from_decoded(2, 1, vec![0; 8]).is_some());
    assert!(icon_from_decoded(2, 1, vec![0; 7]).is_none());
    let icon = icon_from_decoded(1, 1, vec![1, 2, 3, 4, 5, 6]).expect("enough bytes");
    assert_eq!(icon.pixels, vec![1, 2, 3, 4]);
    assert_eq!((icon.width, icon.height), (1, 1));
    assert!(icon_from_decoded(0, 5, vec![]).is_some());
    assert!(icon_from_decoded(u32::MAX, u32::MAX, vec![0; 4]).is_none());
}
