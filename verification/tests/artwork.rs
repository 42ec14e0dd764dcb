use launchpad::artwork::{
    bgra_to_rgba, default_app_icon_rgba, default_folder_icon_rgba, default_group_icon_rgba,
    render, tray_icon_rgba, Artwork,
};

fn pixel(bytes: &[u8], side: usize, x: usize, y: usize) -> [u8; 4] {
    let i = (y * side + x) * 4;
    [bytes[i], bytes[i + 1], bytes[i + 2], bytes[i + 3]]
}

#[test]
fn image_sizes() {
    assert_eq!(default_app_icon_rgba().len(), 64 * 64 * 4);
    assert_eq!(default_group_icon_rgba().len(), 64 * 64 * 4);
    assert_eq!(default_folder_icon_rgba().len(), 64 * 64 * 4);
    assert_eq!(tray_icon_rgba().len(), 32 * 32 * 4);
    assert_eq!(render(Artwork::Tray), tray_icon_rgba());
}

#[test]
fn app_icon_pixels() {
    let img = default_app_icon_rgba();
    assert_eq!(pixel(&img, 64, 0, 0), [0, 0, 0, 0]);
    assert_eq!(pixel(&img, 64, 63, 63), [0, 0, 0, 0]);
    assert_eq!(pixel(&img, 64, 8, 0), [60, 60, 80, 255]);
    assert_eq!(pixel(&img, 64, 32, 32), [60, 60, 80, 255]);
    assert_eq!(pixel(&img, 64, 14, 14), [137, 180, 250, 255]);
    assert_eq!(pixel(&img, 64, 49, 30), [137, 180, 250, 255]);
    assert_eq!(pixel(&img, 64, 16, 16), [60, 60, 80, 255]);
    assert_eq!(pixel(&img, 64, 13, 14), [60, 60, 80, 255]);
}

#[test]
fn group_and_folder_icon_pixels() {
    let g = default_group_icon_rgba();
    assert_eq!(pixel(&g, 64, 10, 0), [255, 224, 130, 255]);
    assert_eq!(pixel(&g, 64, 0, 0), [0, 0, 0, 0]);
    assert_eq!(pixel(&g, 64, 30, 2), [0, 0, 0, 0]);
    assert_eq!(pixel(&g, 64, 30, 20), [242, 201, 76, 255]);
    assert_eq!(pixel(&g, 64, 63, 63), [0, 0, 0, 0]);
    let f = default_folder_icon_rgba();
    assert_eq!(pixel(&f, 64, 10, 5), [140, 210, 255, 255]);
    assert_eq!(pixel(&f, 64, 40, 40), [100, 180, 255, 255]);
}

#[test]
fn tray_icon_pixels() {
    let t = tray_icon_rgba();
    assert_eq!(pixel(&t, 32, 0, 0), [0, 0, 0, 0]);
    assert_eq!(pixel(&t, 32, 15, 5), [0x1F, 0x21, 0x27, 255]);
    assert_eq!(pixel(&t, 32, 9, 10), [0x80, 0x82, 0x88, 255]);
    assert_eq!(pixel(&t, 32, 24, 21), [0x80, 0x82, 0x88, 255]);
    assert_eq!(pixel(&t, 32, 25, 21), [0x1F, 0x21, 0x27, 255]);
    assert_eq!(pixel(&t, 32, 31, 31), [0, 0, 0, 0]);
}

#[test]
fn channel_swap() {
    let mut v = vec![1, 2, 3, 4, 5, 6, 7, 8, 9, 10];
    bgra_to_rgba(&mut v);
    assert_eq!(v, vec![3, 2, 1, 4, 7, 6, 5, 8, 9, 10]);
    bgra_to_rgba(&mut v);
    assert_eq!(v, vec![1, 2, 3, 4, 5, 6, 7, 8, 9, 10]);
    let mut e: Vec<u8> = vec![];
    bgra_to_rgba(&mut e);
    assert!(e.is_empty());
}
