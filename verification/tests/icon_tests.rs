use base64::Engine;
use dynamic_island::icon::{bgra_to_rgba, create_tray_icon, get_file_icon_data_url};

#[test]
fn tray_icon_matches_float_drawing() {
    let icon = create_tray_icon();
    assert_eq!(icon.len(), 32 * 32 * 4);
    let (size, center, radius) = (32u32, 16.0f64, 12.0f64);
    let mut expected = vec![0u8; (size * size * 4) as usize];
    for y in 0..size {
        for x in 0..size {
            let dist = ((x as f64 - center).powi(2) + (y as f64 - center).powi(2)).sqrt();
            let idx = ((y * size + x) * 4) as usize;
            if dist <= radius {
                let a = if dist > radius - 1.0 { ((radius - dist).max(0.0) * 255.0) as u8 } else { 255 };
                expected[idx] = 255;
                expected[idx + 1] = 255;
                expected[idx + 2] = 255;
                expected[idx + 3] = a;
            }
        }
    }
    assert_eq!(icon, expected);
}

#[test]
fn tray_icon_examples() {
    let icon = create_tray_icon();
    let px = |x: usize, y: usize| &icon[(y * 32 + x) * 4..(y * 32 + x) * 4 + 4];
    assert_eq!(px(16, 16), &[255, 255, 255, 255]);
    assert_eq!(px(0, 0), &[0, 0, 0, 0]);
    assert_eq!(px(28, 16), &[255, 255, 255, 0]);
    assert_eq!(px(27, 17), &[255, 255, 255, 243]);
}

#[test]
fn bgra_swapped_to_rgba_and_back() {
    let mut p = vec![0u8; 16384];
    for (i, b) in p.iter_mut().enumerate() {
        *b = (i * 7 % 251) as u8;
    }
    let r = bgra_to_rgba(&p);
    assert_eq!(&r[0..4], &[p[2], p[1], p[0], p[3]]);
    assert_eq!(&r[16380..16384], &[p[16382], p[16381], p[16380], p[16383]]);
    assert_eq!(bgra_to_rgba(&r), p);
}

#[test]
fn icon_data_url() {
    assert_eq!(get_file_icon_data_url(None), None);
    let url = get_file_icon_data_url(Some(vec![128u8; 16384])).unwrap();
    // "iVBORw0KGgo" is the Base64 of the PNG signature.
    assert!(url.starts_with("data:image/png;base64,iVBORw0KGgo"), "{}", url);
    assert!(url.len() > 40);
    let other = get_file_icon_data_url(Some(vec![0u8; 16384])).unwrap();
    assert_ne!(url, other);
    assert_eq!(url, get_file_icon_data_url(Some(vec![128u8; 16384])).unwrap());
}

#[test]
fn icon_data_url_is_base64_of_png() {
    let url = get_file_icon_data_url(Some(vec![7u8; 16384])).unwrap();
    let b64 = url.strip_prefix("data:image/png;base64,").unwrap();
    assert_eq!(b64.len() % 4, 0);
    let bytes = base64::engine::general_purpose::STANDARD.decode(b64).unwrap();
    assert_eq!(&bytes[0..8], &[137, 80, 78, 71, 13, 10, 26, 10]);
}
