use borderless_gaming::tasks::artwork::{
    alpha_bounds, check_icon_master, ico_container, IconMasterError, ICO_SIZES,
};
use borderless_gaming::tasks::icons::{encode_ico, encode_rgba_png, render_square_png, resample_square};
use borderless_gaming::tasks::{cargo_run_args, run, ACTION_FEATURES, APP_PACKAGE};

const GAMING_LED: [u8; 4] = [74, 222, 128, 255];

/// Paints a filled circle on an RGBA buffer. The color is opaque, so
/// compositing it over any pixel gives the color itself.
fn draw_circle(rgba: &mut [u8], side: u32, center: (i32, i32), radius: i32, color: [u8; 4]) {
    for y in 0..side as i32 {
        for x in 0..side as i32 {
            let dx = x - center.0;
            let dy = y - center.1;
            if dx * dx + dy * dy <= radius * radius {
                let index = 4 * (y as usize * side as usize + x as usize);
                rgba[index..index + 4].copy_from_slice(&color);
            }
        }
    }
}

fn read_u32(bytes: &[u8], offset: usize) -> u32 {
    u32::from_le_bytes(bytes[offset..offset + 4].try_into().unwrap())
}

#[test]
fn gui_run_uses_release_and_every_feature() {
    assert_eq!(
        cargo_run_args(false),
        [
            "run",
            "--release",
            "--package",
            APP_PACKAGE,
            "--bin",
            APP_PACKAGE,
            "--all-features",
        ]
    );
}

#[test]
fn no_gui_run_uses_release_and_every_action_feature() {
    assert_eq!(
        cargo_run_args(true),
        [
            "run",
            "--release",
            "--package",
            APP_PACKAGE,
            "--bin",
            APP_PACKAGE,
            "--no-default-features",
            "--features",
            ACTION_FEATURES,
        ]
    );
}

#[test]
fn app_run_uses_the_release_binary() {
    assert_eq!(
        run::cargo_run_args(),
        [
            "run",
            "--release",
            "--package",
            APP_PACKAGE,
            "--bin",
            APP_PACKAGE,
        ]
    );
}

#[test]
fn generated_ico_contains_every_configured_size() {
    let mut master = vec![0_u8; 4 * 512 * 512];
    draw_circle(&mut master, 512, (256, 256), 192, GAMING_LED);

    let ico = encode_ico(&master, 512).expect("ICO encoding should succeed");

    assert_eq!(&ico[0..6], &[0, 0, 1, 0, ICO_SIZES.len() as u8, 0]);
    for (index, size) in ICO_SIZES.iter().enumerate() {
        let entry = 6 + index * 16;
        let encoded_size = if *size == 256 { 0 } else { *size as u8 };
        assert_eq!(ico[entry], encoded_size);
        assert_eq!(ico[entry + 1], encoded_size);
    }
}

#[test]
fn icon_entries_point_at_their_png_payloads() {
    let mut master = vec![0_u8; 4 * 512 * 512];
    draw_circle(&mut master, 512, (256, 256), 192, GAMING_LED);
    let ico = encode_ico(&master, 512).unwrap();

    let mut expected_offset = 6 + 16 * ICO_SIZES.len() as u32;
    for (index, size) in ICO_SIZES.iter().enumerate() {
        let entry = 6 + index * 16;
        let length = read_u32(&ico, entry + 8);
        let offset = read_u32(&ico, entry + 12);
        assert_eq!(offset, expected_offset);
        let png = &ico[offset as usize..(offset + length) as usize];
        assert_eq!(&png[1..4], b"PNG");
        assert_eq!(png, render_square_png(&master, 512, *size).unwrap().as_slice());
        expected_offset += length;
    }
    assert_eq!(expected_offset as usize, ico.len());
}

#[test]
fn icon_container_layout_for_tiny_payloads() {
    let images = (0..9).map(|index| vec![index as u8; index + 1]).collect::<Vec<_>>();
    let ico = ico_container(&images);
    assert_eq!(ico.len(), 6 + 16 * 9 + 45);
    assert_eq!(&ico[6..22], &[16, 16, 0, 0, 1, 0, 32, 0, 1, 0, 0, 0, 150, 0, 0, 0]);
    let last = 6 + 16 * 8;
    assert_eq!(&ico[last..last + 16], &[0, 0, 0, 0, 1, 0, 32, 0, 9, 0, 0, 0, 186, 0, 0, 0]);
    assert_eq!(&ico[150..151], &[0]);
    assert_eq!(&ico[186..], &[8; 9]);
}

#[test]
fn alpha_bounds_pad_the_visible_artwork() {
    let (width, height) = (40_u32, 20_u32);
    let mut alpha = vec![0_u8; (width * height) as usize];
    alpha[(5 * width + 10) as usize] = 255;
    alpha[(12 * width + 30) as usize] = 9;
    // Export noise at or below the threshold is ignored.
    alpha[(19 * width + 39) as usize] = 8;

    assert_eq!(alpha_bounds(width, height, &alpha), Some((4, 0, 36, 18)));
}

#[test]
fn alpha_bounds_clamp_to_the_image_and_reject_invisible_images() {
    let mut alpha = vec![0_u8; 16];
    assert_eq!(alpha_bounds(4, 4, &alpha), None);
    alpha[15] = 200;
    assert_eq!(alpha_bounds(4, 4, &alpha), Some((0, 0, 3, 3)));
    assert_eq!(alpha_bounds(0, 0, &[]), None);
}

#[test]
fn icon_masters_must_be_large_square_and_transparent() {
    assert_eq!(
        check_icon_master(512, 256, &[0]),
        Err(IconMasterError::NotSquare { width: 512, height: 256 })
    );
    assert_eq!(
        check_icon_master(256, 256, &[0]),
        Err(IconMasterError::TooSmall { width: 256, height: 256 })
    );
    assert_eq!(
        check_icon_master(512, 512, &[255, 255]),
        Err(IconMasterError::NoTransparency)
    );
    assert_eq!(check_icon_master(512, 512, &[255, 254]), Ok(()));
}

#[test]
fn rendered_pngs_have_the_requested_size() {
    let mut master = vec![0_u8; 4 * 512 * 512];
    draw_circle(&mut master, 512, (256, 256), 192, GAMING_LED);
    for size in [16_u32, 48, 256] {
        let png = render_square_png(&master, 512, size).unwrap();
        assert_eq!(&png[0..8], &[0x89, b'P', b'N', b'G', 0x0d, 0x0a, 0x1a, 0x0a]);
        assert_eq!(&png[12..16], b"IHDR");
        assert_eq!(u32::from_be_bytes(png[16..20].try_into().unwrap()), size);
        assert_eq!(u32::from_be_bytes(png[20..24].try_into().unwrap()), size);
    }
}

#[test]
fn images_encode_as_png_at_their_size() {
    let pixels = vec![200_u8; 4 * 3 * 2];
    let png = encode_rgba_png(&pixels, 3, 2).unwrap();
    assert_eq!(u32::from_be_bytes(png[16..20].try_into().unwrap()), 3);
    assert_eq!(u32::from_be_bytes(png[20..24].try_into().unwrap()), 2);
    assert!(encode_rgba_png(&Vec::new(), 0, 0).is_err());
    assert!(encode_rgba_png(&Vec::new(), 0, 5).is_err());
    assert_eq!(resample_square(&vec![255_u8; 4 * 64 * 64], 64, 16).len(), 4 * 16 * 16);
}

#[test]
fn one_colour_masters_resample_to_that_colour() {
    let colour = [74_u8, 222, 128, 200];
    let master = colour.repeat(64 * 64);
    for size in [1_u32, 16, 48, 64, 100, 256] {
        let resized = resample_square(&master, 64, size);
        assert_eq!(resized.len(), 4 * (size * size) as usize);
        assert!(resized.chunks(4).all(|pixel| pixel == colour), "at size {size}");
    }
    assert!(resample_square(&master, 64, 0).is_empty());
}

#[test]
fn a_zero_size_icon_image_is_refused() {
    let master = vec![0_u8; 4 * 512 * 512];
    assert!(render_square_png(&master, 512, 0).is_err());
    assert!(render_square_png(&master, 512, 16).is_ok());
}
