use std::io::Cursor;

use img_hash::ImageHash;

/// A 64x64 image with a smooth vertical gradient.
fn gradient_image() -> image::DynamicImage {
    let buf = image::ImageBuffer::from_fn(64, 64, |_x, y| image::Luma([(y * 4) as u8]));
    image::DynamicImage::ImageLuma8(buf)
}

fn png_bytes(img: &image::DynamicImage) -> Vec<u8> {
    let mut bytes: Vec<u8> = Vec::new();
    img.write_to(&mut Cursor::new(&mut bytes), image::ImageFormat::Png)
        .unwrap();
    bytes
}

#[test]
fn determinism_on_identical_bytes() {
    let bytes = png_bytes(&gradient_image());
    let img1 = image::load_from_memory(&bytes).unwrap();
    let img2 = image::load_from_memory(&bytes).unwrap();
    let h1 = ImageHash::fast_hash(&img1, 8);
    let h2 = ImageHash::fast_hash(&img2, 8);
    assert_eq!(h1, h2);
    assert_eq!(h1.dist(&h2), 0);
}

#[test]
fn identity_distance_zero() {
    let img = gradient_image();
    let a = ImageHash::fast_hash(&img, 8);
    let b = ImageHash::fast_hash(&img, 8);
    assert_eq!(a.dist(&a), 0);
    assert_eq!(a.dist(&b), 0);
    assert_eq!(a, b);
}

#[test]
fn distance_is_symmetric_and_bounded() {
    let a = ImageHash::fast_hash(&gradient_image(), 8);
    let other = image::DynamicImage::ImageLuma8(image::ImageBuffer::from_fn(64, 64, |x, _y| {
        image::Luma([(x * 4) as u8])
    }));
    let b = ImageHash::fast_hash(&other, 8);
    let d_ab = a.dist(&b);
    let d_ba = b.dist(&a);
    assert_eq!(d_ab, d_ba);
    assert!(d_ab <= 64);
    let ratio = d_ab as f64 / a.size() as f64;
    assert!((0.0..=1.0).contains(&ratio));
}

#[test]
fn mismatched_sizes_never_compare() {
    let img = gradient_image();
    let small = ImageHash::fast_hash(&img, 8);
    let large = ImageHash::fast_hash(&img, 16);
    assert!(small.try_dist(&large).is_none());
    assert!(large.try_dist(&small).is_none());
}

#[test]
fn size_invariant_across_hash_sizes() {
    let img = gradient_image();
    for n in [1u32, 2, 8, 32, 64] {
        let h = ImageHash::fast_hash(&img, n);
        assert_eq!(h.size(), n * n);
        assert_eq!(h.bit_len(), (n * n) as usize);
        let wrapped = ImageHash::from_bits(n, vec![true; (n * n) as usize]);
        assert_eq!(wrapped.size(), n * n);
        assert_eq!(wrapped.bit_len(), (n * n) as usize);
    }
}

#[test]
fn fast_hash_of_half_bright_image() {
    // An 8x8 image whose top half is black and bottom half is white:
    // mean intensity is (32 * 255) / 64 = 127 (truncated), so exactly the
    // bright half reaches it. Resizing an 8x8 image to 8x8 changes nothing,
    // so the whole pipeline must reproduce this pattern bit for bit.
    let buf = image::ImageBuffer::from_fn(8, 8, |_x, y| {
        if y < 4 {
            image::Luma([0u8])
        } else {
            image::Luma([255u8])
        }
    });
    let img = image::DynamicImage::ImageLuma8(buf);
    let h = ImageHash::fast_hash(&img, 8);
    assert_eq!(h.bit_len(), 64);
    for i in 0..64 {
        assert_eq!(h.bit(i), i >= 32);
    }
}

#[test]
fn known_one_bit_distance() {
    let a = ImageHash::from_bits(1, vec![true]);
    let b = ImageHash::from_bits(1, vec![false]);
    assert_eq!(a.dist(&b), 1);
    assert_eq!(a.try_dist(&b), Some(1));
    assert_eq!(a.try_dist(&a), Some(0));
    assert_ne!(a, b);
}

#[test]
fn equality_cloning_and_map_keys() {
    let a = ImageHash::from_bits(2, vec![true, false, true, false]);
    let b = a.clone();
    assert_eq!(a, b);
    assert_eq!(a.dist(&b), 0);
    let c = ImageHash::from_bits(2, vec![true, false, true, true]);
    assert_ne!(a, c);
    assert_eq!(a.dist(&c), 1);
    let mut seen = std::collections::HashMap::new();
    seen.insert(a.clone(), "base");
    assert_eq!(seen.get(&b), Some(&"base"));
    assert_eq!(seen.get(&c), None);
}

#[test]
fn robustness_under_reencode_and_resize() {
    let base = gradient_image();
    let bytes = png_bytes(&base);
    let copy = image::load_from_memory(&bytes)
        .unwrap()
        .resize_exact(100, 100, image::imageops::FilterType::CatmullRom);
    let h_base = ImageHash::fast_hash(&base, 8);
    let h_copy = ImageHash::fast_hash(&copy, 8);
    let ratio = h_base.dist(&h_copy) as f64 / h_base.size() as f64;
    assert!(ratio < 0.10, "ratio was {ratio}");
}
