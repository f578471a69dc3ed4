use crabcrop::model::params::{FitMode, ImageFormat, ImageParams};
use crabcrop::utils::hash::cache_key;

fn sample_params() -> ImageParams {
    ImageParams {
        url: "https://example.com/photo.jpg".to_string(),
        width: Some(800),
        height: Some(600),
        format: ImageFormat::Webp,
        quality: 85,
        fit: FitMode::Cover,
    }
}

#[test]
fn same_params_produce_same_key() {
    let k1 = cache_key(&sample_params());
    let k2 = cache_key(&sample_params());
    assert_eq!(k1, k2);
}

#[test]
fn different_format_produces_different_key() {
    let mut p = sample_params();
    let k1 = cache_key(&p);
    p.format = ImageFormat::Jpeg;
    let k2 = cache_key(&p);
    assert_ne!(k1, k2);
}

#[test]
fn different_quality_produces_different_key() {
    let mut p = sample_params();
    let k1 = cache_key(&p);
    p.quality = 60;
    let k2 = cache_key(&p);
    assert_ne!(k1, k2);
}

#[test]
fn key_is_64_hex_chars() {
    let k = cache_key(&sample_params());
    assert_eq!(k.len(), 64);
    assert!(k.chars().all(|c| c.is_ascii_hexdigit()));
}

#[test]
fn key_is_blake3_of_the_key_text() {
    let k = cache_key(&sample_params());
    let expected = blake3::hash(b"https://example.com/photo.jpg|w:800|h:600|fmt:webp|q:85|fit:cover");
    assert_eq!(k, expected.to_hex().to_string());
}

#[test]
fn absent_sizes_are_written_empty() {
    let mut p = sample_params();
    p.width = None;
    p.height = None;
    p.format = ImageFormat::Png;
    p.fit = FitMode::Fill;
    p.quality = 7;
    let expected = blake3::hash(b"https://example.com/photo.jpg|w:|h:|fmt:png|q:7|fit:fill");
    assert_eq!(cache_key(&p), expected.to_hex().to_string());
}

#[test]
fn different_fit_or_size_produces_different_key() {
    let p = sample_params();
    let mut q = sample_params();
    q.fit = FitMode::Contain;
    assert_ne!(cache_key(&p), cache_key(&q));
    let mut r = sample_params();
    r.width = None;
    assert_ne!(cache_key(&p), cache_key(&r));
}
