use crabcrop::service::cache::{disk_prefix, VariantIndex, MEMORY_CACHE_CAPACITY, MEMORY_CACHE_TTL_SECS};
use crabcrop::service::dedup::{waiter_failure, InFlight};
use crabcrop::service::processor::{centre_crop, encode_settings, resize_target, CropBox, EncodeSettings};
use crabcrop::model::params::{FitMode, ImageFormat, ImageParams};
use crabcrop::storage::s3::{check_upstream_response, parse_s3_url, source_kind, SourceKind};

fn params(width: Option<u32>, height: Option<u32>, format: ImageFormat, quality: u8) -> ImageParams {
    ImageParams { url: "https://x/y".to_string(), width, height, format, quality, fit: FitMode::Cover }
}

#[test]
fn in_flight_table_tracks_one_job_per_key() {
    let mut t: InFlight<u32> = InFlight::new();
    assert_eq!(t.waiting_on("k"), None);
    t.register("k", 1);
    assert_eq!(t.waiting_on("k"), Some(&1));
    assert_eq!(t.waiting_on("j"), None);
    t.register("j", 2);
    t.register("k", 3);
    assert_eq!(t.waiting_on("k"), Some(&3));
    assert_eq!(t.finish("k"), Some(3));
    assert_eq!(t.waiting_on("k"), None);
    assert_eq!(t.finish("k"), None);
    assert_eq!(t.waiting_on("j"), Some(&2));
}

#[test]
fn waiter_failure_texts() {
    assert_eq!(waiter_failure(Some("boom".to_string())), "dedup: upstream error: boom");
    assert_eq!(waiter_failure(None), "dedup: in-flight sender dropped");
}

#[test]
fn disk_prefix_is_two_bytes() {
    assert_eq!(disk_prefix("abcdef"), "ab");
    assert_eq!(disk_prefix("a"), "a");
    assert_eq!(disk_prefix(""), "");
    assert_eq!(MEMORY_CACHE_CAPACITY, 1024);
    assert_eq!(MEMORY_CACHE_TTL_SECS, 600);
}

#[test]
fn resize_target_rules() {
    assert_eq!(resize_target(&params(None, None, ImageFormat::Jpeg, 85)), None);
    assert_eq!(resize_target(&params(Some(300), None, ImageFormat::Jpeg, 85)), Some((300, 0)));
    assert_eq!(resize_target(&params(None, Some(7), ImageFormat::Jpeg, 85)), Some((0, 7)));
    assert_eq!(resize_target(&params(Some(3_000_000_000), None, ImageFormat::Jpeg, 85)), None);
}

#[test]
fn centred_crop() {
    assert_eq!(centre_crop(500, 400, 300, 400), CropBox { x: 100, y: 0, width: 300, height: 400 });
    assert_eq!(centre_crop(301, 200, 300, 300), CropBox { x: 0, y: 0, width: 300, height: 200 });
    assert_eq!(centre_crop(305, 211, 300, 200), CropBox { x: 2, y: 5, width: 300, height: 200 });
}

#[test]
fn encoder_choice() {
    assert_eq!(encode_settings(&params(None, None, ImageFormat::Webp, 70)), EncodeSettings::Webp { quality: 70 });
    assert_eq!(encode_settings(&params(None, None, ImageFormat::Avif, 50)), EncodeSettings::Avif { quality: 50 });
    assert_eq!(encode_settings(&params(None, None, ImageFormat::Jpeg, 85)), EncodeSettings::Jpeg { quality: 85 });
    assert_eq!(encode_settings(&params(None, None, ImageFormat::Png, 85)), EncodeSettings::Png);
}

#[test]
fn sources_and_upstream_answers() {
    assert_eq!(source_kind("s3://b/k"), SourceKind::S3);
    assert_eq!(source_kind("https://x"), SourceKind::Http);
    assert_eq!(source_kind("S3://b/k"), SourceKind::Http);
    assert_eq!(check_upstream_response(200, "200 OK", Some("image/png"), "u"), Ok(()));
    assert_eq!(check_upstream_response(204, "204 No Content", None, "u"), Ok(()));
    assert_eq!(check_upstream_response(404, "404 Not Found", Some("image/png"), "u"), Err("image not found at: u".to_string()));
    assert_eq!(check_upstream_response(500, "500 Internal Server Error", None, "u"), Err("upstream returned 500 Internal Server Error for: u".to_string()));
    assert_eq!(check_upstream_response(301, "301 Moved Permanently", None, "u"), Err("upstream returned 301 Moved Permanently for: u".to_string()));
    assert_eq!(check_upstream_response(200, "200 OK", Some("text/html"), "u"), Err("upstream returned non-image content-type: text/html".to_string()));
    assert_eq!(check_upstream_response(200, "200 OK", Some(""), "u"), Err("upstream returned non-image content-type: ".to_string()));
}

#[test]
fn s3_urls_split_at_first_slash() {
    assert_eq!(parse_s3_url("s3://bucket/a/b.jpg"), Ok(("bucket".to_string(), "a/b.jpg".to_string())));
    assert_eq!(parse_s3_url("s3://bucket/"), Ok(("bucket".to_string(), "".to_string())));
    assert_eq!(parse_s3_url("s3://bucket"), Err("invalid S3 URL, expected s3://bucket/key: s3://bucket".to_string()));
    assert_eq!(parse_s3_url("b/k"), Ok(("b".to_string(), "k".to_string())));
}

#[test]
fn variant_index_collects_keys_per_source() {
    let mut idx = VariantIndex::new();
    assert!(idx.take("https://a").is_empty());
    idx.record("https://a", "k1");
    idx.record("https://b", "k2");
    idx.record("https://a", "k3");
    idx.record("https://a", "k1");
    assert_eq!(idx.take("https://a"), vec!["k1".to_string(), "k3".to_string()]);
    assert!(idx.take("https://a").is_empty());
    assert_eq!(idx.take("https://b"), vec!["k2".to_string()]);
}
