use crabcrop::handler::cache::{plan_purge, purge_variant, purged, PurgePlan, PurgeRequest};
use crabcrop::handler::image::{
    classify_failure, prepare_image_request, refine_fetch_failure, AppError,
};
use crabcrop::middleware::origin::origin_allowed;
use crabcrop::middleware::signature::{check_signature, SignatureCheck, SignatureParams};
use crabcrop::model::params::{FitMode, ImageFormat, ImageParams, RawImageParams};
use crabcrop::utils::hash::cache_key;
use crabcrop::utils::sign::generate_signature;

fn signed(secret: &str, exp: u64) -> SignatureParams {
    let sig = generate_signature(secret, "https://x/a.png", Some(10), None, Some("png"), None, None, exp);
    SignatureParams {
        url: Some("https://x/a.png".to_string()),
        w: Some(10),
        h: None,
        format: Some("png".to_string()),
        q: None,
        fit: None,
        exp: Some(exp),
        sig: Some(sig),
    }
}

#[test]
fn signature_check_order() {
    let p = signed("s", 100);
    assert_eq!(check_signature(true, None, &p, 1000), SignatureCheck::Pass);
    assert_eq!(check_signature(false, None, &p, 50), SignatureCheck::NotConfigured);
    assert_eq!(check_signature(false, Some("s"), &p, 100), SignatureCheck::Pass);
    assert_eq!(check_signature(false, Some("s"), &p, 101), SignatureCheck::Expired);
    assert_eq!(check_signature(false, Some("t"), &p, 50), SignatureCheck::InvalidSignature);
    let mut q = signed("s", 100);
    q.sig = None;
    assert_eq!(check_signature(false, Some("s"), &q, 50), SignatureCheck::MissingParameters);
    let mut q = signed("s", 100);
    q.exp = None;
    assert_eq!(check_signature(false, Some("s"), &q, 50), SignatureCheck::MissingParameters);
    let mut q = signed("s", 100);
    q.w = Some(11);
    assert_eq!(check_signature(false, Some("s"), &q, 50), SignatureCheck::InvalidSignature);
}

#[test]
fn absent_url_is_signed_as_empty() {
    let sig = generate_signature("s", "", None, None, None, None, None, 9);
    let p = SignatureParams { url: None, w: None, h: None, format: None, q: None, fit: None, exp: Some(9), sig: Some(sig) };
    assert_eq!(check_signature(false, Some("s"), &p, 0), SignatureCheck::Pass);
}

#[test]
fn signature_rejection_messages() {
    assert_eq!(SignatureCheck::Pass.rejection_message(), None);
    assert_eq!(SignatureCheck::NotConfigured.rejection_message(), Some("CDN not configured"));
    assert_eq!(SignatureCheck::MissingParameters.rejection_message(), Some("missing exp or sig parameter"));
    assert_eq!(SignatureCheck::Expired.rejection_message(), Some("signature expired"));
    assert_eq!(SignatureCheck::InvalidSignature.rejection_message(), Some("invalid signature"));
}

#[test]
fn origin_rules() {
    let allowed = vec!["https://shop.example".to_string(), "https://blog.example".to_string()];
    let none: Vec<String> = Vec::new();
    assert!(origin_allowed(true, &allowed, None, None));
    assert!(origin_allowed(false, &none, None, None));
    assert!(origin_allowed(false, &allowed, Some("https://blog.example"), None));
    assert!(origin_allowed(false, &allowed, None, Some("https://shop.example/page")));
    assert!(!origin_allowed(false, &allowed, Some("https://evil.example"), Some("https://shop.example/")));
    assert!(!origin_allowed(false, &allowed, None, None));
    assert!(!origin_allowed(false, &allowed, Some("https://shop.exampl"), None));
}

#[test]
fn failures_are_classified_by_text() {
    assert!(matches!(classify_failure("image not found: x".to_string()), AppError::NotFound(_)));
    assert!(matches!(classify_failure("upstream returned 404 Not Found".to_string()), AppError::NotFound(_)));
    assert!(matches!(classify_failure("invalid S3 URL".to_string()), AppError::BadRequest(_)));
    assert!(matches!(classify_failure("code 400".to_string()), AppError::BadRequest(_)));
    assert!(matches!(classify_failure("libvips: encode failed".to_string()), AppError::Internal(_)));
    let (status, body) = classify_failure("boom".to_string()).into_parts();
    assert_eq!((status, body.as_str()), (500, "boom"));
    assert_eq!(classify_failure("not found".to_string()).into_parts().0, 404);
    assert_eq!(classify_failure("invalid".to_string()).into_parts().0, 400);
}

#[test]
fn missing_source_is_renamed_and_classified_not_found() {
    let m = refine_fetch_failure("image not found at: https://x/y", "https://x/y").unwrap();
    assert_eq!(m, "image not found: https://x/y");
    assert!(refine_fetch_failure("upstream returned 500", "https://x/y").is_none());
    let wrapped = format!("dedup: upstream error: {m}");
    assert!(matches!(classify_failure(wrapped), AppError::NotFound(_)));
}

#[test]
fn prepared_request_names_key_and_mime() {
    let raw = RawImageParams { url: " https://x/y.png".to_string(), w: Some(5), h: None, format: Some("avif".to_string()), q: None, fit: None };
    let p = prepare_image_request(raw, None).ok().unwrap();
    assert_eq!(p.mime, "image/avif");
    assert_eq!(p.params.url, "https://x/y.png");
    assert_eq!(p.key, cache_key(&p.params));
    let raw = RawImageParams { url: "https://x/y.png".to_string(), w: Some(0), h: None, format: None, q: None, fit: None };
    match prepare_image_request(raw, None) {
        Err(AppError::BadRequest(m)) => assert_eq!(m, "width must be between 1 and 8000"),
        _ => panic!("expected a bad request"),
    }
}

fn purge(url: &str, wildcard: bool) -> PurgeRequest {
    PurgeRequest { url: url.to_string(), width: Some(300), height: None, format: Some("WEBP".to_string()), quality: None, fit: Some("bogus".to_string()), wildcard }
}

#[test]
fn purge_needs_token_and_bearer() {
    match plan_purge(None, Some("Bearer t"), &purge("https://x/y", false)) {
        PurgePlan::Refuse { status, response } => {
            assert_eq!(status, 403);
            assert_eq!(response.status, "CDN_SECRET not configured");
            assert_eq!(response.purged, 0);
        }
        other => panic!("unexpected {other:?}"),
    }
    for auth in [None, Some("t"), Some("Bearer u"), Some("bearer t"), Some("Bearer t ")] {
        match plan_purge(Some("t"), auth, &purge("https://x/y", false)) {
            PurgePlan::Refuse { status, response } => {
                assert_eq!(status, 403);
                assert_eq!(response.status, "unauthorized");
            }
            other => panic!("unexpected {other:?}"),
        }
    }
}

#[test]
fn purge_wildcard_and_variant() {
    match plan_purge(Some("t"), Some("Bearer t"), &purge(" https://x/y", true)) {
        PurgePlan::AllVariants(u) => assert_eq!(u, " https://x/y"),
        other => panic!("unexpected {other:?}"),
    }
    let expected = ImageParams { url: "https://x/y".to_string(), width: Some(300), height: None, format: ImageFormat::Webp, quality: 85, fit: FitMode::Cover };
    assert_eq!(purge_variant(&purge("https://x/y", false)), expected);
    match plan_purge(Some("t"), Some("Bearer t"), &purge("https://x/y", false)) {
        PurgePlan::OneVariant(k) => assert_eq!(k, cache_key(&expected)),
        other => panic!("unexpected {other:?}"),
    }
    let mut r = purge("https://x/y", false);
    r.format = Some("tiff".to_string());
    r.fit = Some("FILL".to_string());
    r.quality = Some(0);
    let v = purge_variant(&r);
    assert_eq!((v.format, v.fit, v.quality), (ImageFormat::Jpeg, FitMode::Fill, 0));
    let done = purged(4);
    assert_eq!((done.status, done.purged), ("purged", 4));
}

#[test]
fn purge_by_canonical_names_hits_the_served_key() {
    let raw = RawImageParams { url: "https://x/y.png".to_string(), w: Some(640), h: Some(480), format: Some("AVIF".to_string()), q: Some(70), fit: Some("Fill".to_string()) };
    let served = prepare_image_request(raw, None).ok().unwrap();
    let body = PurgeRequest {
        url: served.params.url.clone(),
        width: served.params.width,
        height: served.params.height,
        format: Some(served.params.format.as_str().to_string()),
        quality: Some(served.params.quality),
        fit: Some(served.params.fit.as_str().to_string()),
        wildcard: false,
    };
    match plan_purge(Some("t"), Some("Bearer t"), &body) {
        PurgePlan::OneVariant(k) => assert_eq!(k, served.key),
        other => panic!("unexpected {other:?}"),
    }
}

#[test]
fn purge_repeating_the_request_hits_the_served_key() {
    let raw = RawImageParams { url: "s3://bucket/pic.jpg".to_string(), w: None, h: Some(90), format: Some("WebP".to_string()), q: None, fit: Some("CONTAIN".to_string()) };
    let served = prepare_image_request(raw, Some("image/avif")).ok().unwrap();
    let body = PurgeRequest {
        url: "s3://bucket/pic.jpg".to_string(),
        width: None,
        height: Some(90),
        format: Some("WebP".to_string()),
        quality: None,
        fit: Some("CONTAIN".to_string()),
        wildcard: false,
    };
    match plan_purge(Some("t"), Some("Bearer t"), &body) {
        PurgePlan::OneVariant(k) => assert_eq!(k, served.key),
        other => panic!("unexpected {other:?}"),
    }
}
