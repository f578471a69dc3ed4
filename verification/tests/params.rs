use crabcrop::model::params::{
    detect_format_from_accept, parse_fit, parse_format, FitMode, ImageFormat, ImageParams,
    ParamError, RawImageParams,
};

fn raw(url: &str) -> RawImageParams {
    RawImageParams { url: url.to_string(), w: None, h: None, format: None, q: None, fit: None }
}

#[test]
fn names_and_mime_types() {
    assert_eq!(ImageFormat::Webp.as_str(), "webp");
    assert_eq!(ImageFormat::Avif.as_str(), "avif");
    assert_eq!(ImageFormat::Jpeg.as_str(), "jpeg");
    assert_eq!(ImageFormat::Png.as_str(), "png");
    assert_eq!(ImageFormat::Webp.mime_type(), "image/webp");
    assert_eq!(ImageFormat::Avif.mime_type(), "image/avif");
    assert_eq!(ImageFormat::Jpeg.mime_type(), "image/jpeg");
    assert_eq!(ImageFormat::Png.mime_type(), "image/png");
    assert_eq!(FitMode::Cover.as_str(), "cover");
    assert_eq!(FitMode::Contain.as_str(), "contain");
    assert_eq!(FitMode::Fill.as_str(), "fill");
    assert_eq!(FitMode::default(), FitMode::Cover);
}

#[test]
fn valid_request_is_accepted_with_defaults() {
    let p = ImageParams::from_raw(raw("  https://example.com/a.png \n"), None).unwrap();
    assert_eq!(p.url, "https://example.com/a.png");
    assert_eq!(p.width, None);
    assert_eq!(p.height, None);
    assert_eq!(p.format, ImageFormat::Jpeg);
    assert_eq!(p.quality, 85);
    assert_eq!(p.fit, FitMode::Cover);
}

#[test]
fn explicit_fields_are_kept() {
    let r = RawImageParams {
        url: "s3://bucket/key.jpg".to_string(),
        w: Some(1),
        h: Some(8000),
        format: Some("JPG".to_string()),
        q: Some(100),
        fit: Some("Contain".to_string()),
    };
    let p = ImageParams::from_raw(r, Some("image/avif")).unwrap();
    assert_eq!(p.url, "s3://bucket/key.jpg");
    assert_eq!(p.width, Some(1));
    assert_eq!(p.height, Some(8000));
    assert_eq!(p.format, ImageFormat::Jpeg);
    assert_eq!(p.quality, 100);
    assert_eq!(p.fit, FitMode::Contain);
}

#[test]
fn missing_url_is_refused() {
    let e = ImageParams::from_raw(raw(" \t "), None).unwrap_err();
    assert!(matches!(e, ParamError::MissingUrl));
    assert_eq!(e.message(), "url is required");
    let e = ImageParams::from_raw(raw("\u{3000}"), None).unwrap_err();
    assert!(matches!(e, ParamError::MissingUrl));
}

#[test]
fn other_schemes_are_refused() {
    for u in ["http://example.com/a.jpg", "ftp://x/y", "file:///etc/passwd", "HTTPS://x/y", "s3:/x"] {
        let e = ImageParams::from_raw(raw(u), None).unwrap_err();
        assert!(matches!(e, ParamError::InvalidUrl));
        assert_eq!(e.message(), "url is not a valid https or s3 URL");
    }
    assert!(ImageParams::from_raw(raw("https://x/y"), None).is_ok());
    assert!(ImageParams::from_raw(raw("s3://b/k"), None).is_ok());
}

#[test]
fn sizes_out_of_range_are_refused() {
    let mut r = raw("https://x/y");
    r.w = Some(0);
    let e = ImageParams::from_raw(r, None).unwrap_err();
    assert!(matches!(e, ParamError::InvalidWidth));
    assert_eq!(e.message(), "width must be between 1 and 8000");
    let mut r = raw("https://x/y");
    r.h = Some(8001);
    let e = ImageParams::from_raw(r, None).unwrap_err();
    assert!(matches!(e, ParamError::InvalidHeight));
    assert_eq!(e.message(), "height must be between 1 and 8000");
}

#[test]
fn width_is_checked_before_height() {
    let mut r = raw("https://x/y");
    r.w = Some(9000);
    r.h = Some(0);
    assert!(matches!(ImageParams::from_raw(r, None).unwrap_err(), ParamError::InvalidWidth));
}

#[test]
fn quality_out_of_range_is_refused() {
    for q in [0u8, 101, 255] {
        let mut r = raw("https://x/y");
        r.q = Some(q);
        let e = ImageParams::from_raw(r, None).unwrap_err();
        assert!(matches!(e, ParamError::InvalidQuality));
        assert_eq!(e.message(), "quality must be between 1 and 100");
    }
}

#[test]
fn unknown_format_and_fit_are_refused_lowercased() {
    let mut r = raw("https://x/y");
    r.format = Some("GIF".to_string());
    match ImageParams::from_raw(r, None).unwrap_err() {
        ParamError::UnsupportedFormat(s) => assert_eq!(s, "gif"),
        other => panic!("unexpected {other:?}"),
    }
    let mut r = raw("https://x/y");
    r.fit = Some("Stretch".to_string());
    let e = ImageParams::from_raw(r, None).unwrap_err();
    assert_eq!(e.message(), "unsupported fit mode: stretch");
}

#[test]
fn format_is_checked_before_fit() {
    let mut r = raw("https://x/y");
    r.format = Some("bmp".to_string());
    r.fit = Some("zoom".to_string());
    assert_eq!(ImageParams::from_raw(r, None).unwrap_err().message(), "unsupported format: bmp");
}

#[test]
fn parse_format_and_fit_ignore_case() {
    assert_eq!(parse_format("WebP").unwrap(), ImageFormat::Webp);
    assert_eq!(parse_format("AVIF").unwrap(), ImageFormat::Avif);
    assert_eq!(parse_format("jpeg").unwrap(), ImageFormat::Jpeg);
    assert_eq!(parse_format("Jpg").unwrap(), ImageFormat::Jpeg);
    assert_eq!(parse_format("PNG").unwrap(), ImageFormat::Png);
    assert!(parse_format(" png").is_err());
    assert_eq!(parse_fit("COVER").unwrap(), FitMode::Cover);
    assert_eq!(parse_fit("contain").unwrap(), FitMode::Contain);
    assert_eq!(parse_fit("Fill").unwrap(), FitMode::Fill);
    assert!(parse_fit("").is_err());
}

#[test]
fn accept_header_prefers_avif_then_webp() {
    assert_eq!(detect_format_from_accept(None), ImageFormat::Jpeg);
    assert_eq!(detect_format_from_accept(Some("image/webp,image/avif,*/*")), ImageFormat::Avif);
    assert_eq!(detect_format_from_accept(Some("text/html,image/webp")), ImageFormat::Webp);
    assert_eq!(detect_format_from_accept(Some("image/png")), ImageFormat::Jpeg);
    assert_eq!(detect_format_from_accept(Some("")), ImageFormat::Jpeg);
    let p = ImageParams::from_raw(raw("https://x/y"), Some("image/webp")).unwrap();
    assert_eq!(p.format, ImageFormat::Webp);
}

#[test]
fn explicit_format_overrides_accept() {
    let mut r = raw("https://x/y");
    r.format = Some("png".to_string());
    let p = ImageParams::from_raw(r, Some("image/avif")).unwrap();
    assert_eq!(p.format, ImageFormat::Png);
}
