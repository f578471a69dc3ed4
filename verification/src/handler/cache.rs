//! The decisions of the cache purge endpoint.

use vstd::prelude::*;

use crate::model::params::{
    fit_named, format_named, validate_params, FitMode, ImageFormat, ImageParams,
    ImageParamsView, RawParamsView, DEFAULT_QUALITY,
};
use crate::utils::hash::{cache_key, key_of};
use crate::utils::text::{
    opt_as_str, opt_chars, opt_string_chars, str_eq, to_lowercase, trimmed, unicode_lowercase,
};

verus! {

/// A purge request.
#[derive(Debug)]
pub struct PurgeRequest {
    /// Source image URL
    pub url: String,
    /// Optional: specific width variant to purge
    pub width: Option<u32>,
    /// Optional: specific height variant to purge
    pub height: Option<u32>,
    /// Optional: specific format variant to purge
    pub format: Option<String>,
    /// Optional: specific quality variant to purge
    pub quality: Option<u8>,
    /// Optional: specific fit mode variant to purge
    pub fit: Option<String>,
    /// If true, purge ALL cached variants of this URL
    pub wildcard: bool,
}

/// The answer to a purge request.
#[derive(Debug)]
pub struct PurgeResponse {
    pub status: &'static str,
    pub purged: u32,
}

/// What a purge request asks of the caches.
#[derive(Debug)]
pub enum PurgePlan {
    /// Refused, with this HTTP status and answer.
    Refuse { status: u16, response: PurgeResponse },
    /// Every cached variant of this source URL.
    AllVariants(String),
    /// The one entry with this cache key.
    OneVariant(String),
}

/// A purge names a format leniently: an unknown name means JPEG.
pub open spec fn purge_format(name: Option<Seq<char>>) -> ImageFormat {
    match name {
        Some(n) => match format_named(unicode_lowercase(n)) {
            Some(f) => f,
            None => ImageFormat::Jpeg,
        },
        None => ImageFormat::Jpeg,
    }
}

/// A purge names a fit leniently: an unknown name means cover.
pub open spec fn purge_fit(name: Option<Seq<char>>) -> FitMode {
    match name {
        Some(n) => match fit_named(unicode_lowercase(n)) {
            Some(f) => f,
            None => FitMode::Cover,
        },
        None => FitMode::Cover,
    }
}

/// The variant that a purge request names. The URL is taken as given
/// (not trimmed) and nothing is range-checked.
pub open spec fn purge_target(
    url: Seq<char>,
    width: Option<u32>,
    height: Option<u32>,
    format: Option<Seq<char>>,
    quality: Option<u8>,
    fit: Option<Seq<char>>,
) -> ImageParamsView {
    ImageParamsView {
        url,
        width,
        height,
        format: purge_format(format),
        quality: match quality {
            Some(q) => q,
            None => DEFAULT_QUALITY,
        },
        fit: purge_fit(fit),
    }
}

/// The text of an optional header, empty where it is absent.
pub open spec fn header_text(h: Option<&str>) -> Seq<char> {
    match h {
        Some(a) => a@,
        None => Seq::empty(),
    }
}

/// The expected `Authorization` header for the CDN secret.
pub open spec fn bearer(token: Seq<char>) -> Seq<char> {
    "Bearer "@ + token
}

fn lenient_format(name: Option<&str>) -> (f: ImageFormat)
    ensures
        f == purge_format(opt_chars(name)),
{
    match name {
        Some(n) => {
            let lower = to_lowercase(n);
            let l = lower.as_str();
            if str_eq(l, "webp") {
                ImageFormat::Webp
            } else if str_eq(l, "avif") {
                ImageFormat::Avif
            } else if str_eq(l, "jpeg") || str_eq(l, "jpg") {
                ImageFormat::Jpeg
            } else if str_eq(l, "png") {
                ImageFormat::Png
            } else {
                ImageFormat::Jpeg
            }
        },
        None => ImageFormat::Jpeg,
    }
}

fn lenient_fit(name: Option<&str>) -> (f: FitMode)
    ensures
        f == purge_fit(opt_chars(name)),
{
    match name {
        Some(n) => {
            let lower = to_lowercase(n);
            let l = lower.as_str();
            if str_eq(l, "cover") {
                FitMode::Cover
            } else if str_eq(l, "contain") {
                FitMode::Contain
            } else if str_eq(l, "fill") {
                FitMode::Fill
            } else {
                FitMode::Cover
            }
        },
        None => FitMode::Cover,
    }
}

/// The parameters of the variant that a purge request names.
pub fn purge_variant(body: &PurgeRequest) -> (p: ImageParams)
    ensures
        p@ == purge_target(
            body.url@,
            body.width,
            body.height,
            opt_string_chars(body.format),
            body.quality,
            opt_string_chars(body.fit),
        ),
{
    ImageParams {
        url: body.url.clone(),
        width: body.width,
        height: body.height,
        format: lenient_format(opt_as_str(&body.format)),
        quality: match body.quality {
            Some(q) => q,
            None => DEFAULT_QUALITY,
        },
        fit: lenient_fit(opt_as_str(&body.fit)),
    }
}

/// Decides a purge request. `token` is the configured CDN secret, if any;
/// `authorization` is the `Authorization` header where present and
/// readable. Without a token every purge is refused; the header must be
/// exactly `Bearer <token>`; a wildcard purge names the source URL, any
/// other the cache key of the named variant.
pub fn plan_purge(token: Option<&str>, authorization: Option<&str>, body: &PurgeRequest) -> (r:
    PurgePlan)
    ensures
        token is None ==> (r matches PurgePlan::Refuse { status, response } && status == 403
            && response.status == "CDN_SECRET not configured" && response.purged == 0),
        token matches Some(t) && header_text(authorization) != bearer(t@) ==> (
        r matches PurgePlan::Refuse { status, response } && status == 403 && response.status
            == "unauthorized" && response.purged == 0),
        token matches Some(t) && header_text(authorization) == bearer(t@) && body.wildcard ==> (
        r matches PurgePlan::AllVariants(u) && u@ == body.url@),
        token matches Some(t) && header_text(authorization) == bearer(t@) && !body.wildcard ==> (
        r matches PurgePlan::OneVariant(k) && k@ == key_of(
            purge_target(
                body.url@,
                body.width,
                body.height,
                opt_string_chars(body.format),
                body.quality,
                opt_string_chars(body.fit),
            ),
        )),
{
    let token = match token {
        Some(t) => t,
        None => {
            return PurgePlan::Refuse {
                status: 403,
                response: PurgeResponse { status: "CDN_SECRET not configured", purged: 0 },
            };
        },
    };
    proof {
        reveal_strlit("");
    }
    let auth = match authorization {
        Some(a) => a,
        None => "",
    };
    let mut expected = String::from_str("Bearer ");
    expected.append(token);
    assert(auth@ == header_text(authorization));
    assert(expected@ == bearer(token@));
    if !str_eq(auth, expected.as_str()) {
        return PurgePlan::Refuse {
            status: 403,
            response: PurgeResponse { status: "unauthorized", purged: 0 },
        };
    }
    if body.wildcard {
        return PurgePlan::AllVariants(body.url.clone());
    }
    let params = purge_variant(body);
    PurgePlan::OneVariant(cache_key(&params))
}

/// The answer after `count` entries were purged.
pub fn purged(count: u32) -> (r: PurgeResponse)
    ensures
        r.status == "purged",
        r.purged == count,
{
    PurgeResponse { status: "purged", purged: count }
}


/// A purge request that repeats an accepted image request (same URL,
/// already trimmed, same sizes, quality and fit, and the format named in the
/// request) purges the entry that the request was served from: its target
/// is the validated request, so the keys agree.
pub proof fn lemma_purge_names_the_served_variant(raw: RawParamsView, accept: Option<Seq<char>>)
    requires
        trimmed(raw.url) == raw.url,
        raw.format is Some,
    ensures
        validate_params(raw, accept) matches Ok(p) ==> {
            &&& purge_target(raw.url, raw.w, raw.h, raw.format, raw.q, raw.fit) == p
            &&& key_of(purge_target(raw.url, raw.w, raw.h, raw.format, raw.q, raw.fit))
                == key_of(p)
        },
{
}


/// A purge names its variant leniently: without a format it names the JPEG
/// variant, without a fit the cover variant, without a quality quality 85;
/// the URL and sizes are taken exactly as given. A format or fit name that
/// lowercases to none of the known names also means JPEG or cover, and a
/// known name means its own format or fit.
pub proof fn lemma_purge_defaults(
    url: Seq<char>,
    width: Option<u32>,
    height: Option<u32>,
    format: Option<Seq<char>>,
    quality: Option<u8>,
    fit: Option<Seq<char>>,
)
    ensures
        purge_target(url, width, height, format, quality, fit).url == url,
        purge_target(url, width, height, format, quality, fit).width == width,
        purge_target(url, width, height, format, quality, fit).height == height,
        quality is None ==> purge_target(url, width, height, format, quality, fit).quality == 85,
        quality matches Some(q) ==> purge_target(url, width, height, format, quality, fit).quality
            == q,
        format is None ==> purge_target(url, width, height, format, quality, fit).format
            == ImageFormat::Jpeg,
        fit is None ==> purge_target(url, width, height, format, quality, fit).fit
            == FitMode::Cover,
        format matches Some(n) && unicode_lowercase(n) != "webp"@ && unicode_lowercase(n)
            != "avif"@ && unicode_lowercase(n) != "jpeg"@ && unicode_lowercase(n) != "jpg"@
            && unicode_lowercase(n) != "png"@ ==> purge_target(
            url,
            width,
            height,
            format,
            quality,
            fit,
        ).format == ImageFormat::Jpeg,
        format matches Some(n) && unicode_lowercase(n) == "webp"@ ==> purge_target(
            url,
            width,
            height,
            format,
            quality,
            fit,
        ).format == ImageFormat::Webp,
        format matches Some(n) && unicode_lowercase(n) == "avif"@ ==> purge_target(
            url,
            width,
            height,
            format,
            quality,
            fit,
        ).format == ImageFormat::Avif,
        format matches Some(n) && unicode_lowercase(n) == "png"@ ==> purge_target(
            url,
            width,
            height,
            format,
            quality,
            fit,
        ).format == ImageFormat::Png,
        fit matches Some(n) && unicode_lowercase(n) != "cover"@ && unicode_lowercase(n)
            != "contain"@ && unicode_lowercase(n) != "fill"@ ==> purge_target(
            url,
            width,
            height,
            format,
            quality,
            fit,
        ).fit == FitMode::Cover,
        fit matches Some(n) && unicode_lowercase(n) == "contain"@ ==> purge_target(
            url,
            width,
            height,
            format,
            quality,
            fit,
        ).fit == FitMode::Contain,
        fit matches Some(n) && unicode_lowercase(n) == "fill"@ ==> purge_target(
            url,
            width,
            height,
            format,
            quality,
            fit,
        ).fit == FitMode::Fill,
{
    crate::model::params::lemma_literal_names_distinct();
}

} // verus!
