//! Image request parameters: the raw query, its validation, and the
//! validated form that drives processing and caching.

use vstd::prelude::*;

use crate::utils::text::{
    opt_as_str, opt_chars, str_eq, starts_with, contains, has_substring, trim, trimmed,
    to_lowercase, unicode_lowercase,
};

verus! {

/// Largest accepted width or height, in pixels.
pub const MAX_DIMENSION: u32 = 8000;

/// Quality used when the request names none.
pub const DEFAULT_QUALITY: u8 = 85;

/// Output encodings.
#[derive(Debug, Clone, Copy, PartialEq, Eq, Hash)]
pub enum ImageFormat {
    Webp,
    Avif,
    Jpeg,
    Png,
}

/// The short name of a format, as used in URLs and cache keys.
pub open spec fn format_name(f: ImageFormat) -> Seq<char> {
    match f {
        ImageFormat::Webp => "webp"@,
        ImageFormat::Avif => "avif"@,
        ImageFormat::Jpeg => "jpeg"@,
        ImageFormat::Png => "png"@,
    }
}

/// The MIME type served for a format.
pub open spec fn format_mime(f: ImageFormat) -> Seq<char> {
    match f {
        ImageFormat::Webp => "image/webp"@,
        ImageFormat::Avif => "image/avif"@,
        ImageFormat::Jpeg => "image/jpeg"@,
        ImageFormat::Png => "image/png"@,
    }
}

impl ImageFormat {
    pub fn as_str(&self) -> (r: &'static str)
        ensures
            r@ == format_name(*self),
    {
        match self {
            ImageFormat::Webp => "webp",
            ImageFormat::Avif => "avif",
            ImageFormat::Jpeg => "jpeg",
            ImageFormat::Png => "png",
        }
    }

    pub fn mime_type(&self) -> (r: &'static str)
        ensures
            r@ == format_mime(*self),
    {
        match self {
            ImageFormat::Webp => "image/webp",
            ImageFormat::Avif => "image/avif",
            ImageFormat::Jpeg => "image/jpeg",
            ImageFormat::Png => "image/png",
        }
    }
}

/// How the image is fitted into the requested box.
#[derive(Debug, Clone, Copy, PartialEq, Eq, Hash, Default)]
pub enum FitMode {
    #[default]
    Cover,
    Contain,
    Fill,
}

/// The short name of a fit mode.
pub open spec fn fit_name(f: FitMode) -> Seq<char> {
    match f {
        FitMode::Cover => "cover"@,
        FitMode::Contain => "contain"@,
        FitMode::Fill => "fill"@,
    }
}

impl FitMode {
    pub fn as_str(&self) -> (r: &'static str)
        ensures
            r@ == fit_name(*self),
    {
        match self {
            FitMode::Cover => "cover",
            FitMode::Contain => "contain",
            FitMode::Fill => "fill",
        }
    }
}

/// The query of an image request, before validation.
#[derive(Debug)]
pub struct RawImageParams {
    /// Source image URL (https://... or s3://bucket/key)
    pub url: String,
    /// Target width in pixels
    pub w: Option<u32>,
    /// Target height in pixels
    pub h: Option<u32>,
    /// Output format: webp | avif | jpeg | png
    pub format: Option<String>,
    /// Quality (1-100, default 85)
    pub q: Option<u8>,
    /// Fit mode: cover | contain | fill
    pub fit: Option<String>,
}

/// The raw query as plain values.
pub struct RawParamsView {
    pub url: Seq<char>,
    pub w: Option<u32>,
    pub h: Option<u32>,
    pub format: Option<Seq<char>>,
    pub q: Option<u8>,
    pub fit: Option<Seq<char>>,
}

impl View for RawImageParams {
    type V = RawParamsView;

    open spec fn view(&self) -> RawParamsView {
        RawParamsView {
            url: self.url@,
            w: self.w,
            h: self.h,
            format: crate::utils::text::opt_string_chars(self.format),
            q: self.q,
            fit: crate::utils::text::opt_string_chars(self.fit),
        }
    }
}

/// A validated image request.
#[derive(Debug, Clone, PartialEq, Eq, Hash)]
pub struct ImageParams {
    pub url: String,
    pub width: Option<u32>,
    pub height: Option<u32>,
    pub format: ImageFormat,
    pub quality: u8,
    pub fit: FitMode,
}

/// A validated request as plain values.
pub struct ImageParamsView {
    pub url: Seq<char>,
    pub width: Option<u32>,
    pub height: Option<u32>,
    pub format: ImageFormat,
    pub quality: u8,
    pub fit: FitMode,
}

impl View for ImageParams {
    type V = ImageParamsView;

    open spec fn view(&self) -> ImageParamsView {
        ImageParamsView {
            url: self.url@,
            width: self.width,
            height: self.height,
            format: self.format,
            quality: self.quality,
            fit: self.fit,
        }
    }
}

/// Why a request's parameters were refused.
#[derive(Debug)]
pub enum ParamError {
    MissingUrl,
    InvalidUrl,
    InvalidWidth,
    InvalidHeight,
    InvalidQuality,
    UnsupportedFormat(String),
    UnsupportedFit(String),
}

/// A refusal as plain values.
pub enum ParamFault {
    MissingUrl,
    InvalidUrl,
    InvalidWidth,
    InvalidHeight,
    InvalidQuality,
    UnsupportedFormat(Seq<char>),
    UnsupportedFit(Seq<char>),
}

impl View for ParamError {
    type V = ParamFault;

    open spec fn view(&self) -> ParamFault {
        match self {
            ParamError::MissingUrl => ParamFault::MissingUrl,
            ParamError::InvalidUrl => ParamFault::InvalidUrl,
            ParamError::InvalidWidth => ParamFault::InvalidWidth,
            ParamError::InvalidHeight => ParamFault::InvalidHeight,
            ParamError::InvalidQuality => ParamFault::InvalidQuality,
            ParamError::UnsupportedFormat(s) => ParamFault::UnsupportedFormat(s@),
            ParamError::UnsupportedFit(s) => ParamFault::UnsupportedFit(s@),
        }
    }
}

/// The human-readable text of a refusal.
pub open spec fn fault_message(f: ParamFault) -> Seq<char> {
    match f {
        ParamFault::MissingUrl => "url is required"@,
        ParamFault::InvalidUrl => "url is not a valid https or s3 URL"@,
        ParamFault::InvalidWidth => "width must be between 1 and 8000"@,
        ParamFault::InvalidHeight => "height must be between 1 and 8000"@,
        ParamFault::InvalidQuality => "quality must be between 1 and 100"@,
        ParamFault::UnsupportedFormat(s) => "unsupported format: "@ + s,
        ParamFault::UnsupportedFit(s) => "unsupported fit mode: "@ + s,
    }
}

impl ParamError {
    /// The text shown to clients for this refusal.
    pub fn message(&self) -> (r: String)
        ensures
            r@ == fault_message(self@),
    {
        match self {
            ParamError::MissingUrl => String::from_str("url is required"),
            ParamError::InvalidUrl => String::from_str("url is not a valid https or s3 URL"),
            ParamError::InvalidWidth => String::from_str("width must be between 1 and 8000"),
            ParamError::InvalidHeight => String::from_str("height must be between 1 and 8000"),
            ParamError::InvalidQuality => String::from_str("quality must be between 1 and 100"),
            ParamError::UnsupportedFormat(s) => {
                let mut m = String::from_str("unsupported format: ");
                m.append(s.as_str());
                m
            },
            ParamError::UnsupportedFit(s) => {
                let mut m = String::from_str("unsupported fit mode: ");
                m.append(s.as_str());
                m
            },
        }
    }
}

/// The format named by an already lowercased name, if any.
pub open spec fn format_named(lower: Seq<char>) -> Option<ImageFormat> {
    if lower == "webp"@ {
        Some(ImageFormat::Webp)
    } else if lower == "avif"@ {
        Some(ImageFormat::Avif)
    } else if lower == "jpeg"@ || lower == "jpg"@ {
        Some(ImageFormat::Jpeg)
    } else if lower == "png"@ {
        Some(ImageFormat::Png)
    } else {
        None
    }
}

/// The fit mode named by an already lowercased name, if any.
pub open spec fn fit_named(lower: Seq<char>) -> Option<FitMode> {
    if lower == "cover"@ {
        Some(FitMode::Cover)
    } else if lower == "contain"@ {
        Some(FitMode::Contain)
    } else if lower == "fill"@ {
        Some(FitMode::Fill)
    } else {
        None
    }
}

/// Reading a requested format name: case is ignored.
pub open spec fn format_choice(name: Seq<char>) -> Result<ImageFormat, ParamFault> {
    let lower = unicode_lowercase(name);
    match format_named(lower) {
        Some(f) => Ok(f),
        None => Err(ParamFault::UnsupportedFormat(lower)),
    }
}

/// Reading a requested fit name: case is ignored.
pub open spec fn fit_choice(name: Seq<char>) -> Result<FitMode, ParamFault> {
    let lower = unicode_lowercase(name);
    match fit_named(lower) {
        Some(f) => Ok(f),
        None => Err(ParamFault::UnsupportedFit(lower)),
    }
}

/// The format chosen from an `Accept` header: AVIF is preferred to WebP,
/// and JPEG is the fallback.
pub open spec fn accept_format(accept: Option<Seq<char>>) -> ImageFormat {
    match accept {
        None => ImageFormat::Jpeg,
        Some(a) => if has_substring(a, "image/avif"@) {
            ImageFormat::Avif
        } else if has_substring(a, "image/webp"@) {
            ImageFormat::Webp
        } else {
            ImageFormat::Jpeg
        },
    }
}

/// The URL schemes that a source may use: `https://` and `s3://`.
pub open spec fn has_allowed_scheme(url: Seq<char>) -> bool {
    ||| "https://"@.is_prefix_of(url)
    ||| "s3://"@.is_prefix_of(url)
}

/// An optional dimension is absent or within `1..=MAX_DIMENSION`.
pub open spec fn dimension_ok(d: Option<u32>) -> bool {
    match d {
        Some(v) => 1 <= v <= MAX_DIMENSION,
        None => true,
    }
}

/// The requested quality, or the default.
pub open spec fn quality_or_default(q: Option<u8>) -> u8 {
    match q {
        Some(v) => v,
        None => DEFAULT_QUALITY,
    }
}

/// The outcome of validating a raw query: the checks run in this order and
/// the first that fails decides the refusal.
pub open spec fn validate_params(raw: RawParamsView, accept: Option<Seq<char>>) -> Result<
    ImageParamsView,
    ParamFault,
> {
    let url = trimmed(raw.url);
    let quality = quality_or_default(raw.q);
    if url.len() == 0 {
        Err(ParamFault::MissingUrl)
    } else if !has_allowed_scheme(url) {
        Err(ParamFault::InvalidUrl)
    } else if !dimension_ok(raw.w) {
        Err(ParamFault::InvalidWidth)
    } else if !dimension_ok(raw.h) {
        Err(ParamFault::InvalidHeight)
    } else if !(1 <= quality <= 100) {
        Err(ParamFault::InvalidQuality)
    } else {
        let format = match raw.format {
            Some(name) => format_choice(name),
            None => Ok(accept_format(accept)),
        };
        match format {
            Err(e) => Err(e),
            Ok(format) => {
                let fit = match raw.fit {
                    Some(name) => fit_choice(name),
                    None => Ok(FitMode::Cover),
                };
                match fit {
                    Err(e) => Err(e),
                    Ok(fit) => Ok(
                        ImageParamsView {
                            url,
                            width: raw.w,
                            height: raw.h,
                            format,
                            quality,
                            fit,
                        },
                    ),
                }
            },
        }
    }
}

/// What every validated request satisfies.
pub open spec fn params_valid(p: ImageParamsView) -> bool {
    &&& p.url.len() > 0
    &&& trimmed(p.url) == p.url
    &&& has_allowed_scheme(p.url)
    &&& dimension_ok(p.width)
    &&& dimension_ok(p.height)
    &&& 1 <= p.quality <= 100
}

/// A validation outcome as plain values.
pub open spec fn outcome_view(r: Result<ImageParams, ParamError>) -> Result<
    ImageParamsView,
    ParamFault,
> {
    match r {
        Ok(p) => Ok(p@),
        Err(e) => Err(e@),
    }
}

impl ImageParams {
    /// Validates a raw query; `accept_header` chooses the format when the
    /// query names none.
    pub fn from_raw(raw: RawImageParams, accept_header: Option<&str>) -> (r: Result<
        Self,
        ParamError,
    >)
        ensures
            outcome_view(r) == validate_params(raw@, opt_chars(accept_header)),
            r matches Ok(p) ==> params_valid(p@),
    {
        let url = trim(raw.url.as_str());
        if url.is_empty() {
            return Err(ParamError::MissingUrl);
        }
        if !starts_with(url, "https://") && !starts_with(url, "s3://") {
            return Err(ParamError::InvalidUrl);
        }
        if let Some(w) = raw.w {
            if w == 0 || w > MAX_DIMENSION {
                return Err(ParamError::InvalidWidth);
            }
        }
        if let Some(h) = raw.h {
            if h == 0 || h > MAX_DIMENSION {
                return Err(ParamError::InvalidHeight);
            }
        }
        let quality = match raw.q {
            Some(q) => q,
            None => DEFAULT_QUALITY,
        };
        if quality == 0 || quality > 100 {
            return Err(ParamError::InvalidQuality);
        }
        let format = match opt_as_str(&raw.format) {
            Some(name) => parse_format(name)?,
            None => detect_format_from_accept(accept_header),
        };
        let fit = match opt_as_str(&raw.fit) {
            Some(name) => parse_fit(name)?,
            None => FitMode::Cover,
        };
        proof {
            crate::utils::text::lemma_trimmed_idempotent(raw.url@);
        }
        Ok(
            ImageParams {
                url: url.to_owned(),
                width: raw.w,
                height: raw.h,
                format,
                quality,
                fit,
            },
        )
    }
}

/// Reads a format name, ignoring case.
pub fn parse_format(s: &str) -> (r: Result<ImageFormat, ParamError>)
    ensures
        match r {
            Ok(f) => format_choice(s@) == Ok::<ImageFormat, ParamFault>(f),
            Err(e) => format_choice(s@) == Err::<ImageFormat, ParamFault>(e@),
        },
{
    let lower = to_lowercase(s);
    format_from_lowercase(lower)
}

/// Reads an already lowercased format name; `lower` comes back in the
/// refusal when it names no format.
pub fn format_from_lowercase(lower: String) -> (r: Result<ImageFormat, ParamError>)
    ensures
        match r {
            Ok(f) => format_named(lower@) == Some(f),
            Err(e) => format_named(lower@) is None && e@ == ParamFault::UnsupportedFormat(lower@),
        },
{
    if str_eq(lower.as_str(), "webp") {
        Ok(ImageFormat::Webp)
    } else if str_eq(lower.as_str(), "avif") {
        Ok(ImageFormat::Avif)
    } else if str_eq(lower.as_str(), "jpeg") || str_eq(lower.as_str(), "jpg") {
        Ok(ImageFormat::Jpeg)
    } else if str_eq(lower.as_str(), "png") {
        Ok(ImageFormat::Png)
    } else {
        Err(ParamError::UnsupportedFormat(lower))
    }
}

/// Reads a fit mode name, ignoring case.
pub fn parse_fit(s: &str) -> (r: Result<FitMode, ParamError>)
    ensures
        match r {
            Ok(f) => fit_choice(s@) == Ok::<FitMode, ParamFault>(f),
            Err(e) => fit_choice(s@) == Err::<FitMode, ParamFault>(e@),
        },
{
    let lower = to_lowercase(s);
    fit_from_lowercase(lower)
}

/// Reads an already lowercased fit name; `lower` comes back in the refusal
/// when it names no fit mode.
pub fn fit_from_lowercase(lower: String) -> (r: Result<FitMode, ParamError>)
    ensures
        match r {
            Ok(f) => fit_named(lower@) == Some(f),
            Err(e) => fit_named(lower@) is None && e@ == ParamFault::UnsupportedFit(lower@),
        },
{
    if str_eq(lower.as_str(), "cover") {
        Ok(FitMode::Cover)
    } else if str_eq(lower.as_str(), "contain") {
        Ok(FitMode::Contain)
    } else if str_eq(lower.as_str(), "fill") {
        Ok(FitMode::Fill)
    } else {
        Err(ParamError::UnsupportedFit(lower))
    }
}

/// Chooses the output format from an `Accept` header.
pub fn detect_format_from_accept(accept: Option<&str>) -> (r: ImageFormat)
    ensures
        r == accept_format(opt_chars(accept)),
{
    let a = match accept {
        Some(a) => a,
        None => return ImageFormat::Jpeg,
    };
    if contains(a, "image/avif") {
        ImageFormat::Avif
    } else if contains(a, "image/webp") {
        ImageFormat::Webp
    } else {
        ImageFormat::Jpeg
    }
}


/// An optional size is absent or lies in `1..=8000`.
pub open spec fn size_in_range(d: Option<u32>) -> bool {
    match d {
        Some(v) => 1 <= v && v <= 8000,
        None => true,
    }
}

/// Which source URLs are accepted, stated from the URL alone: after
/// trimming, an empty URL is missing; otherwise it is accepted exactly when
/// it starts with `https://` or `s3://` (anything may follow, such as a path
/// or a query string), and the accepted request keeps the trimmed URL, the
/// sizes as given, the quality (85 by default), and cover as the fit. The
/// format comes from the `Accept` header (see `lemma_format_names`), JPEG
/// without one.
pub proof fn lemma_source_url_acceptance(raw: RawParamsView, accept: Option<Seq<char>>)
    requires
        size_in_range(raw.w),
        size_in_range(raw.h),
        raw.q matches Some(q) ==> 1 <= q && q <= 100,
        raw.format is None,
        raw.fit is None,
    ensures
        trimmed(raw.url).len() == 0 ==> validate_params(raw, accept) == Err::<
            ImageParamsView,
            ParamFault,
        >(ParamFault::MissingUrl),
        trimmed(raw.url).len() > 0 && !"https://"@.is_prefix_of(trimmed(raw.url))
            && !"s3://"@.is_prefix_of(trimmed(raw.url)) ==> validate_params(raw, accept) == Err::<
            ImageParamsView,
            ParamFault,
        >(ParamFault::InvalidUrl),
        trimmed(raw.url).len() > 0 && ("https://"@.is_prefix_of(trimmed(raw.url))
            || "s3://"@.is_prefix_of(trimmed(raw.url))) ==> (validate_params(raw, accept) matches Ok(
            p,
        ) && p.url == trimmed(raw.url) && p.width == raw.w && p.height == raw.h && p.quality == (
        match raw.q {
            Some(q) => q,
            None => 85u8,
        }) && p.fit == FitMode::Cover && p.format == accept_format(accept) && (accept is None
            ==> p.format == ImageFormat::Jpeg)),
{
}

/// Size and quality limits, for a request whose URL is accepted: a width
/// outside `1..=8000` is refused first, then a height outside it, then a
/// quality outside `1..=100` (an absent quality counts as 85).
pub proof fn lemma_size_and_quality_limits(raw: RawParamsView, accept: Option<Seq<char>>)
    requires
        trimmed(raw.url).len() > 0,
        "https://"@.is_prefix_of(trimmed(raw.url)) || "s3://"@.is_prefix_of(trimmed(raw.url)),
    ensures
        !size_in_range(raw.w) ==> validate_params(raw, accept) == Err::<
            ImageParamsView,
            ParamFault,
        >(ParamFault::InvalidWidth),
        size_in_range(raw.w) && !size_in_range(raw.h) ==> validate_params(raw, accept) == Err::<
            ImageParamsView,
            ParamFault,
        >(ParamFault::InvalidHeight),
        size_in_range(raw.w) && size_in_range(raw.h) && (raw.q matches Some(q) && (q == 0 || q
            > 100)) ==> validate_params(raw, accept) == Err::<ImageParamsView, ParamFault>(
            ParamFault::InvalidQuality,
        ),
        raw.q is None && size_in_range(raw.w) && size_in_range(raw.h) ==> !(validate_params(
            raw,
            accept,
        ) matches Err(ParamFault::InvalidQuality)),
{
}

/// Format names are read after lowercasing: `webp`, `avif`, `jpeg` or `jpg`,
/// and `png` name their formats; any other name is refused and the refusal
/// carries the lowercased name. An absent name defers to the `Accept`
/// header, which picks AVIF if it mentions `image/avif`, else WebP if it
/// mentions `image/webp`, else JPEG.
pub proof fn lemma_format_names(name: Seq<char>, accept: Option<Seq<char>>)
    ensures
        unicode_lowercase(name) == "webp"@ ==> format_choice(name) == Ok::<ImageFormat, ParamFault>(
            ImageFormat::Webp,
        ),
        unicode_lowercase(name) == "avif"@ ==> format_choice(name) == Ok::<ImageFormat, ParamFault>(
            ImageFormat::Avif,
        ),
        unicode_lowercase(name) == "jpeg"@ || unicode_lowercase(name) == "jpg"@ ==> format_choice(
            name,
        ) == Ok::<ImageFormat, ParamFault>(ImageFormat::Jpeg),
        unicode_lowercase(name) == "png"@ ==> format_choice(name) == Ok::<ImageFormat, ParamFault>(
            ImageFormat::Png,
        ),
        unicode_lowercase(name) != "webp"@ && unicode_lowercase(name) != "avif"@
            && unicode_lowercase(name) != "jpeg"@ && unicode_lowercase(name) != "jpg"@
            && unicode_lowercase(name) != "png"@ ==> format_choice(name) == Err::<
            ImageFormat,
            ParamFault,
        >(ParamFault::UnsupportedFormat(unicode_lowercase(name))),
        accept is None ==> accept_format(accept) == ImageFormat::Jpeg,
        accept matches Some(a) && has_substring(a, "image/avif"@) ==> accept_format(accept)
            == ImageFormat::Avif,
        accept matches Some(a) && !has_substring(a, "image/avif"@) && has_substring(
            a,
            "image/webp"@,
        ) ==> accept_format(accept) == ImageFormat::Webp,
        accept matches Some(a) && !has_substring(a, "image/avif"@) && !has_substring(
            a,
            "image/webp"@,
        ) ==> accept_format(accept) == ImageFormat::Jpeg,
{
    lemma_literal_names_distinct();
}

/// Fit names are read after lowercasing: `cover`, `contain` and `fill`;
/// any other name is refused with the lowercased name.
pub proof fn lemma_fit_names(name: Seq<char>)
    ensures
        unicode_lowercase(name) == "cover"@ ==> fit_choice(name) == Ok::<FitMode, ParamFault>(
            FitMode::Cover,
        ),
        unicode_lowercase(name) == "contain"@ ==> fit_choice(name) == Ok::<FitMode, ParamFault>(
            FitMode::Contain,
        ),
        unicode_lowercase(name) == "fill"@ ==> fit_choice(name) == Ok::<FitMode, ParamFault>(
            FitMode::Fill,
        ),
        unicode_lowercase(name) != "cover"@ && unicode_lowercase(name) != "contain"@
            && unicode_lowercase(name) != "fill"@ ==> fit_choice(name) == Err::<
            FitMode,
            ParamFault,
        >(ParamFault::UnsupportedFit(unicode_lowercase(name))),
{
    lemma_literal_names_distinct();
}

/// A format or fit named in an otherwise valid request is read by its
/// lowercased name: a known name gives that format or fit, an unknown
/// format name is refused before the fit is looked at, and an unknown fit
/// name is refused; each refusal carries the lowercased name.
pub proof fn lemma_named_format_and_fit(raw: RawParamsView, accept: Option<Seq<char>>)
    requires
        trimmed(raw.url).len() > 0,
        "https://"@.is_prefix_of(trimmed(raw.url)) || "s3://"@.is_prefix_of(trimmed(raw.url)),
        size_in_range(raw.w),
        size_in_range(raw.h),
        raw.q is Some ==> 1 <= raw.q.unwrap() && raw.q.unwrap() <= 100,
    ensures
        (raw.format is Some && format_named(unicode_lowercase(raw.format.unwrap())) is None)
            ==> validate_params(raw, accept) == Err::<ImageParamsView, ParamFault>(
            ParamFault::UnsupportedFormat(unicode_lowercase(raw.format.unwrap())),
        ),
        (raw.format is Some && unicode_lowercase(raw.format.unwrap()) == "png"@ && raw.fit is None)
            ==> (validate_params(raw, accept) is Ok && (validate_params(raw, accept)->Ok_0).format
            == ImageFormat::Png),
        (raw.format is Some && unicode_lowercase(raw.format.unwrap()) == "webp"@ && raw.fit is None)
            ==> (validate_params(raw, accept) is Ok && (validate_params(raw, accept)->Ok_0).format
            == ImageFormat::Webp),
        (raw.format is None && raw.fit is Some && unicode_lowercase(raw.fit.unwrap()) != "cover"@
            && unicode_lowercase(raw.fit.unwrap()) != "contain"@ && unicode_lowercase(
            raw.fit.unwrap(),
        ) != "fill"@) ==> validate_params(raw, accept) == Err::<ImageParamsView, ParamFault>(
            ParamFault::UnsupportedFit(unicode_lowercase(raw.fit.unwrap())),
        ),
        (raw.format is None && raw.fit is Some && unicode_lowercase(raw.fit.unwrap())
            == "contain"@) ==> (validate_params(raw, accept) is Ok && (validate_params(raw, accept)->Ok_0).fit == FitMode::Contain),
        (raw.format is None && raw.fit is Some && unicode_lowercase(raw.fit.unwrap()) == "fill"@)
            ==> (validate_params(raw, accept) is Ok && (validate_params(raw, accept)->Ok_0).fit
            == FitMode::Fill),
{
    lemma_literal_names_distinct();
}

/// The format and fit names are pairwise different texts.
pub proof fn lemma_literal_names_distinct()
    ensures
        "webp"@ != "avif"@,
        "webp"@ != "jpeg"@,
        "webp"@ != "jpg"@,
        "webp"@ != "png"@,
        "avif"@ != "jpeg"@,
        "avif"@ != "jpg"@,
        "avif"@ != "png"@,
        "jpeg"@ != "png"@,
        "jpg"@ != "png"@,
        "cover"@ != "contain"@,
        "cover"@ != "fill"@,
        "contain"@ != "fill"@,
{
    reveal_strlit("webp");
    reveal_strlit("avif");
    reveal_strlit("jpeg");
    reveal_strlit("jpg");
    reveal_strlit("png");
    reveal_strlit("cover");
    reveal_strlit("contain");
    reveal_strlit("fill");
    assert("webp"@[0] != "avif"@[0]);
    assert("webp"@[0] != "jpeg"@[0]);
    assert("webp"@.len() != "jpg"@.len());
    assert("webp"@.len() != "png"@.len());
    assert("avif"@[0] != "jpeg"@[0]);
    assert("avif"@.len() != "jpg"@.len());
    assert("avif"@.len() != "png"@.len());
    assert("jpeg"@.len() != "png"@.len());
    assert("jpg"@[0] != "png"@[0]);
    assert("cover"@[2] != "contain"@[2]);
    assert("cover"@[0] != "fill"@[0]);
    assert("contain"@[0] != "fill"@[0]);
}

} // verus!
