//! Cache keys: BLAKE3 of a canonical text of the validated parameters.

use vstd::prelude::*;
use vstd::utf8::encode_utf8;

use crate::model::params::{fit_name, format_name, FitMode, ImageFormat, ImageParams, ImageParamsView};
use crate::utils::hexcode::{hex_lower, is_lower_hex_digit, lemma_hex_round_trip};
use crate::utils::sign::{lemma_opt_u32_text_injective, opt_u32_text};
use crate::utils::text::{
    decimal, decimal_string, lemma_cancel_surroundings, lemma_decimal_injective,
};

verus! {

/// What BLAKE3 computes for `data`: a function of the bytes alone.
pub uninterp spec fn blake3_digest(data: Seq<u8>) -> Seq<u8>;

/// `blake3::hash` followed by `Hash::to_hex`: lowercase hexadecimal text of
/// the 32-byte BLAKE3 digest. The crate documents that hashing the bytes at
/// once equals feeding them to a `Hasher` piece by piece. Claimed: the text
/// is the hexadecimal of the named digest and has 64 characters.
#[verifier::external_body]
fn blake3_hex(data: &[u8]) -> (r: String)
    ensures
        r@ == hex_lower(blake3_digest(data@)),
        r@.len() == 64,
{
    blake3::hash(data).to_hex().to_string()
}

/// The separators of the key text.
pub open spec fn sep_w() -> Seq<char> {
    seq!['|', 'w', ':']
}

pub open spec fn sep_h() -> Seq<char> {
    seq!['|', 'h', ':']
}

pub open spec fn sep_fmt() -> Seq<char> {
    seq!['|', 'f', 'm', 't', ':']
}

pub open spec fn sep_q() -> Seq<char> {
    seq!['|', 'q', ':']
}

pub open spec fn sep_fit() -> Seq<char> {
    seq!['|', 'f', 'i', 't', ':']
}

/// The text that is hashed: `url|w:W|h:H|fmt:F|q:Q|fit:T`, absent sizes
/// empty.
pub open spec fn key_text(p: ImageParamsView) -> Seq<char> {
    p.url + sep_w() + opt_u32_text(p.width) + sep_h() + opt_u32_text(p.height) + sep_fmt()
        + format_name(p.format) + sep_q() + decimal(p.quality as nat) + sep_fit() + fit_name(
        p.fit,
    )
}

/// The cache key of a request: the hexadecimal BLAKE3 digest of the UTF-8
/// bytes of its key text.
pub open spec fn key_of(p: ImageParamsView) -> Seq<char> {
    hex_lower(blake3_digest(encode_utf8(key_text(p))))
}

/// The cache key of validated parameters: 64 lowercase hexadecimal digits.
pub fn cache_key(params: &ImageParams) -> (key: String)
    ensures
        key@ == key_of(params@),
        key@.len() == 64,
        forall|i: int| 0 <= i < key@.len() ==> is_lower_hex_digit(#[trigger] key@[i]),
{
    proof {
        reveal_strlit("|w:");
        reveal_strlit("|h:");
        reveal_strlit("|fmt:");
        reveal_strlit("|q:");
        reveal_strlit("|fit:");
    }
    let mut text = String::from_str(params.url.as_str());
    text.append("|w:");
    if let Some(w) = params.width {
        let d = decimal_string(w as u64);
        text.append(d.as_str());
    }
    text.append("|h:");
    if let Some(h) = params.height {
        let d = decimal_string(h as u64);
        text.append(d.as_str());
    }
    text.append("|fmt:");
    text.append(params.format.as_str());
    text.append("|q:");
    let d = decimal_string(params.quality as u64);
    text.append(d.as_str());
    text.append("|fit:");
    text.append(params.fit.as_str());
    assert(text@ =~= key_text(params@));
    let key = blake3_hex(text.as_str().as_bytes());
    proof {
        lemma_hex_round_trip(blake3_digest(encode_utf8(key_text(params@))));
    }
    key
}


/// Equal keys for equal parameters: the key depends on the six fields and
/// nothing else.
pub proof fn lemma_cache_key_deterministic(p1: ImageParamsView, p2: ImageParamsView)
    requires
        p1.url == p2.url,
        p1.width == p2.width,
        p1.height == p2.height,
        p1.format == p2.format,
        p1.quality == p2.quality,
        p1.fit == p2.fit,
    ensures
        key_of(p1) == key_of(p2),
{
}

proof fn lemma_format_name_injective(f1: ImageFormat, f2: ImageFormat)
    requires
        format_name(f1) == format_name(f2),
    ensures
        f1 == f2,
{
    reveal_strlit("webp");
    reveal_strlit("avif");
    reveal_strlit("jpeg");
    reveal_strlit("png");
    let n1 = format_name(f1);
    let n2 = format_name(f2);
    assert(n1.len() == n2.len());
    assert(n1[0] == n2[0]);
}

proof fn lemma_fit_name_injective(f1: FitMode, f2: FitMode)
    requires
        fit_name(f1) == fit_name(f2),
    ensures
        f1 == f2,
{
    reveal_strlit("cover");
    reveal_strlit("contain");
    reveal_strlit("fill");
    let n1 = fit_name(f1);
    let n2 = fit_name(f2);
    assert(n1.len() == n2.len());
    assert(n1[0] == n2[0]);
}

/// Two requests for the same source that differ in exactly one of size,
/// format, quality or fit, or two requests that differ only in the source.
pub open spec fn one_variant_apart(p1: ImageParamsView, p2: ImageParamsView) -> bool {
    let same_url = p1.url == p2.url;
    let same_w = p1.width == p2.width;
    let same_h = p1.height == p2.height;
    let same_format = p1.format == p2.format;
    let same_q = p1.quality == p2.quality;
    let same_fit = p1.fit == p2.fit;
    ||| !same_url && same_w && same_h && same_format && same_q && same_fit
    ||| same_url && !same_w && same_h && same_format && same_q && same_fit
    ||| same_url && same_w && !same_h && same_format && same_q && same_fit
    ||| same_url && same_w && same_h && !same_format && same_q && same_fit
    ||| same_url && same_w && same_h && same_format && !same_q && same_fit
    ||| same_url && same_w && same_h && same_format && same_q && !same_fit
}

/// Requests one variant apart hash different bytes, so their keys collide
/// only if BLAKE3 maps both byte strings to the same digest.
pub proof fn lemma_cache_key_separates_variants(p1: ImageParamsView, p2: ImageParamsView)
    requires
        one_variant_apart(p1, p2),
    ensures
        encode_utf8(key_text(p1)) != encode_utf8(key_text(p2)),
{
    broadcast use vstd::utf8::encode_utf8_decode_utf8;

    let t1 = key_text(p1);
    let t2 = key_text(p2);
    if t1 == t2 {
        lemma_key_parts_determine_each(
            p1.url,
            opt_u32_text(p1.width),
            opt_u32_text(p1.height),
            format_name(p1.format),
            decimal(p1.quality as nat),
            fit_name(p1.fit),
            p2.url,
            opt_u32_text(p2.width),
            opt_u32_text(p2.height),
            format_name(p2.format),
            decimal(p2.quality as nat),
            fit_name(p2.fit),
        );
        if p1.width != p2.width {
            lemma_opt_u32_text_injective(p1.width, p2.width);
        }
        if p1.height != p2.height {
            lemma_opt_u32_text_injective(p1.height, p2.height);
        }
        if p1.format != p2.format {
            lemma_format_name_injective(p1.format, p2.format);
        }
        if p1.quality != p2.quality {
            lemma_decimal_injective(p1.quality as nat, p2.quality as nat);
        }
        if p1.fit != p2.fit {
            lemma_fit_name_injective(p1.fit, p2.fit);
        }
    }
    assert(vstd::utf8::decode_utf8(encode_utf8(t1)) == t1);
    assert(vstd::utf8::decode_utf8(encode_utf8(t2)) == t2);
}

/// Six key parts joined by their separators.
pub open spec fn key_joined(
    u: Seq<char>,
    a: Seq<char>,
    b: Seq<char>,
    c: Seq<char>,
    d: Seq<char>,
    f: Seq<char>,
) -> Seq<char> {
    u + sep_w() + a + sep_h() + b + sep_fmt() + c + sep_q() + d + sep_fit() + f
}

/// When two joins are equal and five of their parts are, so is the sixth.
proof fn lemma_key_parts_determine_each(
    u1: Seq<char>,
    a1: Seq<char>,
    b1: Seq<char>,
    c1: Seq<char>,
    d1: Seq<char>,
    f1: Seq<char>,
    u2: Seq<char>,
    a2: Seq<char>,
    b2: Seq<char>,
    c2: Seq<char>,
    d2: Seq<char>,
    f2: Seq<char>,
)
    requires
        key_joined(u1, a1, b1, c1, d1, f1) == key_joined(u2, a2, b2, c2, d2, f2),
    ensures
        (a1 == a2 && b1 == b2 && c1 == c2 && d1 == d2 && f1 == f2) ==> u1 == u2,
        (u1 == u2 && b1 == b2 && c1 == c2 && d1 == d2 && f1 == f2) ==> a1 == a2,
        (u1 == u2 && a1 == a2 && c1 == c2 && d1 == d2 && f1 == f2) ==> b1 == b2,
        (u1 == u2 && a1 == a2 && b1 == b2 && d1 == d2 && f1 == f2) ==> c1 == c2,
        (u1 == u2 && a1 == a2 && b1 == b2 && c1 == c2 && f1 == f2) ==> d1 == d2,
        (u1 == u2 && a1 == a2 && b1 == b2 && c1 == c2 && d1 == d2) ==> f1 == f2,
{
    let t1 = key_joined(u1, a1, b1, c1, d1, f1);
    let t2 = key_joined(u2, a2, b2, c2, d2, f2);
    let empty = Seq::<char>::empty();
    if a1 == a2 && b1 == b2 && c1 == c2 && d1 == d2 && f1 == f2 {
        let r = sep_w() + a1 + sep_h() + b1 + sep_fmt() + c1 + sep_q() + d1 + sep_fit() + f1;
        assert(t1 =~= empty + u1 + r);
        assert(t2 =~= empty + u2 + r);
        lemma_cancel_surroundings(empty, u1, u2, r);
    }
    if u1 == u2 && b1 == b2 && c1 == c2 && d1 == d2 && f1 == f2 {
        let l = u1 + sep_w();
        let r = sep_h() + b1 + sep_fmt() + c1 + sep_q() + d1 + sep_fit() + f1;
        assert(t1 =~= l + a1 + r);
        assert(t2 =~= l + a2 + r);
        lemma_cancel_surroundings(l, a1, a2, r);
    }
    if u1 == u2 && a1 == a2 && c1 == c2 && d1 == d2 && f1 == f2 {
        let l = u1 + sep_w() + a1 + sep_h();
        let r = sep_fmt() + c1 + sep_q() + d1 + sep_fit() + f1;
        assert(t1 =~= l + b1 + r);
        assert(t2 =~= l + b2 + r);
        lemma_cancel_surroundings(l, b1, b2, r);
    }
    if u1 == u2 && a1 == a2 && b1 == b2 && d1 == d2 && f1 == f2 {
        let l = u1 + sep_w() + a1 + sep_h() + b1 + sep_fmt();
        let r = sep_q() + d1 + sep_fit() + f1;
        assert(t1 =~= l + c1 + r);
        assert(t2 =~= l + c2 + r);
        lemma_cancel_surroundings(l, c1, c2, r);
    }
    if u1 == u2 && a1 == a2 && b1 == b2 && c1 == c2 && f1 == f2 {
        let l = u1 + sep_w() + a1 + sep_h() + b1 + sep_fmt() + c1 + sep_q();
        let r = sep_fit() + f1;
        assert(t1 =~= l + d1 + r);
        assert(t2 =~= l + d2 + r);
        lemma_cancel_surroundings(l, d1, d2, r);
    }
    if u1 == u2 && a1 == a2 && b1 == b2 && c1 == c2 && d1 == d2 {
        let l = u1 + sep_w() + a1 + sep_h() + b1 + sep_fmt() + c1 + sep_q() + d1 + sep_fit();
        assert(t1 =~= l + f1 + empty);
        assert(t2 =~= l + f2 + empty);
        lemma_cancel_surroundings(l, f1, f2, empty);
    }
}

} // verus!
