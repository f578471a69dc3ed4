//! Signed URLs: an HMAC-SHA256 tag over the request parameters, carried
//! as lowercase hexadecimal text.

use vstd::prelude::*;
use vstd::utf8::encode_utf8;

use hmac::{Hmac, Mac};
use sha2::Sha256;

use crate::utils::hexcode::{
    hex_bytes, hex_decodable, hex_decode, hex_encode, hex_lower, is_lower_hex_digit,
    lemma_hex_round_trip,
};
use crate::utils::text::{
    decimal, decimal_string, lemma_cancel_surroundings, lemma_decimal_injective,
    lemma_decimal_nonempty, opt_chars,
};

verus! {

/// What HMAC-SHA256 computes for `key` and `message`: a function of the
/// two byte strings alone.
pub uninterp spec fn hmac_sha256(key: Seq<u8>, message: Seq<u8>) -> Seq<u8>;

/// HMAC-SHA256 of `message` under `key`, through the `hmac` and `sha2`
/// crates (`Hmac::<Sha256>::new_from_slice`, `Mac::update`,
/// `Mac::finalize`). Claimed: the tag is the named function of the key and
/// the message, and it is 32 bytes long (SHA-256's output size). HMAC takes
/// keys of any length, so `new_from_slice` does not fail.
#[verifier::external_body]
fn hmac_sha256_tag(key: &[u8], message: &[u8]) -> (tag: Vec<u8>)
    ensures
        tag@ == hmac_sha256(key@, message@),
        tag@.len() == 32,
{
    let mut mac = <Hmac<Sha256> as Mac>::new_from_slice(key).expect("HMAC accepts any key length");
    mac.update(message);
    mac.finalize().into_bytes().to_vec()
}

/// Checks `tag` against HMAC-SHA256 of `message` under `key` with
/// `Mac::verify_slice`, which compares in constant time and fails on a tag
/// of another length. Claimed: the answer is whether the tag equals the
/// named function of the key and the message.
#[verifier::external_body]
fn hmac_sha256_matches(key: &[u8], message: &[u8], tag: &[u8]) -> (ok: bool)
    ensures
        ok == (hmac_sha256(key@, message@) == tag@),
{
    let mut mac = <Hmac<Sha256> as Mac>::new_from_slice(key).expect("HMAC accepts any key length");
    mac.update(message);
    mac.verify_slice(tag).is_ok()
}

/// An optional number in decimal, or nothing.
pub open spec fn opt_u32_text(o: Option<u32>) -> Seq<char> {
    match o {
        Some(v) => decimal(v as nat),
        None => Seq::empty(),
    }
}

/// An optional number in decimal, or nothing.
pub open spec fn opt_u8_text(o: Option<u8>) -> Seq<char> {
    match o {
        Some(v) => decimal(v as nat),
        None => Seq::empty(),
    }
}

/// An optional text, or nothing.
pub open spec fn opt_text(o: Option<Seq<char>>) -> Seq<char> {
    match o {
        Some(s) => s,
        None => Seq::empty(),
    }
}

/// The field separator of the signed text.
pub open spec fn bar() -> Seq<char> {
    seq!['|']
}

/// The signed text: `url|w|h|format|q|fit|exp`, absent fields empty.
pub open spec fn base_text(
    url: Seq<char>,
    w: Option<u32>,
    h: Option<u32>,
    format: Option<Seq<char>>,
    q: Option<u8>,
    fit: Option<Seq<char>>,
    exp: u64,
) -> Seq<char> {
    url + bar() + opt_u32_text(w) + bar() + opt_u32_text(h) + bar() + opt_text(format) + bar()
        + opt_u8_text(q) + bar() + opt_text(fit) + bar() + decimal(exp as nat)
}

/// The tag over the signed text: HMAC-SHA256 of its UTF-8 bytes under the
/// UTF-8 bytes of the secret.
pub open spec fn signature_tag(
    secret: Seq<char>,
    url: Seq<char>,
    w: Option<u32>,
    h: Option<u32>,
    format: Option<Seq<char>>,
    q: Option<u8>,
    fit: Option<Seq<char>>,
    exp: u64,
) -> Seq<u8> {
    hmac_sha256(encode_utf8(secret), encode_utf8(base_text(url, w, h, format, q, fit, exp)))
}

/// Whether `sig` is the hexadecimal text (either case) of the tag.
pub open spec fn signature_accepts(
    secret: Seq<char>,
    url: Seq<char>,
    w: Option<u32>,
    h: Option<u32>,
    format: Option<Seq<char>>,
    q: Option<u8>,
    fit: Option<Seq<char>>,
    exp: u64,
    sig: Seq<char>,
) -> bool {
    hex_decodable(sig) && hex_bytes(sig) == signature_tag(secret, url, w, h, format, q, fit, exp)
}

fn push_opt_u32(s: &mut String, o: Option<u32>)
    ensures
        final(s)@ == old(s)@ + opt_u32_text(o),
{
    if let Some(v) = o {
        let d = decimal_string(v as u64);
        s.append(d.as_str());
    } else {
        assert(old(s)@ + opt_u32_text(o) =~= old(s)@);
    }
}

fn push_opt_u8(s: &mut String, o: Option<u8>)
    ensures
        final(s)@ == old(s)@ + opt_u8_text(o),
{
    if let Some(v) = o {
        let d = decimal_string(v as u64);
        s.append(d.as_str());
    } else {
        assert(old(s)@ + opt_u8_text(o) =~= old(s)@);
    }
}

fn push_opt_str(s: &mut String, o: Option<&str>)
    ensures
        final(s)@ == old(s)@ + opt_text(opt_chars(o)),
{
    if let Some(v) = o {
        s.append(v);
    } else {
        assert(old(s)@ + opt_text(opt_chars(o)) =~= old(s)@);
    }
}

fn push_bar(s: &mut String)
    ensures
        final(s)@ == old(s)@ + bar(),
{
    proof {
        reveal_strlit("|");
    }
    s.append("|");
}

/// Builds the signed text `url|w|h|format|q|fit|exp`.
pub fn build_base_string(
    url: &str,
    w: Option<u32>,
    h: Option<u32>,
    format: Option<&str>,
    q: Option<u8>,
    fit: Option<&str>,
    exp: u64,
) -> (r: String)
    ensures
        r@ == base_text(url@, w, h, opt_chars(format), q, opt_chars(fit), exp),
{
    let mut s = String::from_str(url);
    push_bar(&mut s);
    push_opt_u32(&mut s, w);
    push_bar(&mut s);
    push_opt_u32(&mut s, h);
    push_bar(&mut s);
    push_opt_str(&mut s, format);
    push_bar(&mut s);
    push_opt_u8(&mut s, q);
    push_bar(&mut s);
    push_opt_str(&mut s, fit);
    push_bar(&mut s);
    let e = decimal_string(exp);
    s.append(e.as_str());
    s
}

/// Signs the image parameters: the lowercase hexadecimal text of the tag,
/// 64 characters long.
pub fn generate_signature(
    secret: &str,
    url: &str,
    w: Option<u32>,
    h: Option<u32>,
    format: Option<&str>,
    q: Option<u8>,
    fit: Option<&str>,
    exp: u64,
) -> (sig: String)
    ensures
        sig@ == hex_lower(
            signature_tag(secret@, url@, w, h, opt_chars(format), q, opt_chars(fit), exp),
        ),
        sig@.len() == 64,
        forall|i: int| 0 <= i < sig@.len() ==> is_lower_hex_digit(#[trigger] sig@[i]),
{
    let base = build_base_string(url, w, h, format, q, fit, exp);
    let tag = hmac_sha256_tag(secret.as_bytes(), base.as_str().as_bytes());
    proof {
        lemma_hex_round_trip(tag@);
    }
    hex_encode(tag.as_slice())
}

/// Checks a signature; `sig` is hexadecimal text of either case. Text that
/// is no hexadecimal is refused.
pub fn verify_signature(
    secret: &str,
    url: &str,
    w: Option<u32>,
    h: Option<u32>,
    format: Option<&str>,
    q: Option<u8>,
    fit: Option<&str>,
    exp: u64,
    sig: &str,
) -> (ok: bool)
    ensures
        ok == signature_accepts(
            secret@,
            url@,
            w,
            h,
            opt_chars(format),
            q,
            opt_chars(fit),
            exp,
            sig@,
        ),
{
    let base = build_base_string(url, w, h, format, q, fit, exp);
    match hex_decode(sig) {
        Some(sig_bytes) => hmac_sha256_matches(
            secret.as_bytes(),
            base.as_str().as_bytes(),
            sig_bytes.as_slice(),
        ),
        None => false,
    }
}

/// A signature made for some parameters is accepted for those same
/// parameters under the same secret.
pub proof fn lemma_signature_round_trip(
    secret: Seq<char>,
    url: Seq<char>,
    w: Option<u32>,
    h: Option<u32>,
    format: Option<Seq<char>>,
    q: Option<u8>,
    fit: Option<Seq<char>>,
    exp: u64,
)
    ensures
        signature_accepts(
            secret,
            url,
            w,
            h,
            format,
            q,
            fit,
            exp,
            hex_lower(signature_tag(secret, url, w, h, format, q, fit, exp)),
        ),
{
    lemma_hex_round_trip(signature_tag(secret, url, w, h, format, q, fit, exp));
}

/// A signature made for one request is accepted for another (or under
/// another secret) exactly when the two tags coincide.
pub proof fn lemma_signature_binds_request(
    secret1: Seq<char>,
    url1: Seq<char>,
    w1: Option<u32>,
    h1: Option<u32>,
    format1: Option<Seq<char>>,
    q1: Option<u8>,
    fit1: Option<Seq<char>>,
    exp1: u64,
    secret2: Seq<char>,
    url2: Seq<char>,
    w2: Option<u32>,
    h2: Option<u32>,
    format2: Option<Seq<char>>,
    q2: Option<u8>,
    fit2: Option<Seq<char>>,
    exp2: u64,
)
    ensures
        signature_accepts(
            secret2,
            url2,
            w2,
            h2,
            format2,
            q2,
            fit2,
            exp2,
            hex_lower(signature_tag(secret1, url1, w1, h1, format1, q1, fit1, exp1)),
        ) <==> signature_tag(secret2, url2, w2, h2, format2, q2, fit2, exp2) == signature_tag(
            secret1,
            url1,
            w1,
            h1,
            format1,
            q1,
            fit1,
            exp1,
        ),
{
    lemma_hex_round_trip(signature_tag(secret1, url1, w1, h1, format1, q1, fit1, exp1));
}


/// The signed text of a request with no optional field: the URL, six
/// separators, and the expiry in decimal.
pub proof fn lemma_signed_text_without_options(url: Seq<char>, exp: u64)
    ensures
        base_text(url, None, None, None, None, None, exp) == url + seq!['|', '|', '|', '|', '|', '|']
            + decimal(exp as nat),
{
    assert(base_text(url, None, None, None, None, None, exp) =~= url + seq![
        '|',
        '|',
        '|',
        '|',
        '|',
        '|',
    ] + decimal(exp as nat));
}

/// Each present field is written verbatim in its slot: giving a field
/// inserts its text (a number in decimal) into the signed text of the
/// request without it, at the field's position, and changes nothing else.
/// The slots are counted from the front for the sizes and the format (after
/// the URL and its separators), and from the back for the quality and the
/// fit (before the expiry and its separator).
pub proof fn lemma_signed_text_fields_verbatim(
    url: Seq<char>,
    w: Option<u32>,
    h: Option<u32>,
    format: Option<Seq<char>>,
    q: Option<u8>,
    fit: Option<Seq<char>>,
    exp: u64,
    vw: u32,
    vh: u32,
    f: Seq<char>,
    vq: u8,
    t: Seq<char>,
)
    ensures
        ({
            let absent = base_text(url, None, h, format, q, fit, exp);
            let k = (url.len() + 1) as int;
            base_text(url, Some(vw), h, format, q, fit, exp) == absent.take(k) + decimal(
                vw as nat,
            ) + absent.skip(k)
        }),
        ({
            let absent = base_text(url, w, None, format, q, fit, exp);
            let k = (url.len() + 1 + opt_u32_text(w).len() + 1) as int;
            base_text(url, w, Some(vh), format, q, fit, exp) == absent.take(k) + decimal(
                vh as nat,
            ) + absent.skip(k)
        }),
        ({
            let absent = base_text(url, w, h, None, q, fit, exp);
            let k = (url.len() + 1 + opt_u32_text(w).len() + 1 + opt_u32_text(h).len() + 1) as int;
            base_text(url, w, h, Some(f), q, fit, exp) == absent.take(k) + f + absent.skip(k)
        }),
        ({
            let absent = base_text(url, w, h, format, None, fit, exp);
            let k = (absent.len() - decimal(exp as nat).len() - 1 - opt_text(fit).len() - 1) as int;
            base_text(url, w, h, format, Some(vq), fit, exp) == absent.take(k) + decimal(
                vq as nat,
            ) + absent.skip(k)
        }),
        ({
            let absent = base_text(url, w, h, format, q, None, exp);
            let k = (absent.len() - decimal(exp as nat).len() - 1) as int;
            base_text(url, w, h, format, q, Some(t), exp) == absent.take(k) + t + absent.skip(k)
        }),
{
    lemma_signed_width_slot(url, h, format, q, fit, exp, vw);
    lemma_signed_height_slot(url, w, format, q, fit, exp, vh);
    lemma_signed_format_slot(url, w, h, q, fit, exp, f);
    lemma_signed_quality_slot(url, w, h, format, fit, exp, vq);
    lemma_signed_fit_slot(url, w, h, format, q, exp, t);
}

proof fn lemma_signed_width_slot(
    url: Seq<char>,
    h: Option<u32>,
    format: Option<Seq<char>>,
    q: Option<u8>,
    fit: Option<Seq<char>>,
    exp: u64,
    vw: u32,
)
    ensures
        ({
            let absent = base_text(url, None, h, format, q, fit, exp);
            let k = (url.len() + 1) as int;
            base_text(url, Some(vw), h, format, q, fit, exp) == absent.take(k) + decimal(
                vw as nat,
            ) + absent.skip(k)
        }),
{
    let front = url + bar();
    let rest = bar() + opt_u32_text(h) + bar() + opt_text(format) + bar() + opt_u8_text(q) + bar()
        + opt_text(fit) + bar() + decimal(exp as nat);
    let absent = base_text(url, None, h, format, q, fit, exp);
    assert(absent =~= front + rest);
    lemma_split_at_join(front, rest);
    assert(base_text(url, Some(vw), h, format, q, fit, exp) =~= front + decimal(vw as nat) + rest);
}

proof fn lemma_split_at_join(a: Seq<char>, b: Seq<char>)
    ensures
        (a + b).take(a.len() as int) == a,
        (a + b).skip(a.len() as int) == b,
{
    assert((a + b).take(a.len() as int) =~= a);
    assert((a + b).skip(a.len() as int) =~= b);
}

proof fn lemma_signed_height_slot(
    url: Seq<char>,
    w: Option<u32>,
    format: Option<Seq<char>>,
    q: Option<u8>,
    fit: Option<Seq<char>>,
    exp: u64,
    vh: u32,
)
    ensures
        ({
            let absent = base_text(url, w, None, format, q, fit, exp);
            let k = (url.len() + 1 + opt_u32_text(w).len() + 1) as int;
            base_text(url, w, Some(vh), format, q, fit, exp) == absent.take(k) + decimal(
                vh as nat,
            ) + absent.skip(k)
        }),
{
    let front = url + bar() + opt_u32_text(w) + bar();
    let rest = bar() + opt_text(format) + bar() + opt_u8_text(q) + bar() + opt_text(fit) + bar()
        + decimal(exp as nat);
    let absent = base_text(url, w, None, format, q, fit, exp);
    let k = (url.len() + 1 + opt_u32_text(w).len() + 1) as int;
    assert(absent =~= front + rest);
    assert(absent.take(k as int) =~= front);
    assert(absent.skip(k as int) =~= rest);
    assert(base_text(url, w, Some(vh), format, q, fit, exp) =~= front + decimal(vh as nat) + rest);
}

proof fn lemma_signed_format_slot(
    url: Seq<char>,
    w: Option<u32>,
    h: Option<u32>,
    q: Option<u8>,
    fit: Option<Seq<char>>,
    exp: u64,
    f: Seq<char>,
)
    ensures
        ({
            let absent = base_text(url, w, h, None, q, fit, exp);
            let k = (url.len() + 1 + opt_u32_text(w).len() + 1 + opt_u32_text(h).len() + 1) as int;
            base_text(url, w, h, Some(f), q, fit, exp) == absent.take(k) + f + absent.skip(k)
        }),
{
    let front = url + bar() + opt_u32_text(w) + bar() + opt_u32_text(h) + bar();
    let rest = bar() + opt_u8_text(q) + bar() + opt_text(fit) + bar() + decimal(exp as nat);
    let absent = base_text(url, w, h, None, q, fit, exp);
    let k = (url.len() + 1 + opt_u32_text(w).len() + 1 + opt_u32_text(h).len() + 1) as int;
    assert(absent =~= front + rest);
    assert(absent.take(k as int) =~= front);
    assert(absent.skip(k as int) =~= rest);
    assert(base_text(url, w, h, Some(f), q, fit, exp) =~= front + f + rest);
}

proof fn lemma_signed_quality_slot(
    url: Seq<char>,
    w: Option<u32>,
    h: Option<u32>,
    format: Option<Seq<char>>,
    fit: Option<Seq<char>>,
    exp: u64,
    vq: u8,
)
    ensures
        ({
            let absent = base_text(url, w, h, format, None, fit, exp);
            let k = (absent.len() - decimal(exp as nat).len() - 1 - opt_text(fit).len() - 1) as int;
            base_text(url, w, h, format, Some(vq), fit, exp) == absent.take(k) + decimal(
                vq as nat,
            ) + absent.skip(k)
        }),
{
    let front = url + bar() + opt_u32_text(w) + bar() + opt_u32_text(h) + bar() + opt_text(format)
        + bar();
    let rest = bar() + opt_text(fit) + bar() + decimal(exp as nat);
    let absent = base_text(url, w, h, format, None, fit, exp);
    let k = (absent.len() - decimal(exp as nat).len() - 1 - opt_text(fit).len() - 1) as int;
    assert(absent =~= front + rest);
    assert(k == front.len());
    assert(absent.take(k as int) =~= front);
    assert(absent.skip(k as int) =~= rest);
    assert(base_text(url, w, h, format, Some(vq), fit, exp) =~= front + decimal(vq as nat) + rest);
}

proof fn lemma_signed_fit_slot(
    url: Seq<char>,
    w: Option<u32>,
    h: Option<u32>,
    format: Option<Seq<char>>,
    q: Option<u8>,
    exp: u64,
    t: Seq<char>,
)
    ensures
        ({
            let absent = base_text(url, w, h, format, q, None, exp);
            let k = (absent.len() - decimal(exp as nat).len() - 1) as int;
            base_text(url, w, h, format, q, Some(t), exp) == absent.take(k) + t + absent.skip(k)
        }),
{
    let front = url + bar() + opt_u32_text(w) + bar() + opt_u32_text(h) + bar() + opt_text(format)
        + bar() + opt_u8_text(q) + bar();
    let rest = bar() + decimal(exp as nat);
    let absent = base_text(url, w, h, format, q, None, exp);
    let k = (absent.len() - decimal(exp as nat).len() - 1) as int;
    assert(absent =~= front + rest);
    assert(k == front.len());
    assert(absent.take(k as int) =~= front);
    assert(absent.skip(k as int) =~= rest);
    assert(base_text(url, w, h, format, q, Some(t), exp) =~= front + t + rest);
}

/// Different optional numbers are written differently.
pub proof fn lemma_opt_u32_text_injective(a: Option<u32>, b: Option<u32>)
    requires
        opt_u32_text(a) == opt_u32_text(b),
    ensures
        a == b,
{
    match (a, b) {
        (Some(x), Some(y)) => lemma_decimal_injective(x as nat, y as nat),
        (Some(x), None) => lemma_decimal_nonempty(x as nat),
        (None, Some(y)) => lemma_decimal_nonempty(y as nat),
        (None, None) => {},
    }
}

proof fn lemma_opt_u8_text_injective(a: Option<u8>, b: Option<u8>)
    requires
        opt_u8_text(a) == opt_u8_text(b),
    ensures
        a == b,
{
    match (a, b) {
        (Some(x), Some(y)) => lemma_decimal_injective(x as nat, y as nat),
        (Some(x), None) => lemma_decimal_nonempty(x as nat),
        (None, Some(y)) => lemma_decimal_nonempty(y as nat),
        (None, None) => {},
    }
}

/// Two requests that differ in exactly one signed field. An absent format
/// or fit and an empty one are written alike, so for those two fields the
/// written texts must differ.
pub open spec fn differ_in_one_field(
    url1: Seq<char>,
    w1: Option<u32>,
    h1: Option<u32>,
    format1: Option<Seq<char>>,
    q1: Option<u8>,
    fit1: Option<Seq<char>>,
    exp1: u64,
    url2: Seq<char>,
    w2: Option<u32>,
    h2: Option<u32>,
    format2: Option<Seq<char>>,
    q2: Option<u8>,
    fit2: Option<Seq<char>>,
    exp2: u64,
) -> bool {
    let same_url = url1 == url2;
    let same_w = w1 == w2;
    let same_h = h1 == h2;
    let same_format = opt_text(format1) == opt_text(format2);
    let same_q = q1 == q2;
    let same_fit = opt_text(fit1) == opt_text(fit2);
    let same_exp = exp1 == exp2;
    ||| !same_url && same_w && same_h && same_format && same_q && same_fit && same_exp
    ||| same_url && !same_w && same_h && same_format && same_q && same_fit && same_exp
    ||| same_url && same_w && !same_h && same_format && same_q && same_fit && same_exp
    ||| same_url && same_w && same_h && !same_format && same_q && same_fit && same_exp
    ||| same_url && same_w && same_h && same_format && !same_q && same_fit && same_exp
    ||| same_url && same_w && same_h && same_format && same_q && !same_fit && same_exp
    ||| same_url && same_w && same_h && same_format && same_q && same_fit && !same_exp
}

/// Changing one signed field changes the signed bytes, so a signature made
/// before the change is accepted after it only if HMAC-SHA256 gives both
/// byte strings the same tag.
pub proof fn lemma_tampered_field_changes_signed_bytes(
    url1: Seq<char>,
    w1: Option<u32>,
    h1: Option<u32>,
    format1: Option<Seq<char>>,
    q1: Option<u8>,
    fit1: Option<Seq<char>>,
    exp1: u64,
    url2: Seq<char>,
    w2: Option<u32>,
    h2: Option<u32>,
    format2: Option<Seq<char>>,
    q2: Option<u8>,
    fit2: Option<Seq<char>>,
    exp2: u64,
)
    requires
        differ_in_one_field(
            url1,
            w1,
            h1,
            format1,
            q1,
            fit1,
            exp1,
            url2,
            w2,
            h2,
            format2,
            q2,
            fit2,
            exp2,
        ),
    ensures
        encode_utf8(base_text(url1, w1, h1, format1, q1, fit1, exp1)) != encode_utf8(
            base_text(url2, w2, h2, format2, q2, fit2, exp2),
        ),
{
    broadcast use vstd::utf8::encode_utf8_decode_utf8;

    let t1 = base_text(url1, w1, h1, format1, q1, fit1, exp1);
    let t2 = base_text(url2, w2, h2, format2, q2, fit2, exp2);
    if t1 == t2 {
        lemma_joined_fields_determine_each(
            url1,
            opt_u32_text(w1),
            opt_u32_text(h1),
            opt_text(format1),
            opt_u8_text(q1),
            opt_text(fit1),
            decimal(exp1 as nat),
            url2,
            opt_u32_text(w2),
            opt_u32_text(h2),
            opt_text(format2),
            opt_u8_text(q2),
            opt_text(fit2),
            decimal(exp2 as nat),
        );
        if w1 != w2 {
            lemma_opt_u32_text_injective(w1, w2);
        }
        if h1 != h2 {
            lemma_opt_u32_text_injective(h1, h2);
        }
        if q1 != q2 {
            lemma_opt_u8_text_injective(q1, q2);
        }
        if exp1 != exp2 {
            lemma_decimal_injective(exp1 as nat, exp2 as nat);
        }
    }
    assert(vstd::utf8::decode_utf8(encode_utf8(t1)) == t1);
    assert(vstd::utf8::decode_utf8(encode_utf8(t2)) == t2);
}

/// Seven texts joined by the separator.
pub open spec fn joined(
    u: Seq<char>,
    a: Seq<char>,
    b: Seq<char>,
    c: Seq<char>,
    d: Seq<char>,
    f: Seq<char>,
    e: Seq<char>,
) -> Seq<char> {
    u + bar() + a + bar() + b + bar() + c + bar() + d + bar() + f + bar() + e
}

/// When two joins are equal and six of their parts are, so is the seventh.
proof fn lemma_joined_fields_determine_each(
    u1: Seq<char>,
    a1: Seq<char>,
    b1: Seq<char>,
    c1: Seq<char>,
    d1: Seq<char>,
    f1: Seq<char>,
    e1: Seq<char>,
    u2: Seq<char>,
    a2: Seq<char>,
    b2: Seq<char>,
    c2: Seq<char>,
    d2: Seq<char>,
    f2: Seq<char>,
    e2: Seq<char>,
)
    requires
        joined(u1, a1, b1, c1, d1, f1, e1) == joined(u2, a2, b2, c2, d2, f2, e2),
    ensures
        (a1 == a2 && b1 == b2 && c1 == c2 && d1 == d2 && f1 == f2 && e1 == e2) ==> u1 == u2,
        (u1 == u2 && b1 == b2 && c1 == c2 && d1 == d2 && f1 == f2 && e1 == e2) ==> a1 == a2,
        (u1 == u2 && a1 == a2 && c1 == c2 && d1 == d2 && f1 == f2 && e1 == e2) ==> b1 == b2,
        (u1 == u2 && a1 == a2 && b1 == b2 && d1 == d2 && f1 == f2 && e1 == e2) ==> c1 == c2,
        (u1 == u2 && a1 == a2 && b1 == b2 && c1 == c2 && f1 == f2 && e1 == e2) ==> d1 == d2,
        (u1 == u2 && a1 == a2 && b1 == b2 && c1 == c2 && d1 == d2 && e1 == e2) ==> f1 == f2,
        (u1 == u2 && a1 == a2 && b1 == b2 && c1 == c2 && d1 == d2 && f1 == f2) ==> e1 == e2,
{
    let s = bar();
    let empty = Seq::<char>::empty();
    let t1 = joined(u1, a1, b1, c1, d1, f1, e1);
    let t2 = joined(u2, a2, b2, c2, d2, f2, e2);
    if a1 == a2 && b1 == b2 && c1 == c2 && d1 == d2 && f1 == f2 && e1 == e2 {
        let r = s + a1 + s + b1 + s + c1 + s + d1 + s + f1 + s + e1;
        assert(t1 =~= empty + u1 + r);
        assert(t2 =~= empty + u2 + r);
        lemma_cancel_surroundings(empty, u1, u2, r);
    }
    if u1 == u2 && b1 == b2 && c1 == c2 && d1 == d2 && f1 == f2 && e1 == e2 {
        let r = s + b1 + s + c1 + s + d1 + s + f1 + s + e1;
        assert(t1 =~= (u1 + s) + a1 + r);
        assert(t2 =~= (u1 + s) + a2 + r);
        lemma_cancel_surroundings(u1 + s, a1, a2, r);
    }
    if u1 == u2 && a1 == a2 && c1 == c2 && d1 == d2 && f1 == f2 && e1 == e2 {
        let l = u1 + s + a1 + s;
        let r = s + c1 + s + d1 + s + f1 + s + e1;
        assert(t1 =~= l + b1 + r);
        assert(t2 =~= l + b2 + r);
        lemma_cancel_surroundings(l, b1, b2, r);
    }
    if u1 == u2 && a1 == a2 && b1 == b2 && d1 == d2 && f1 == f2 && e1 == e2 {
        let l = u1 + s + a1 + s + b1 + s;
        let r = s + d1 + s + f1 + s + e1;
        assert(t1 =~= l + c1 + r);
        assert(t2 =~= l + c2 + r);
        lemma_cancel_surroundings(l, c1, c2, r);
    }
    if u1 == u2 && a1 == a2 && b1 == b2 && c1 == c2 && f1 == f2 && e1 == e2 {
        let l = u1 + s + a1 + s + b1 + s + c1 + s;
        let r = s + f1 + s + e1;
        assert(t1 =~= l + d1 + r);
        assert(t2 =~= l + d2 + r);
        lemma_cancel_surroundings(l, d1, d2, r);
    }
    if u1 == u2 && a1 == a2 && b1 == b2 && c1 == c2 && d1 == d2 && e1 == e2 {
        let l = u1 + s + a1 + s + b1 + s + c1 + s + d1 + s;
        let r = s + e1;
        assert(t1 =~= l + f1 + r);
        assert(t2 =~= l + f2 + r);
        lemma_cancel_surroundings(l, f1, f2, r);
    }
    if u1 == u2 && a1 == a2 && b1 == b2 && c1 == c2 && d1 == d2 && f1 == f2 {
        let l = u1 + s + a1 + s + b1 + s + c1 + s + d1 + s + f1 + s;
        assert(t1 =~= l + e1 + empty);
        assert(t2 =~= l + e2 + empty);
        lemma_cancel_surroundings(l, e1, e2, empty);
    }
}

} // verus!
