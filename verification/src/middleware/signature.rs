//! The decision taken for a signed request: pass it on or refuse it.

use vstd::prelude::*;

use crate::utils::hexcode::{hex_lower, lemma_hex_round_trip};
use crate::utils::sign::{opt_text, signature_accepts, signature_tag, verify_signature};
use crate::utils::text::{opt_as_str, opt_chars, opt_string_chars};

verus! {

/// The query fields that take part in signature checking.
#[derive(Debug)]
pub struct SignatureParams {
    pub url: Option<String>,
    pub w: Option<u32>,
    pub h: Option<u32>,
    pub format: Option<String>,
    pub q: Option<u8>,
    pub fit: Option<String>,
    pub exp: Option<u64>,
    pub sig: Option<String>,
}

/// The signed query as plain values.
pub struct SignatureParamsView {
    pub url: Option<Seq<char>>,
    pub w: Option<u32>,
    pub h: Option<u32>,
    pub format: Option<Seq<char>>,
    pub q: Option<u8>,
    pub fit: Option<Seq<char>>,
    pub exp: Option<u64>,
    pub sig: Option<Seq<char>>,
}

impl View for SignatureParams {
    type V = SignatureParamsView;

    open spec fn view(&self) -> SignatureParamsView {
        SignatureParamsView {
            url: opt_string_chars(self.url),
            w: self.w,
            h: self.h,
            format: opt_string_chars(self.format),
            q: self.q,
            fit: opt_string_chars(self.fit),
            exp: self.exp,
            sig: opt_string_chars(self.sig),
        }
    }
}

/// What becomes of a request at the signature check.
#[derive(Debug, Clone, Copy, PartialEq, Eq)]
pub enum SignatureCheck {
    /// The request goes on to the handler.
    Pass,
    /// No secret is configured outside development mode.
    NotConfigured,
    /// `exp` or `sig` is absent.
    MissingParameters,
    /// The expiry time lies in the past.
    Expired,
    /// The signature does not match the request.
    InvalidSignature,
}

impl SignatureCheck {
    /// The text sent with a refusal (status 403), or `None` for a pass.
    pub fn rejection_message(&self) -> (r: Option<&'static str>)
        ensures
            r is None <==> *self == SignatureCheck::Pass,
            *self == SignatureCheck::NotConfigured ==> r == Some("CDN not configured"),
            *self == SignatureCheck::MissingParameters ==> r == Some(
                "missing exp or sig parameter",
            ),
            *self == SignatureCheck::Expired ==> r == Some("signature expired"),
            *self == SignatureCheck::InvalidSignature ==> r == Some("invalid signature"),
    {
        match self {
            SignatureCheck::Pass => None,
            SignatureCheck::NotConfigured => Some("CDN not configured"),
            SignatureCheck::MissingParameters => Some("missing exp or sig parameter"),
            SignatureCheck::Expired => Some("signature expired"),
            SignatureCheck::InvalidSignature => Some("invalid signature"),
        }
    }
}

/// The signature check, in order: development mode lets everything
/// through; without a secret everything is refused; `exp` and `sig` must
/// be present; `now` must not be past `exp`; the signature must match the
/// request, an absent URL counting as empty.
pub open spec fn signature_outcome(
    dev_mode: bool,
    secret: Option<Seq<char>>,
    p: SignatureParamsView,
    now: u64,
) -> SignatureCheck {
    if dev_mode {
        SignatureCheck::Pass
    } else {
        match secret {
            None => SignatureCheck::NotConfigured,
            Some(secret) => match (p.exp, p.sig) {
                (Some(exp), Some(sig)) => if now > exp {
                    SignatureCheck::Expired
                } else if signature_accepts(
                    secret,
                    match p.url {
                        Some(u) => u,
                        None => Seq::empty(),
                    },
                    p.w,
                    p.h,
                    p.format,
                    p.q,
                    p.fit,
                    exp,
                    sig,
                ) {
                    SignatureCheck::Pass
                } else {
                    SignatureCheck::InvalidSignature
                },
                _ => SignatureCheck::MissingParameters,
            },
        }
    }
}

/// Decides a signed request; `now` is the current UNIX time in seconds.
pub fn check_signature(
    dev_mode: bool,
    secret: Option<&str>,
    params: &SignatureParams,
    now: u64,
) -> (r: SignatureCheck)
    ensures
        r == signature_outcome(dev_mode, opt_chars(secret), params@, now),
{
    if dev_mode {
        return SignatureCheck::Pass;
    }
    let secret = match secret {
        Some(s) => s,
        None => return SignatureCheck::NotConfigured,
    };
    let (exp, sig) = match (params.exp, opt_as_str(&params.sig)) {
        (Some(exp), Some(sig)) => (exp, sig),
        _ => return SignatureCheck::MissingParameters,
    };
    if now > exp {
        return SignatureCheck::Expired;
    }
    let url = match opt_as_str(&params.url) {
        Some(u) => u,
        None => "",
    };
    proof {
        reveal_strlit("");
    }
    let valid = verify_signature(
        secret,
        url,
        params.w,
        params.h,
        opt_as_str(&params.format),
        params.q,
        opt_as_str(&params.fit),
        exp,
        sig,
    );
    if valid {
        SignatureCheck::Pass
    } else {
        SignatureCheck::InvalidSignature
    }
}


/// Outside development mode, a request passes only if a secret is
/// configured, it carries an expiry that has not passed and a signature,
/// and that signature is the tag of its own parameters under the secret.
pub proof fn lemma_pass_means_signed(
    dev_mode: bool,
    secret: Option<Seq<char>>,
    p: SignatureParamsView,
    now: u64,
)
    requires
        !dev_mode,
        signature_outcome(dev_mode, secret, p, now) == SignatureCheck::Pass,
    ensures
        secret is Some,
        p.exp is Some,
        p.sig is Some,
        now <= p.exp->0,
        signature_accepts(
            secret->0,
            match p.url {
                Some(u) => u,
                None => Seq::empty(),
            },
            p.w,
            p.h,
            p.format,
            p.q,
            p.fit,
            p.exp->0,
            p.sig->0,
        ),
{
}

/// The signature check, case by case, outside development mode (where
/// everything passes): without a secret every request is refused as not
/// configured; with one, a request lacking `exp` or `sig` is refused as
/// incomplete, one whose expiry lies before `now` as expired (a request at
/// its expiry second still counts), and one that carries the hexadecimal tag
/// of its own parameters under the secret (an absent URL signed as empty)
/// passes.
pub proof fn lemma_signature_check_cases(
    dev_mode: bool,
    secret: Option<Seq<char>>,
    p: SignatureParamsView,
    now: u64,
)
    ensures
        dev_mode ==> signature_outcome(dev_mode, secret, p, now) == SignatureCheck::Pass,
        (!dev_mode && secret is None) ==> signature_outcome(dev_mode, secret, p, now)
            == SignatureCheck::NotConfigured,
        (!dev_mode && secret is Some && (p.exp is None || p.sig is None)) ==> signature_outcome(
            dev_mode,
            secret,
            p,
            now,
        ) == SignatureCheck::MissingParameters,
        (!dev_mode && secret is Some && p.exp is Some && p.sig is Some && now > p.exp.unwrap())
            ==> signature_outcome(dev_mode, secret, p, now) == SignatureCheck::Expired,
        (!dev_mode && secret is Some && p.exp is Some && now <= p.exp.unwrap() && p.sig == Some(
            hex_lower(
                signature_tag(
                    secret.unwrap(),
                    opt_text(p.url),
                    p.w,
                    p.h,
                    p.format,
                    p.q,
                    p.fit,
                    p.exp.unwrap(),
                ),
            ),
        )) ==> signature_outcome(dev_mode, secret, p, now) == SignatureCheck::Pass,
{
    if !dev_mode && secret is Some && p.exp is Some {
        lemma_hex_round_trip(
            signature_tag(
                secret.unwrap(),
                opt_text(p.url),
                p.w,
                p.h,
                p.format,
                p.q,
                p.fit,
                p.exp.unwrap(),
            ),
        );
    }
}

} // verus!
