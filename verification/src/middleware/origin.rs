//! Hotlink protection: which origins may embed images.

use vstd::prelude::*;

use crate::utils::text::{opt_chars, starts_with};

verus! {

/// The texts of a list of strings.
pub open spec fn texts(v: Seq<String>) -> Seq<Seq<char>> {
    v.map_values(|s: String| s@)
}

/// Whether a request may proceed: in development mode or with an empty
/// allow list every request may; otherwise the `Origin` header, or the
/// `Referer` header where `Origin` is absent, must start with an allowed
/// origin, and a request with neither is refused.
pub open spec fn origin_permits(
    dev_mode: bool,
    allowed: Seq<Seq<char>>,
    origin: Option<Seq<char>>,
    referer: Option<Seq<char>>,
) -> bool {
    if dev_mode || allowed.len() == 0 {
        true
    } else {
        let source = match origin {
            Some(o) => Some(o),
            None => referer,
        };
        match source {
            Some(o) => exists|i: int| 0 <= i < allowed.len() && (#[trigger] allowed[i]).is_prefix_of(o),
            None => false,
        }
    }
}

/// Decides whether a request passes hotlink protection. `origin` and
/// `referer` are the header values where they are present and readable.
pub fn origin_allowed(
    dev_mode: bool,
    accept_origins: &Vec<String>,
    origin: Option<&str>,
    referer: Option<&str>,
) -> (r: bool)
    ensures
        r == origin_permits(dev_mode, texts(accept_origins@), opt_chars(origin), opt_chars(referer)),
{
    if dev_mode || accept_origins.len() == 0 {
        return true;
    }
    let source = match origin {
        Some(o) => o,
        None => match referer {
            Some(r) => r,
            None => return false,
        },
    };
    let ghost allowed = texts(accept_origins@);
    let n = accept_origins.len();
    let mut i: usize = 0;
    while i < n
        invariant
            n == accept_origins.len(),
            n > 0,
            !dev_mode,
            allowed == texts(accept_origins@),
            Some(source@) == (match opt_chars(origin) {
                Some(o) => Some(o),
                None => opt_chars(referer),
            }),
            i <= n,
            forall|j: int| 0 <= j < i ==> !(#[trigger] allowed[j]).is_prefix_of(source@),
        decreases n - i,
    {
        if starts_with(source, accept_origins[i].as_str()) {
            assert(allowed[i as int] == accept_origins@[i as int]@);
            assert(allowed[i as int].is_prefix_of(source@));
            return true;
        }
        i = i + 1;
    }
    false
}

/// Hotlink protection, case by case: development mode or an empty allow
/// list lets every request through. Otherwise the `Origin` header decides
/// where it is present, and the `Referer` header only where it is absent:
/// the request passes when an allowed origin is a prefix of that header
/// (whatever the other header says), is refused when none is, and is
/// refused when neither header is present.
pub proof fn lemma_origin_rules(
    dev_mode: bool,
    allowed: Seq<Seq<char>>,
    origin: Option<Seq<char>>,
    referer: Option<Seq<char>>,
    i: int,
)
    ensures
        (dev_mode || allowed.len() == 0) ==> origin_permits(dev_mode, allowed, origin, referer),
        (0 <= i < allowed.len() && origin is Some && allowed[i].is_prefix_of(origin.unwrap()))
            ==> origin_permits(dev_mode, allowed, origin, referer),
        (0 <= i < allowed.len() && origin is None && referer is Some && allowed[i].is_prefix_of(
            referer.unwrap(),
        )) ==> origin_permits(dev_mode, allowed, origin, referer),
        (!dev_mode && allowed.len() > 0 && origin is Some && (forall|j: int|
            0 <= j < allowed.len() ==> !(#[trigger] allowed[j]).is_prefix_of(origin.unwrap())))
            ==> !origin_permits(dev_mode, allowed, origin, referer),
        (!dev_mode && allowed.len() > 0 && origin is None && referer is Some && (forall|j: int|
            0 <= j < allowed.len() ==> !(#[trigger] allowed[j]).is_prefix_of(referer.unwrap())))
            ==> !origin_permits(dev_mode, allowed, origin, referer),
        (!dev_mode && allowed.len() > 0 && origin is None && referer is None) ==> !origin_permits(
            dev_mode,
            allowed,
            origin,
            referer,
        ),
{
}

} // verus!
