//! Where a source image comes from, and what an upstream answer must look
//! like to be accepted.

use vstd::prelude::*;

use crate::utils::text::{chars_of, starts_with};

verus! {

/// The two kinds of sources.
#[derive(Debug, Clone, Copy, PartialEq, Eq)]
pub enum SourceKind {
    /// An S3 object, `s3://bucket/key`.
    S3,
    /// Anything else is fetched over HTTP(S).
    Http,
}

/// The S3 URL prefix.
pub open spec fn s3_scheme() -> Seq<char> {
    seq!['s', '3', ':', '/', '/']
}

/// URLs that start with `s3://` name S3 objects; all others are fetched
/// over HTTP.
pub fn source_kind(url: &str) -> (k: SourceKind)
    ensures
        k == (if s3_scheme().is_prefix_of(url@) {
            SourceKind::S3
        } else {
            SourceKind::Http
        }),
{
    proof {
        reveal_strlit("s3://");
    }
    if starts_with(url, "s3://") {
        SourceKind::S3
    } else {
        SourceKind::Http
    }
}

/// An upstream answer is accepted when its status is a success (2xx) and
/// its content type, where given, starts with `image/`; a 404 is reported
/// as a missing image.
pub open spec fn upstream_verdict(
    status: u16,
    status_text: Seq<char>,
    content_type: Option<Seq<char>>,
    url: Seq<char>,
) -> Result<(), Seq<char>> {
    if status == 404 {
        Err("image not found at: "@ + url)
    } else if !(200 <= status <= 299) {
        Err("upstream returned "@ + status_text + " for: "@ + url)
    } else {
        match content_type {
            Some(ct) => if "image/"@.is_prefix_of(ct) {
                Ok(())
            } else {
                Err("upstream returned non-image content-type: "@ + ct)
            },
            None => Ok(()),
        }
    }
}

/// Checks an HTTP answer before its body is read. `status_text` is the
/// status as displayed (code and reason); `content_type` is the header's
/// value where present (empty where it is unreadable).
pub fn check_upstream_response(
    status: u16,
    status_text: &str,
    content_type: Option<&str>,
    url: &str,
) -> (r: Result<(), String>)
    ensures
        match r {
            Ok(()) => upstream_verdict(
                status,
                status_text@,
                crate::utils::text::opt_chars(content_type),
                url@,
            ) == Ok::<(), Seq<char>>(()),
            Err(m) => upstream_verdict(
                status,
                status_text@,
                crate::utils::text::opt_chars(content_type),
                url@,
            ) == Err::<(), Seq<char>>(m@),
        },
{
    if status == 404 {
        let mut m = String::from_str("image not found at: ");
        m.append(url);
        return Err(m);
    }
    if !(200 <= status && status <= 299) {
        let mut m = String::from_str("upstream returned ");
        m.append(status_text);
        m.append(" for: ");
        m.append(url);
        return Err(m);
    }
    if let Some(ct) = content_type {
        if !starts_with(ct, "image/") {
            let mut m = String::from_str("upstream returned non-image content-type: ");
            m.append(ct);
            return Err(m);
        }
    }
    Ok(())
}

/// An upstream answer is accepted only with a success status (2xx, and not
/// 404) and a content type, where there is one, that starts with `image/`;
/// every such answer is accepted; a 404 is reported as a missing image at
/// the URL, and any other non-2xx status names the status and the URL.
pub proof fn lemma_upstream_acceptance(
    status: u16,
    status_text: Seq<char>,
    content_type: Option<Seq<char>>,
    url: Seq<char>,
)
    ensures
        upstream_verdict(status, status_text, content_type, url) is Ok ==> 200 <= status <= 299,
        (upstream_verdict(status, status_text, content_type, url) is Ok && content_type is Some)
            ==> "image/"@.is_prefix_of(content_type.unwrap()),
        (200 <= status <= 299 && (content_type is Some ==> "image/"@.is_prefix_of(
            content_type.unwrap(),
        ))) ==> upstream_verdict(status, status_text, content_type, url) is Ok,
        status == 404 ==> upstream_verdict(status, status_text, content_type, url) == Err::<
            (),
            Seq<char>,
        >("image not found at: "@ + url),
        (status != 404 && !(200 <= status <= 299)) ==> upstream_verdict(
            status,
            status_text,
            content_type,
            url,
        ) == Err::<(), Seq<char>>("upstream returned "@ + status_text + " for: "@ + url),
        (200 <= status <= 299 && content_type is Some && !"image/"@.is_prefix_of(
            content_type.unwrap(),
        )) ==> upstream_verdict(status, status_text, content_type, url) == Err::<(), Seq<char>>(
            "upstream returned non-image content-type: "@ + content_type.unwrap(),
        ),
{
}

/// The part of an S3 URL after the scheme (the whole URL if it lacks it).
pub open spec fn s3_path(url: Seq<char>) -> Seq<char> {
    if s3_scheme().is_prefix_of(url) {
        url.subrange(5, url.len() as int)
    } else {
        url
    }
}

/// `bucket` and `key` split `path` at its first `/`.
pub open spec fn splits_at_first_slash(path: Seq<char>, bucket: Seq<char>, key: Seq<char>) -> bool {
    &&& path == bucket + seq!['/'] + key
    &&& !bucket.contains('/')
}

/// Splits `s3://bucket/key` into bucket and key at the first `/` after the
/// scheme. A URL whose path holds no `/` is refused with a message naming it.
pub fn parse_s3_url(url: &str) -> (r: Result<(String, String), String>)
    ensures
        match r {
            Ok((bucket, key)) => splits_at_first_slash(s3_path(url@), bucket@, key@),
            Err(m) => !s3_path(url@).contains('/') && m@
                == "invalid S3 URL, expected s3://bucket/key: "@ + url@,
        },
{
    proof {
        reveal_strlit("s3://");
    }
    let chars = chars_of(url);
    let n = chars.len();
    let start: usize = if starts_with(url, "s3://") {
        5
    } else {
        0
    };
    let ghost path = s3_path(url@);
    assert(path =~= url@.subrange(start as int, n as int));
    let mut i: usize = start;
    while i < n && chars[i] != '/'
        invariant
            chars@ == url@,
            n == chars.len(),
            start <= i <= n,
            path == url@.subrange(start as int, n as int),
            forall|j: int| start <= j < i ==> url@[j] != '/',
        decreases n - i,
    {
        i = i + 1;
    }
    if i == n {
        assert forall|j: int| 0 <= j < path.len() implies path[j] != '/' by {
            assert(path[j] == url@[start + j]);
        }
        let mut m = String::from_str("invalid S3 URL, expected s3://bucket/key: ");
        m.append(url);
        return Err(m);
    }
    let bucket = url.substring_char(start, i);
    let key = url.substring_char(i + 1, n);
    proof {
        assert(path =~= bucket@ + seq!['/'] + key@);
        assert forall|j: int| 0 <= j < bucket@.len() implies bucket@[j] != '/' by {
            assert(bucket@[j] == url@[start + j]);
        }
    }
    Ok((bucket.to_owned(), key.to_owned()))
}

/// A split at the first `/` is unique: `s3://bucket/key` with a bucket
/// free of `/` gives back exactly that bucket and key.
pub proof fn lemma_s3_split_unique(
    path: Seq<char>,
    bucket1: Seq<char>,
    key1: Seq<char>,
    bucket2: Seq<char>,
    key2: Seq<char>,
)
    requires
        splits_at_first_slash(path, bucket1, key1),
        splits_at_first_slash(path, bucket2, key2),
    ensures
        bucket1 == bucket2,
        key1 == key2,
{
    let l1 = bucket1.len();
    let l2 = bucket2.len();
    if l1 < l2 {
        assert(path[l1 as int] == '/');
        assert(path[l1 as int] == bucket2[l1 as int]);
    } else if l2 < l1 {
        assert(path[l2 as int] == '/');
        assert(path[l2 as int] == bucket1[l2 as int]);
    }
    assert(bucket1 =~= path.subrange(0, l1 as int));
    assert(bucket2 =~= path.subrange(0, l2 as int));
    assert(key1 =~= path.subrange(l1 as int + 1, path.len() as int));
    assert(key2 =~= path.subrange(l2 as int + 1, path.len() as int));
}

/// An S3 URL built from a bucket free of `/` and any key names that bucket
/// and key, and is fetched from S3; a URL without the `s3://` prefix is
/// fetched over HTTP and split as a whole.
pub proof fn lemma_s3_url_round_trip(bucket: Seq<char>, key: Seq<char>, other: Seq<char>)
    requires
        !bucket.contains('/'),
    ensures
        splits_at_first_slash(s3_path("s3://"@ + bucket + seq!['/'] + key), bucket, key),
        s3_scheme().is_prefix_of("s3://"@ + bucket + seq!['/'] + key),
        !"s3://"@.is_prefix_of(other) ==> !s3_scheme().is_prefix_of(other) && s3_path(other)
            == other,
{
    reveal_strlit("s3://");
    let url = "s3://"@ + bucket + seq!['/'] + key;
    assert(s3_scheme() =~= "s3://"@);
    assert(s3_scheme().is_prefix_of(url));
    assert(url.subrange(5, url.len() as int) =~= bucket + seq!['/'] + key);
}

} // verus!
