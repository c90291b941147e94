//! The `thasia://image` protocol: building image URLs, reading them back, and
//! choosing the MIME type of a served file.
use vstd::prelude::*;
use vstd::utf8::encode_utf8;
use crate::paths::{extension, extension_of};
use crate::text::{chars_equal, chars_of};

verus! {

/// Bytes that URL encoding leaves as they are: ASCII letters, digits and `-._~`.
pub open spec fn is_unreserved(b: u8) -> bool {
    ||| (48 <= b <= 57)
    ||| (65 <= b <= 90)
    ||| (97 <= b <= 122)
    ||| b == 45
    ||| b == 46
    ||| b == 95
    ||| b == 126
}

/// Upper-case hexadecimal digit for `d < 16`.
pub open spec fn hex_digit(d: u8) -> char {
    if d < 10 {
        ((d + 48) as u8) as char
    } else {
        ((d + 55) as u8) as char
    }
}

/// Percent-encoding of a byte string: unreserved bytes are kept, every other
/// byte becomes `%` and two upper-case hex digits.
pub open spec fn percent_encoded(bytes: Seq<u8>) -> Seq<char>
    decreases bytes.len(),
{
    if bytes.len() == 0 {
        Seq::empty()
    } else {
        let b = bytes.last();
        let tail = if is_unreserved(b) {
            seq![b as char]
        } else {
            seq!['%', hex_digit(b / 16), hex_digit(b % 16)]
        };
        percent_encoded(bytes.drop_last()) + tail
    }
}

/// Percent-encodes the UTF-8 bytes of `data`.
///
/// Trusted: calls `urlencoding::encode`, whose source keeps ASCII letters,
/// digits and `-._~` and writes every other byte of the UTF-8 encoding as
/// `%` followed by two upper-case hex digits.
#[verifier::external_body]
fn url_encode(data: &str) -> (encoded: String)
    ensures
        encoded@ == percent_encoded(encode_utf8(data@)),
{
    urlencoding::encode(data).into_owned()
}

/// The prefix of every image URL.
pub open spec fn image_url_prefix() -> Seq<char> {
    "thasia://image?path="@
}

/// Builds `thasia://image?path={url-encoded path}` for an absolute path.
pub fn image_url(absolute_path: &str) -> (url: String)
    ensures
        url@ == image_url_prefix() + percent_encoded(encode_utf8(absolute_path@)),
        url@ == image_url_text(absolute_path@),
{
    let mut url = String::from_str("thasia://image?path=");
    let encoded = url_encode(absolute_path);
    url.append(encoded.as_str());
    url
}

/// The decoded `(key, value)` query pairs of `uri` as the `url` crate parses
/// them, or `None` where `uri` is not a URL the crate accepts.
pub uninterp spec fn url_query(uri: Seq<char>) -> Option<Seq<(Seq<char>, Seq<char>)>>;

pub open spec fn pair_view(p: (String, String)) -> (Seq<char>, Seq<char>) {
    (p.0@, p.1@)
}

/// The URL `image_url` builds for a path.
pub open spec fn image_url_text(path: Seq<char>) -> Seq<char> {
    image_url_prefix() + percent_encoded(encode_utf8(path))
}

/// Parses `uri` and lists its query pairs, percent-decoded.
///
/// Trusted: calls `url::Url::parse` and `Url::query_pairs`; the result is
/// named by [`url_query`], a function of `uri` alone. One more fact is
/// claimed, from the crates' source: a URL `thasia://image?path=` followed by
/// the percent-encoded UTF-8 of a text parses (scheme `thasia`, host `image`),
/// keeps that query as written, and `form_urlencoded` splits it into the one
/// pair `("path", text)`, since the encoding leaves no `&`, `=`, `+` or `#`
/// and decoding `%XX` restores the bytes. Nothing else is claimed of URL parsing.
#[verifier::external_body]
fn parse_query_pairs(uri: &str) -> (pairs: Option<Vec<(String, String)>>)
    ensures
        match pairs {
            Some(v) => url_query(uri@) == Some(v@.map_values(|p: (String, String)| pair_view(p))),
            None => url_query(uri@) is None,
        },
        forall|text: Seq<char>|
            uri@ == #[trigger] image_url_text(text) ==> pairs is Some && pairs->0@.map_values(
                |p: (String, String)| pair_view(p),
            ) == seq![("path"@, text)],
{
    match url::Url::parse(uri) {
        Ok(url) => Some(url.query_pairs().into_owned().collect()),
        Err(_) => None,
    }
}

/// The value of the first pair whose key is `key`.
pub open spec fn first_value(pairs: Seq<(Seq<char>, Seq<char>)>, key: Seq<char>) -> Option<Seq<char>>
    decreases pairs.len(),
{
    if pairs.len() == 0 {
        None
    } else if pairs[0].0 == key {
        Some(pairs[0].1)
    } else {
        first_value(pairs.drop_first(), key)
    }
}

proof fn lemma_first_value_step(pairs: Seq<(Seq<char>, Seq<char>)>, key: Seq<char>, i: int)
    requires
        0 <= i < pairs.len(),
        pairs[i].0 != key,
    ensures
        first_value(pairs.skip(i), key) == first_value(pairs.skip(i + 1), key),
{
    assert(pairs.skip(i).drop_first() =~= pairs.skip(i + 1));
}

/// Finds the value of the first query pair named `key`.
pub fn find_query_param(pairs: &Vec<(String, String)>, key: &str) -> (value: Option<String>)
    ensures
        match value {
            Some(v) => first_value(pairs@.map_values(|p: (String, String)| pair_view(p)), key@) == Some(v@),
            None => first_value(pairs@.map_values(|p: (String, String)| pair_view(p)), key@) is None,
        },
{
    let ghost ps = pairs@.map_values(|p: (String, String)| pair_view(p));
    let mut i: usize = 0;
    proof {
        assert(ps.skip(0) =~= ps);
    }
    while i < pairs.len()
        invariant
            i <= pairs@.len(),
            ps == pairs@.map_values(|p: (String, String)| pair_view(p)),
            first_value(ps, key@) == first_value(ps.skip(i as int), key@),
        decreases pairs@.len() - i,
    {
        let k = chars_of(pairs[i].0.as_str());
        if chars_equal(&k, key) {
            let v = pairs[i].1.clone();
            proof {
                assert(ps.skip(i as int)[0] == ps[i as int]);
            }
            return Some(v);
        }
        proof {
            lemma_first_value_step(ps, key@, i as int);
        }
        i = i + 1;
    }
    proof {
        assert(ps.skip(i as int) =~= Seq::<(Seq<char>, Seq<char>)>::empty());
    }
    None
}

/// The `path` query value of an image URL, if the URL parses and has one.
/// Reading back a URL built by `image_url` gives the path it was built from.
pub fn extract_path_param(uri: &str) -> (path: Option<String>)
    ensures
        forall|text: Seq<char>| uri@ == #[trigger] image_url_text(text) ==> path is Some && path->0@ == text,
        match path {
            Some(p) => match url_query(uri@) {
                Some(pairs) => first_value(pairs, "path"@) == Some(p@),
                None => false,
            },
            None => match url_query(uri@) {
                Some(pairs) => first_value(pairs, "path"@) is None,
                None => true,
            },
        },
{
    match parse_query_pairs(uri) {
        None => None,
        Some(pairs) => {
            let found = find_query_param(&pairs, "path");
            proof {
                let ps = pairs@.map_values(|p: (String, String)| pair_view(p));
                assert forall|text: Seq<char>| uri@ == #[trigger] image_url_text(text) implies found is Some
                    && found->0@ == text by {
                    assert(ps == seq![("path"@, text)]);
                    assert(ps[0].0 == "path"@);
                    assert(first_value(ps, "path"@) == Some(text));
                }
            }
            found
        },
    }
}

/// ASCII lower-casing of one character, as a code point.
pub open spec fn ascii_lower(c: char) -> int {
    if 'A' <= c && c <= 'Z' {
        (c as u32) + 32
    } else {
        (c as u32) as int
    }
}

/// Whether `ext`, lower-cased, is the (lower-case ASCII) name `name`.
///
/// ASCII folding agrees with `str::to_lowercase` wherever the result could
/// equal an ASCII name: no other character lower-cases to a lone ASCII letter
/// other than `K` (U+212A KELVIN SIGN), which lowers to `k`, a letter none of the
/// names here holds.
pub open spec fn lowered_is(ext: Seq<char>, name: Seq<char>) -> bool {
    &&& ext.len() == name.len()
    &&& forall|i: int| 0 <= i < ext.len() ==> ascii_lower(#[trigger] ext[i]) == (name[i] as u32) as int
}

/// The MIME type served for a file with extension `ext`.
pub open spec fn mime_for_extension(ext: Option<Seq<char>>) -> Seq<char> {
    match ext {
        Some(e) => if lowered_is(e, "jpg"@) || lowered_is(e, "jpeg"@) {
            "image/jpeg"@
        } else if lowered_is(e, "png"@) {
            "image/png"@
        } else if lowered_is(e, "webp"@) {
            "image/webp"@
        } else if lowered_is(e, "avif"@) {
            "image/avif"@
        } else {
            "application/octet-stream"@
        },
        None => "application/octet-stream"@,
    }
}

fn lowered_matches(ext: &Vec<char>, name: &str) -> (m: bool)
    ensures
        m == lowered_is(ext@, name@),
{
    let n = chars_of(name);
    if ext.len() != n.len() {
        return false;
    }
    let mut i: usize = 0;
    while i < ext.len()
        invariant
            ext@.len() == n@.len(),
            n@ == name@,
            i <= ext@.len(),
            forall|k: int| 0 <= k < i ==> ascii_lower(#[trigger] ext@[k]) == (n@[k] as u32) as int,
        decreases ext@.len() - i,
    {
        let c = ext[i];
        let lower: u32 = if 'A' <= c && c <= 'Z' { (c as u32) + 32 } else { c as u32 };
        if lower != n[i] as u32 {
            return false;
        }
        i = i + 1;
    }
    true
}

/// The MIME type for the file at `path`, chosen by its extension ignoring case.
pub fn mime_for_path(path: &str) -> (mime: &'static str)
    ensures
        mime@ == mime_for_extension(extension(path@)),
{
    match extension_of(path) {
        None => "application/octet-stream",
        Some(e) => {
            let ext = chars_of(e.as_str());
            if lowered_matches(&ext, "jpg") || lowered_matches(&ext, "jpeg") {
                "image/jpeg"
            } else if lowered_matches(&ext, "png") {
                "image/png"
            } else if lowered_matches(&ext, "webp") {
                "image/webp"
            } else if lowered_matches(&ext, "avif") {
                "image/avif"
            } else {
                "application/octet-stream"
            }
        },
    }
}

/// What reading the requested file gave.
#[derive(Clone, Debug)]
pub enum FileLookup {
    /// No file exists at the path.
    NotFound,
    /// The file exists but could not be read.
    ReadFailed,
    /// The file's bytes.
    Contents(Vec<u8>),
}

/// The body of a protocol response.
#[derive(Clone, Debug)]
pub enum ResponseBody {
    /// A short plain-text explanation of an error.
    Message(&'static str),
    /// The requested file's bytes.
    File(Vec<u8>),
}

/// A response of the image protocol: status, body, `Content-Type` header
/// when there is one, and the `Access-Control-Allow-Origin` header.
#[derive(Clone, Debug)]
pub struct ProtocolResponse {
    pub status: u16,
    pub body: ResponseBody,
    pub content_type: Option<&'static str>,
    pub allow_origin: &'static str,
}

/// Every response of the image protocol allows any origin.
pub open spec fn allows_any_origin(response: ProtocolResponse) -> bool {
    response.allow_origin@ == "*"@
}

/// Whether a response is the plain error with the given status and message.
pub open spec fn is_error_response(response: ProtocolResponse, status: u16, message: Seq<char>) -> bool {
    &&& response.status == status
    &&& response.body matches ResponseBody::Message(m) && m@ == message
    &&& response.content_type is None
    &&& allows_any_origin(response)
}

/// The path an image request asks for, or the `400` response for a request
/// without one.
pub fn requested_path(uri: &str) -> (result: Result<String, ProtocolResponse>)
    ensures
        match url_query(uri@) {
            Some(pairs) => match first_value(pairs, "path"@) {
                Some(p) => result is Ok && result->Ok_0@ == p,
                None => result is Err && is_error_response(result->Err_0, 400, "missing path param"@),
            },
            None => result is Err && is_error_response(result->Err_0, 400, "missing path param"@),
        },
{
    match extract_path_param(uri) {
        Some(path) => Ok(path),
        None => Err(ProtocolResponse { status: 400, body: ResponseBody::Message("missing path param"), content_type: None, allow_origin: "*" }),
    }
}

/// The response for the file at `path`: `404` when it does not exist, `500`
/// when it cannot be read, otherwise its bytes with the MIME type of its extension.
pub fn file_response(path: &str, lookup: FileLookup) -> (response: ProtocolResponse)
    ensures
        match lookup {
            FileLookup::NotFound => is_error_response(response, 404, "file not found"@),
            FileLookup::ReadFailed => is_error_response(response, 500, "read error"@),
            FileLookup::Contents(bytes) => {
                &&& response.status == 200
                &&& response.body matches ResponseBody::File(b) && b@ == bytes@
                &&& response.content_type is Some && response.content_type->0@ == mime_for_extension(extension(path@))
                &&& allows_any_origin(response)
            },
        },
{
    match lookup {
        FileLookup::NotFound => ProtocolResponse { status: 404, body: ResponseBody::Message("file not found"), content_type: None, allow_origin: "*" },
        FileLookup::ReadFailed => ProtocolResponse { status: 500, body: ResponseBody::Message("read error"), content_type: None, allow_origin: "*" },
        FileLookup::Contents(bytes) => ProtocolResponse {
            status: 200,
            body: ResponseBody::File(bytes),
            content_type: Some(mime_for_path(path)),
            allow_origin: "*",
        },
    }
}

} // verus!
