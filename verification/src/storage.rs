//! S3-compatible media storage settings (local, TOS, COS, OSS): validation,
//! the URLs of stored objects, the object key behind such a URL, and the
//! request-signing key.

use hmac::Mac;
use vstd::prelude::*;
use vstd::utf8::encode_utf8;

use crate::error::{AppError, AppErrorView};
use crate::json::{lookup, str_eq, Entries, Json};
use crate::text::{
    chars_of, concat, concat3, contains, contains_text, decimal, decimal_text, has_prefix,
    lowered, starts_with, string_of, to_lower, trim, trim_char, trim_end_char, trimmed,
    strip_end, strip_start,
};

verus! {

/// A validated storage configuration.
#[derive(Debug)]
pub struct StorageConfig {
    pub provider: String,
    pub endpoint: String,
    pub bucket: String,
    pub region_name: String,
    pub secret_id: String,
    pub secret_key: String,
    pub prefix: String,
    pub public_base_url: String,
}

impl StorageConfig {
    /// The signing region: the configured one, or `us-east-1`.
    pub fn region(&self) -> (r: String)
        ensures
            r@ == if self.region_name@.len() == 0 {
                "us-east-1"@
            } else {
                self.region_name@
            },
    {
        if chars_of(self.region_name.as_str()).len() == 0 {
            "us-east-1".to_owned()
        } else {
            self.region_name.clone()
        }
    }

    /// The virtual-hosted host of the bucket: `host` itself when it already
    /// starts with the bucket (compared in lower case), else `bucket.host`.
    pub fn bucket_host(&self, host: &str) -> (r: String)
        ensures
            r@ == bucket_host_of(self.bucket@, host@),
    {
        let lower_host = to_lower(host);
        let lower_bucket = to_lower(self.bucket.as_str());
        let lead = concat(lower_bucket.as_str(), ".");
        if starts_with(lower_host.as_str(), lead.as_str()) {
            host.to_owned()
        } else {
            concat3(self.bucket.as_str(), ".", host)
        }
    }
}

/// The virtual-hosted host of `bucket` on `host`.
pub open spec fn bucket_host_of(bucket: Seq<char>, host: Seq<char>) -> Seq<char> {
    if has_prefix(lowered(host), lowered(bucket) + "."@) {
        host
    } else {
        bucket + "."@ + host
    }
}

/// An upper-case hexadecimal digit.
pub open spec fn hex_char(d: int) -> char {
    if d < 10 {
        (('0' as int) + d) as char
    } else {
        (('A' as int) + d - 10) as char
    }
}

/// A byte that form encoding writes as itself: ASCII letters, digits and `*-._`.
pub open spec fn form_unreserved(b: u8) -> bool {
    (0x30 <= b && b <= 0x39) || (0x41 <= b && b <= 0x5a) || (0x61 <= b && b <= 0x7a) || b == 0x2a
        || b == 0x2d || b == 0x2e || b == 0x5f
}

/// What `application/x-www-form-urlencoded` byte serialization writes for one byte.
pub open spec fn byte_form(b: u8) -> Seq<char> {
    if form_unreserved(b) {
        seq![b as char]
    } else if b == 0x20 {
        seq!['+']
    } else {
        seq!['%', hex_char(b as int / 16), hex_char(b as int % 16)]
    }
}

/// Form serialization of a byte string.
pub open spec fn form_serialized(bytes: Seq<u8>) -> Seq<char>
    decreases bytes.len(),
{
    if bytes.len() == 0 {
        Seq::empty()
    } else {
        form_serialized(bytes.drop_last()) + byte_form(bytes.last())
    }
}

/// What an object key byte becomes in a URL path: `/` stays, a space is
/// `%20`, any other byte is form encoded.
pub open spec fn path_byte(b: u8) -> Seq<char> {
    if b == 0x2f {
        seq!['/']
    } else if b == 0x20 {
        seq!['%', '2', '0']
    } else {
        byte_form(b)
    }
}

/// An object key's bytes encoded for a URL path.
pub open spec fn path_encoded(bytes: Seq<u8>) -> Seq<char>
    decreases bytes.len(),
{
    if bytes.len() == 0 {
        Seq::empty()
    } else {
        path_encoded(bytes.drop_last()) + path_byte(bytes.last())
    }
}

/// `url::form_urlencoded::byte_serialize` collected into a text: each byte
/// of `*-._`, ASCII letters and digits as itself, a space as `+`, any other
/// byte as `%` and two upper-case hexadecimal digits.
#[verifier::external_body]
fn form_serialize(bytes: &[u8]) -> (r: String)
    ensures
        r@ == form_serialized(bytes@),
{
    url::form_urlencoded::byte_serialize(bytes).collect::<String>()
}

/// `s` with every `+` written as `%20`.
pub open spec fn plus_as_space(s: Seq<char>) -> Seq<char>
    decreases s.len(),
{
    if s.len() == 0 {
        s
    } else {
        plus_as_space(s.drop_last()) + if s.last() == '+' {
            seq!['%', '2', '0']
        } else {
            seq![s.last()]
        }
    }
}

proof fn lemma_plus_as_space_concat(a: Seq<char>, b: Seq<char>)
    ensures
        plus_as_space(a + b) == plus_as_space(a) + plus_as_space(b),
    decreases b.len(),
{
    if b.len() == 0 {
        assert(a + b =~= a);
        assert(plus_as_space(b) =~= Seq::<char>::empty());
    } else {
        assert((a + b).drop_last() =~= a + b.drop_last());
        lemma_plus_as_space_concat(a, b.drop_last());
    }
}

proof fn lemma_no_plus(s: Seq<char>)
    requires
        forall|i: int| 0 <= i < s.len() ==> s[i] != '+',
    ensures
        plus_as_space(s) == s,
    decreases s.len(),
{
    if s.len() > 0 {
        let rest = s.drop_last();
        assert forall|i: int| 0 <= i < rest.len() implies rest[i] != '+' by {
            assert(rest[i] == s[i]);
        }
        lemma_no_plus(rest);
        assert(s.last() != '+');
        assert(rest + seq![s.last()] =~= s);
    }
}

proof fn lemma_byte_form_has_no_plus(b: u8)
    requires
        b != 0x20,
    ensures
        plus_as_space(byte_form(b)) == byte_form(b),
{
    let f = byte_form(b);
    if form_unreserved(b) {
        assert(b != 0x2b);
        assert(b as char != '+');
    } else {
        assert(hex_char(b as int / 16) != '+');
        assert(hex_char(b as int % 16) != '+');
    }
    assert forall|i: int| 0 <= i < f.len() implies f[i] != '+' by {}
    lemma_no_plus(f);
}

/// Within one path segment, `path_encoded` is form serialization with `+` written as `%20`.
proof fn lemma_segment_encoding(bytes: Seq<u8>)
    requires
        forall|i: int| 0 <= i < bytes.len() ==> bytes[i] != 0x2f,
    ensures
        path_encoded(bytes) == plus_as_space(form_serialized(bytes)),
    decreases bytes.len(),
{
    if bytes.len() > 0 {
        let rest = bytes.drop_last();
        assert forall|i: int| 0 <= i < rest.len() implies rest[i] != 0x2f by {
            assert(rest[i] == bytes[i]);
        }
        assert(bytes[bytes.len() - 1] != 0x2f);
        lemma_segment_encoding(rest);
        lemma_plus_as_space_concat(form_serialized(rest), byte_form(bytes.last()));
        let b = bytes.last();
        if b == 0x20 {
            assert(byte_form(b) =~= seq!['+']);
            assert(seq!['+'].drop_last() =~= Seq::<char>::empty());
            assert(plus_as_space(Seq::<char>::empty()) =~= Seq::<char>::empty());
            assert(plus_as_space(seq!['+']) =~= seq!['%', '2', '0']);
        } else {
            lemma_byte_form_has_no_plus(b);
        }
    }
}

proof fn lemma_path_encoded_concat(a: Seq<u8>, b: Seq<u8>)
    ensures
        path_encoded(a + b) == path_encoded(a) + path_encoded(b),
    decreases b.len(),
{
    if b.len() == 0 {
        assert(a + b =~= a);
    } else {
        assert((a + b).drop_last() =~= a + b.drop_last());
        lemma_path_encoded_concat(a, b.drop_last());
    }
}

fn write_plus_as_space(s: &str, out: &mut Vec<char>)
    ensures
        final(out)@ == old(out)@ + plus_as_space(s@),
{
    let v = chars_of(s);
    let ghost start = out@;
    let mut i: usize = 0;
    while i < v.len()
        invariant
            i <= v.len(),
            v@ == s@,
            out@ == start + plus_as_space(v@.subrange(0, i as int)),
        decreases v.len() - i,
    {
        proof {
            assert(v@.subrange(0, i + 1).drop_last() =~= v@.subrange(0, i as int));
        }
        if v[i] == '+' {
            out.push('%');
            out.push('2');
            out.push('0');
        } else {
            out.push(v[i]);
        }
        i += 1;
    }
    proof {
        assert(v@.subrange(0, v.len() as int) =~= v@);
    }
}

/// Encode an object key for a URL path: each `/`-separated segment is form
/// encoded and spaces are written as `%20`.
pub fn encode_key(key: &str) -> (r: String)
    ensures
        r@ == path_encoded(encode_utf8(key@)),
{
    let bytes = key.as_bytes();
    let mut out: Vec<char> = Vec::new();
    let mut part: Vec<u8> = Vec::new();
    let mut start: usize = 0;
    let mut i: usize = 0;
    while i < bytes.len()
        invariant
            start <= i <= bytes.len(),
            out@ == path_encoded(bytes@.subrange(0, start as int)),
            part@ == bytes@.subrange(start as int, i as int),
            forall|j: int| 0 <= j < part.len() ==> part@[j] != 0x2f,
        decreases bytes.len() - i,
    {
        if bytes[i] == 0x2f {
            let encoded = form_serialize(part.as_slice());
            write_plus_as_space(encoded.as_str(), &mut out);
            out.push('/');
            proof {
                lemma_segment_encoding(part@);
                lemma_path_encoded_concat(bytes@.subrange(0, start as int), part@);
                assert(bytes@.subrange(0, start as int) + part@ =~= bytes@.subrange(0, i as int));
                assert(bytes@.subrange(0, i + 1).drop_last() =~= bytes@.subrange(0, i as int));
                assert(path_byte(0x2f) =~= seq!['/']);
            }
            part = Vec::new();
            start = i + 1;
            proof {
                assert(part@ =~= bytes@.subrange(start as int, start as int));
            }
        } else {
            part.push(bytes[i]);
            proof {
                assert(part@ =~= bytes@.subrange(start as int, i + 1));
            }
        }
        i += 1;
    }
    let encoded = form_serialize(part.as_slice());
    write_plus_as_space(encoded.as_str(), &mut out);
    proof {
        lemma_segment_encoding(part@);
        lemma_path_encoded_concat(bytes@.subrange(0, start as int), part@);
        assert(bytes@.subrange(0, start as int) + part@ =~= bytes@);
    }
    string_of(out.as_slice())
}

/// The value of an ASCII hexadecimal digit.
pub open spec fn hex_value(b: u8) -> Option<u8> {
    if 0x30 <= b && b <= 0x39 {
        Some((b - 0x30) as u8)
    } else if 0x41 <= b && b <= 0x46 {
        Some((b - 0x41 + 10) as u8)
    } else if 0x61 <= b && b <= 0x66 {
        Some((b - 0x61 + 10) as u8)
    } else {
        None
    }
}

/// What `u8::from_str_radix(.., 16)` reads from two bytes: an optional `+`
/// then one digit, or two digits.
pub open spec fn hex_pair(a: u8, b: u8) -> Option<u8> {
    if a == 0x2b {
        hex_value(b)
    } else {
        match (hex_value(a), hex_value(b)) {
            (Some(x), Some(y)) => Some((x * 16 + y) as u8),
            _ => None,
        }
    }
}

/// A UTF-8 continuation byte, which no character starts with.
pub open spec fn continuation(b: u8) -> bool {
    0x80 <= b && b < 0xc0
}

/// Whether a character starts at byte `k` (or `k` is the end).
pub open spec fn boundary(bytes: Seq<u8>, k: int) -> bool {
    k == bytes.len() || (0 <= k < bytes.len() && !continuation(bytes[k]))
}

/// Decoding from byte `i`: `%` and a hexadecimal pair become that byte, any
/// other byte stands for itself; each result byte becomes the character
/// with that code.
pub open spec fn decoded_from(bytes: Seq<u8>, i: int) -> Seq<char>
    decreases bytes.len() - i,
{
    if i < 0 || i >= bytes.len() {
        Seq::empty()
    } else if bytes[i] == 0x25 && i + 2 < bytes.len() && hex_pair(bytes[i + 1], bytes[i + 2]) is Some {
        seq![hex_pair(bytes[i + 1], bytes[i + 2])->0 as char] + decoded_from(bytes, i + 3)
    } else {
        seq![bytes[i] as char] + decoded_from(bytes, i + 1)
    }
}

/// Decoding reads the two characters after each `%` it meets as a text
/// slice, which needs characters to start at both ends of the slice.
pub open spec fn decodable_from(bytes: Seq<u8>, i: int) -> bool
    decreases bytes.len() - i,
{
    if i < 0 || i >= bytes.len() {
        true
    } else if bytes[i] == 0x25 && i + 2 < bytes.len() {
        boundary(bytes, i + 1) && boundary(bytes, i + 3) && if hex_pair(bytes[i + 1], bytes[i + 2]) is Some {
            decodable_from(bytes, i + 3)
        } else {
            decodable_from(bytes, i + 1)
        }
    } else {
        decodable_from(bytes, i + 1)
    }
}

fn hex_digit_value(b: u8) -> (r: Option<u8>)
    ensures
        r == hex_value(b),
{
    if 0x30 <= b && b <= 0x39 {
        Some(b - 0x30)
    } else if 0x41 <= b && b <= 0x46 {
        Some(b - 0x41 + 10)
    } else if 0x61 <= b && b <= 0x66 {
        Some(b - 0x61 + 10)
    } else {
        None
    }
}

fn read_hex_pair(a: u8, b: u8) -> (r: Option<u8>)
    ensures
        r == hex_pair(a, b),
{
    if a == 0x2b {
        hex_digit_value(b)
    } else {
        match (hex_digit_value(a), hex_digit_value(b)) {
            (Some(x), Some(y)) => Some(x * 16 + y),
            _ => None,
        }
    }
}

/// Percent-decode an object key read from a URL, byte by byte.
pub fn urlencoding_decode(value: &str) -> (r: String)
    requires
        decodable_from(encode_utf8(value@), 0),
    ensures
        r@ == decoded_from(encode_utf8(value@), 0),
{
    let bytes = value.as_bytes();
    let ghost all = bytes@;
    let mut out: Vec<char> = Vec::new();
    let mut index: usize = 0;
    while index < bytes.len()
        invariant
            index <= bytes.len(),
            all == bytes@,
            out@ + decoded_from(all, index as int) == decoded_from(all, 0),
        decreases bytes.len() - index,
    {
        if bytes[index] == 0x25 && bytes.len() - index > 2 {
            if let Some(hex) = read_hex_pair(bytes[index + 1], bytes[index + 2]) {
                proof {
                    assert(decoded_from(all, index as int) == seq![hex as char] + decoded_from(all, index + 3));
                    assert(out@.push(hex as char) + decoded_from(all, index + 3) =~= out@ + decoded_from(all, index as int));
                }
                out.push(hex as char);
                index += 3;
                continue;
            }
        }
        proof {
            assert(decoded_from(all, index as int) == seq![bytes@[index as int] as char] + decoded_from(all, index + 1));
            assert(out@.push(bytes@[index as int] as char) + decoded_from(all, index + 1) =~= out@ + decoded_from(all, index as int));
        }
        out.push(bytes[index] as char);
        index += 1;
    }
    proof {
        assert(decoded_from(all, index as int) =~= Seq::<char>::empty());
        assert(out@ + Seq::<char>::empty() =~= out@);
    }
    string_of(out.as_slice())
}

/// The HMAC-SHA256 tag of `msg` under `key`.
pub uninterp spec fn hmac_sha256(key: Seq<u8>, msg: Seq<u8>) -> Seq<u8>;

/// `Hmac::<Sha256>` over `value`'s bytes with `key`, which accepts keys of
/// every length; the tag is what `hmac_sha256` names.
#[verifier::external_body]
fn hmac_bytes(key: &[u8], value: &str) -> (r: Vec<u8>)
    ensures
        r@ == hmac_sha256(key@, encode_utf8(value@)),
{
    let mut mac = hmac::Hmac::<sha2::Sha256>::new_from_slice(key).expect("HMAC accepts every key length");
    mac.update(value.as_bytes());
    mac.finalize().into_bytes().to_vec()
}

/// The request-signing key of AWS signature version 4, chained from the
/// secret through the day, region, service and `aws4_request`, then applied to `value`.
pub open spec fn signing_key_of(secret: Seq<u8>, day: Seq<u8>, region: Seq<u8>, service: Seq<u8>, terminal: Seq<u8>, value: Seq<u8>) -> Seq<u8> {
    let date = hmac_sha256(secret, day);
    let region_key = hmac_sha256(date, region);
    let service_key = hmac_sha256(region_key, service);
    let signing = hmac_sha256(service_key, terminal);
    hmac_sha256(signing, value)
}

/// Derive the signature of `value` from a storage secret, as signature version 4 asks.
pub fn signing_key(secret: &str, day: &str, region: &str, service: &str, value: &str) -> (r: Vec<u8>)
    ensures
        r@ == signing_key_of(
            encode_utf8("AWS4"@ + secret@),
            encode_utf8(day@),
            encode_utf8(region@),
            encode_utf8(service@),
            encode_utf8("aws4_request"@),
            encode_utf8(value@),
        ),
{
    let seed = concat("AWS4", secret);
    let date = hmac_bytes(seed.as_str().as_bytes(), day);
    let region_key = hmac_bytes(date.as_slice(), region);
    let service_key = hmac_bytes(region_key.as_slice(), service);
    let signing = hmac_bytes(service_key.as_slice(), "aws4_request");
    hmac_bytes(signing.as_slice(), value)
}

/// The parts of a parsed URL that the storage rules read.
#[derive(Debug)]
pub struct UrlParts {
    pub scheme: String,
    pub host: Option<String>,
    pub port: Option<u16>,
    pub path: String,
}

/// Scheme, host, explicit non-default port and path of a URL.
pub type UrlView = (Seq<char>, Option<Seq<char>>, Option<u16>, Seq<char>);

pub open spec fn url_view(u: UrlParts) -> UrlView {
    (
        u.scheme@,
        match u.host {
            Some(h) => Some(h@),
            None => None,
        },
        u.port,
        u.path@,
    )
}

pub open spec fn opt_url_view(u: Option<UrlParts>) -> Option<UrlView> {
    match u {
        Some(p) => Some(url_view(p)),
        None => None,
    }
}

/// What `url::Url::parse` reads from `text`: its scheme, host, port and
/// path, or `None` when the text is not a URL.
pub uninterp spec fn url_parts(text: Seq<char>) -> Option<UrlView>;

/// `url::Url::parse`, keeping `scheme()`, `host_str()`, `port()` and
/// `path()`; the parts are what `url_parts` names.
#[verifier::external_body]
fn parse_url(text: &str) -> (r: Option<UrlParts>)
    ensures
        opt_url_view(r) == url_parts(text@),
{
    match url::Url::parse(text) {
        Ok(url) => Some(UrlParts {
            scheme: url.scheme().to_owned(),
            host: url.host_str().map(str::to_owned),
            port: url.port(),
            path: url.path().to_owned(),
        }),
        Err(_) => None,
    }
}

/// The message for an endpoint that is not an HTTP(S) URL.
pub open spec fn bad_endpoint() -> AppErrorView {
    AppErrorView::BadRequest("storage endpoint 必须是有效 HTTP(S) URL"@)
}

/// The endpoint text before parsing: trimmed, without trailing `/`, and
/// with `https://` in front when it names no scheme.
pub open spec fn endpoint_candidate(value: Seq<char>) -> Seq<char> {
    let e = strip_end(trimmed(value), '/');
    if contains_text(e, "://"@) {
        e
    } else {
        "https://"@ + e
    }
}

/// `":{port}"` for an explicit port, else nothing.
pub open spec fn port_suffix(port: Option<u16>) -> Seq<char> {
    match port {
        Some(n) => ":"@ + decimal(n as int),
        None => Seq::empty(),
    }
}

/// `host` without a leading `bucket.`.
pub open spec fn without_bucket(host: Seq<char>, bucket: Seq<char>) -> Seq<char> {
    if has_prefix(host, bucket + "."@) {
        host.subrange(bucket.len() as int + 1, host.len() as int)
    } else {
        host
    }
}

/// A storage endpoint in canonical form: `scheme://host[:port][/path]`
/// without a bucket in front of the host and without trailing `/`; an empty
/// endpoint stays empty.
pub open spec fn normalised_endpoint(value: Seq<char>, bucket: Seq<char>) -> Result<Seq<char>, AppErrorView> {
    if strip_end(trimmed(value), '/').len() == 0 {
        Ok(Seq::empty())
    } else {
        match url_parts(endpoint_candidate(value)) {
            None => Err(bad_endpoint()),
            Some((scheme, host, port, path)) => if !(scheme == "http"@ || scheme == "https"@) || host is None {
                Err(bad_endpoint())
            } else {
                Ok(strip_end(
                    scheme + "://"@ + without_bucket(host->0, bucket) + port_suffix(port) + strip_end(path, '/'),
                    '/',
                ))
            },
        }
    }
}

fn port_text(port: Option<u16>) -> (r: String)
    ensures
        r@ == port_suffix(port),
{
    match port {
        Some(n) => {
            let digits = decimal_text(n as i64);
            concat(":", digits.as_str())
        },
        None => String::new(),
    }
}

/// Bring a storage endpoint into canonical form, or refuse it.
pub fn normalise_endpoint(value: &str, bucket: &str) -> (r: Result<String, AppError>)
    ensures
        match r {
            Ok(e) => normalised_endpoint(value@, bucket@) == Ok::<Seq<char>, AppErrorView>(e@),
            Err(e) => normalised_endpoint(value@, bucket@) == Err::<Seq<char>, AppErrorView>(e@),
        },
{
    let trimmed_value = trim(value);
    let mut endpoint = trim_end_char(trimmed_value.as_str(), '/');
    if chars_of(endpoint.as_str()).len() == 0 {
        proof {
            assert(endpoint@ =~= Seq::<char>::empty());
        }
        return Ok(endpoint);
    }
    if !contains(endpoint.as_str(), "://") {
        endpoint = concat("https://", endpoint.as_str());
    }
    let url = match parse_url(endpoint.as_str()) {
        Some(url) => url,
        None => {
            return Err(AppError::bad_request("storage endpoint 必须是有效 HTTP(S) URL"));
        },
    };
    let host = match &url.host {
        Some(h) => h,
        None => {
            return Err(AppError::bad_request("storage endpoint 必须是有效 HTTP(S) URL"));
        },
    };
    if !str_eq(url.scheme.as_str(), "http") && !str_eq(url.scheme.as_str(), "https") {
        return Err(AppError::bad_request("storage endpoint 必须是有效 HTTP(S) URL"));
    }
    let lead = concat(bucket, ".");
    proof {
        reveal_strlit(".");
    }
    let bare_host = if starts_with(host.as_str(), lead.as_str()) {
        let chars = chars_of(host.as_str());
        let rest = crate::text::slice_chars(&chars, chars_of(lead.as_str()).len(), chars.len());
        string_of(rest.as_slice())
    } else {
        host.clone()
    };
    let port = port_text(url.port);
    let path = trim_end_char(url.path.as_str(), '/');
    let a = concat3(url.scheme.as_str(), "://", bare_host.as_str());
    let b = concat3(a.as_str(), port.as_str(), path.as_str());
    Ok(trim_end_char(b.as_str(), '/'))
}

/// The names of the empty required fields, in the order they are reported.
pub open spec fn missing_fields(endpoint: Seq<char>, bucket: Seq<char>, secret_id: Seq<char>, secret_key: Seq<char>) -> Seq<Seq<char>> {
    (if endpoint.len() == 0 { seq!["endpoint"@] } else { Seq::empty() })
        + (if bucket.len() == 0 { seq!["bucket"@] } else { Seq::empty() })
        + (if secret_id.len() == 0 { seq!["secret_id"@] } else { Seq::empty() })
        + (if secret_key.len() == 0 { seq!["secret_key"@] } else { Seq::empty() })
}

/// Texts joined with `", "`.
pub open spec fn join_comma(items: Seq<Seq<char>>) -> Seq<char>
    decreases items.len(),
{
    if items.len() == 0 {
        Seq::empty()
    } else if items.len() == 1 {
        items[0]
    } else {
        join_comma(items.drop_last()) + ", "@ + items.last()
    }
}

/// The view of a storage configuration's fields, in declaration order.
pub open spec fn config_view(c: StorageConfig) -> Seq<Seq<char>> {
    seq![
        c.provider@,
        c.endpoint@,
        c.bucket@,
        c.region_name@,
        c.secret_id@,
        c.secret_key@,
        c.prefix@,
        c.public_base_url@,
    ]
}

/// The storage configuration that a settings document describes, or why it is refused.
pub open spec fn storage_from(values: Entries) -> Result<Seq<Seq<char>>, AppErrorView> {
    let provider = lowered(crate::forms::text_at(values, "provider"@, "local"@));
    let bucket = crate::forms::text_at(values, "bucket"@, ""@);
    if !(provider == "local"@ || provider == "tos"@ || provider == "cos"@ || provider == "oss"@) {
        Err(AppErrorView::BadRequest("storage provider must be one of: local, tos, cos, oss"@))
    } else {
        match normalised_endpoint(crate::forms::text_at(values, "endpoint"@, ""@), bucket) {
            Err(e) => Err(e),
            Ok(endpoint) => {
                let secret_id = crate::forms::text_at(values, "secret_id"@, ""@);
                let secret_key = crate::forms::text_at(values, "secret_key"@, ""@);
                let missing = missing_fields(endpoint, bucket, secret_id, secret_key);
                if provider != "local"@ && missing.len() > 0 {
                    Err(AppErrorView::BadRequest(provider + " storage requires: "@ + join_comma(missing)))
                } else {
                    Ok(seq![
                        provider,
                        endpoint,
                        bucket,
                        crate::forms::text_at(values, "region"@, ""@),
                        secret_id,
                        secret_key,
                        strip_end(strip_start(crate::forms::text_at(values, "prefix"@, "media"@), '/'), '/'),
                        strip_end(crate::forms::text_at(values, "public_base_url"@, ""@), '/'),
                    ])
                }
            },
        }
    }
}

fn add_missing(joined: String, count: usize, empty: bool, name: &str, names: Ghost<Seq<Seq<char>>>) -> (r: (String, usize))
    requires
        count == names@.len(),
        count < 4,
        joined@ == join_comma(names@),
    ensures
        r.1 == (if empty { names@.push(name@) } else { names@ }).len(),
        r.0@ == join_comma(if empty { names@.push(name@) } else { names@ }),
{
    if !empty {
        return (joined, count);
    }
    let next = if count == 0 {
        name.to_owned()
    } else {
        concat3(joined.as_str(), ", ", name)
    };
    proof {
        let pushed = names@.push(name@);
        assert(pushed.drop_last() =~= names@);
        if count == 0 {
            assert(pushed.len() == 1);
        }
    }
    (next, count + 1)
}

impl StorageConfig {
    /// Validate a storage settings document: the provider (compared in
    /// lower case) must be local, TOS, COS or OSS; the endpoint is brought
    /// into canonical form; a remote provider needs an endpoint, a bucket and
    /// both secrets; the prefix loses surrounding `/` and the public base URL
    /// trailing `/`.
    pub fn from_values(values: &Vec<(String, Json)>) -> (r: Result<StorageConfig, AppError>)
        ensures
            match r {
                Ok(c) => storage_from(crate::json::view_entries(values@)) == Ok::<Seq<Seq<char>>, AppErrorView>(config_view(c)),
                Err(e) => storage_from(crate::json::view_entries(values@)) == Err::<Seq<Seq<char>>, AppErrorView>(e@),
            },
    {
        let raw_provider = crate::forms::text_value(values, "provider", "local");
        let provider = to_lower(raw_provider.as_str());
        if !str_eq(provider.as_str(), "local") && !str_eq(provider.as_str(), "tos") && !str_eq(
            provider.as_str(),
            "cos",
        ) && !str_eq(provider.as_str(), "oss") {
            return Err(AppError::bad_request("storage provider must be one of: local, tos, cos, oss"));
        }
        let bucket = crate::forms::text_value(values, "bucket", "");
        let raw_endpoint = crate::forms::text_value(values, "endpoint", "");
        let endpoint = match normalise_endpoint(raw_endpoint.as_str(), bucket.as_str()) {
            Ok(e) => e,
            Err(e) => {
                return Err(e);
            },
        };
        let region_name = crate::forms::text_value(values, "region", "");
        let secret_id = crate::forms::text_value(values, "secret_id", "");
        let secret_key = crate::forms::text_value(values, "secret_key", "");
        let raw_prefix = crate::forms::text_value(values, "prefix", "media");
        let prefix = trim_char(raw_prefix.as_str(), '/');
        let raw_base = crate::forms::text_value(values, "public_base_url", "");
        let public_base_url = trim_end_char(raw_base.as_str(), '/');
        if !str_eq(provider.as_str(), "local") {
            let ghost n0: Seq<Seq<char>> = Seq::empty();
            let (j1, c1) = add_missing(String::new(), 0, chars_of(endpoint.as_str()).len() == 0, "endpoint", Ghost(n0));
            let ghost n1 = if endpoint@.len() == 0 { n0.push("endpoint"@) } else { n0 };
            let (j2, c2) = add_missing(j1, c1, chars_of(bucket.as_str()).len() == 0, "bucket", Ghost(n1));
            let ghost n2 = if bucket@.len() == 0 { n1.push("bucket"@) } else { n1 };
            let (j3, c3) = add_missing(j2, c2, chars_of(secret_id.as_str()).len() == 0, "secret_id", Ghost(n2));
            let ghost n3 = if secret_id@.len() == 0 { n2.push("secret_id"@) } else { n2 };
            let (j4, c4) = add_missing(j3, c3, chars_of(secret_key.as_str()).len() == 0, "secret_key", Ghost(n3));
            let ghost n4 = if secret_key@.len() == 0 { n3.push("secret_key"@) } else { n3 };
            proof {
                assert(n4 =~= missing_fields(endpoint@, bucket@, secret_id@, secret_key@));
            }
            if c4 > 0 {
                let message = concat3(provider.as_str(), " storage requires: ", j4.as_str());
                return Err(AppError::BadRequest(message));
            }
        }
        Ok(StorageConfig {
            provider,
            endpoint,
            bucket,
            region_name,
            secret_id,
            secret_key,
            prefix,
            public_base_url,
        })
    }

    /// The URL of a stored object: under the public base URL when there is
    /// one, else on the bucket's virtual host of the endpoint.
    pub fn object_url(&self, key: &str) -> (r: String)
        requires
            self.public_base_url@.len() == 0 ==> url_parts(self.endpoint@) is Some,
        ensures
            r@ == object_url_of(self.public_base_url@, self.endpoint@, self.bucket@, key@),
    {
        let encoded = encode_key(key);
        if chars_of(self.public_base_url.as_str()).len() > 0 {
            return concat3(self.public_base_url.as_str(), "/", encoded.as_str());
        }
        let url = parse_url(self.endpoint.as_str());
        let url = match url {
            Some(u) => u,
            None => {
                return String::new();
            },
        };
        let host = match &url.host {
            Some(h) => h.clone(),
            None => String::new(),
        };
        let port = match url.port {
            Some(p) => {
                let digits = decimal_text(p as i64);
                concat3(host.as_str(), ":", digits.as_str())
            },
            None => host,
        };
        let virtual_host = self.bucket_host(port.as_str());
        let a = concat3(url.scheme.as_str(), "://", virtual_host.as_str());
        concat3(a.as_str(), "/", encoded.as_str())
    }

    /// The URL of a stored object, or `None` when the URL would need an endpoint that does not parse.
    pub fn try_object_url(&self, key: &str) -> (r: Option<String>)
        ensures
            match r {
                Some(u) => (self.public_base_url@.len() > 0 || url_parts(self.endpoint@) is Some)
                    && u@ == object_url_of(self.public_base_url@, self.endpoint@, self.bucket@, key@),
                None => self.public_base_url@.len() == 0 && url_parts(self.endpoint@) is None,
            },
    {
        if chars_of(self.public_base_url.as_str()).len() == 0 && parse_url(self.endpoint.as_str()).is_none() {
            return None;
        }
        Some(self.object_url(key))
    }
}

/// The URL of the object stored under `key`.
pub open spec fn object_url_of(public_base_url: Seq<char>, endpoint: Seq<char>, bucket: Seq<char>, key: Seq<char>) -> Seq<char> {
    if public_base_url.len() > 0 {
        public_base_url + "/"@ + path_encoded(encode_utf8(key))
    } else {
        let (scheme, host, port, _path) = url_parts(endpoint)->0;
        let h = match host {
            Some(h) => h,
            None => Seq::empty(),
        };
        let hp = match port {
            Some(p) => h + ":"@ + decimal(p as int),
            None => h,
        };
        scheme + "://"@ + bucket_host_of(bucket, hp) + "/"@ + path_encoded(encode_utf8(key))
    }
}

/// The raw object key a URL points at before decoding: the text after the
/// public base URL up to `?`, or the path of a URL on the bucket's virtual
/// host; `None` when the URL belongs elsewhere or does not parse.
pub open spec fn raw_key(public_base_url: Seq<char>, endpoint: Seq<char>, bucket: Seq<char>, value: Seq<char>) -> Option<Seq<char>> {
    match url_parts(value) {
        None => None,
        Some((_scheme, url_host, _port, url_path)) => if public_base_url.len() > 0 && has_prefix(value, public_base_url + "/"@) {
            Some(crate::text::before_char(value.subrange(public_base_url.len() as int + 1, value.len() as int), '?'))
        } else {
            match url_parts(endpoint) {
                None => None,
                Some((_s, endpoint_host, _p, _q)) => match (endpoint_host, url_host) {
                    (Some(h), Some(uh)) => if uh != bucket_host_of(bucket, h) {
                        None
                    } else {
                        Some(strip_start(url_path, '/'))
                    },
                    _ => None,
                },
            }
        },
    }
}

/// The decoded object key behind a URL, when it lies under the storage prefix.
pub open spec fn key_of_url(public_base_url: Seq<char>, endpoint: Seq<char>, bucket: Seq<char>, prefix: Seq<char>, value: Seq<char>) -> Option<Seq<char>> {
    match raw_key(public_base_url, endpoint, bucket, value) {
        None => None,
        Some(k) => {
            let key = decoded_from(encode_utf8(k), 0);
            if key == prefix || has_prefix(key, prefix + "/"@) {
                Some(key)
            } else {
                None
            }
        },
    }
}

/// Whether decoding the raw key behind `value` stays within character boundaries.
pub open spec fn key_decodable(public_base_url: Seq<char>, endpoint: Seq<char>, bucket: Seq<char>, value: Seq<char>) -> bool {
    match raw_key(public_base_url, endpoint, bucket, value) {
        Some(k) => decodable_from(encode_utf8(k), 0),
        None => true,
    }
}

pub open spec fn opt_text_view(o: Option<String>) -> Option<Seq<char>> {
    match o {
        Some(s) => Some(s@),
        None => None,
    }
}

/// Whether percent-decoding `value` stays within character boundaries.
pub fn decodable(value: &str) -> (r: bool)
    ensures
        r == decodable_from(encode_utf8(value@), 0),
{
    let bytes = value.as_bytes();
    let ghost all = bytes@;
    let mut index: usize = 0;
    while index < bytes.len()
        invariant
            index <= bytes.len(),
            all == bytes@,
            all == encode_utf8(value@),
            decodable_from(all, 0) == decodable_from(all, index as int),
        decreases bytes.len() - index,
    {
        if bytes[index] == 0x25 && bytes.len() - index > 2 {
            let first_ok = !(0x80 <= bytes[index + 1] && bytes[index + 1] < 0xc0);
            let end_ok = bytes.len() - index == 3 || !(0x80 <= bytes[index + 3] && bytes[index + 3] < 0xc0);
            if !first_ok || !end_ok {
                proof {
                    assert(!boundary(all, index + 1) || !boundary(all, index + 3));
                    assert(!decodable_from(all, index as int));
                }
                return false;
            }
            if read_hex_pair(bytes[index + 1], bytes[index + 2]).is_some() {
                index += 3;
            } else {
                index += 1;
            }
        } else {
            index += 1;
        }
    }
    true
}

impl StorageConfig {
    /// The object key behind a URL this storage serves, when it lies under
    /// the storage prefix.
    pub fn key_for_url(&self, value: &str) -> (r: Option<String>)
        requires
            key_decodable(self.public_base_url@, self.endpoint@, self.bucket@, value@),
        ensures
            opt_text_view(r) == key_of_url(self.public_base_url@, self.endpoint@, self.bucket@, self.prefix@, value@),
    {
        let raw = match self.raw_key(value) {
            Some(k) => k,
            None => {
                return None;
            },
        };
        let key = urlencoding_decode(raw.as_str());
        let lead = concat(self.prefix.as_str(), "/");
        if str_eq(key.as_str(), self.prefix.as_str()) || starts_with(key.as_str(), lead.as_str()) {
            Some(key)
        } else {
            None
        }
    }

    /// The object key behind a URL, with `Some(None)` for a URL this storage
    /// does not hold under its prefix and `None` when the key is not decodable.
    pub fn try_key_for_url(&self, value: &str) -> (r: Option<Option<String>>)
        ensures
            match r {
                Some(k) => key_decodable(self.public_base_url@, self.endpoint@, self.bucket@, value@)
                    && opt_text_view(k) == key_of_url(self.public_base_url@, self.endpoint@, self.bucket@, self.prefix@, value@),
                None => !key_decodable(self.public_base_url@, self.endpoint@, self.bucket@, value@),
            },
    {
        match self.raw_key(value) {
            Some(k) => if !decodable(k.as_str()) {
                return None;
            },
            None => {},
        }
        Some(self.key_for_url(value))
    }

    fn raw_key(&self, value: &str) -> (r: Option<String>)
        ensures
            opt_text_view(r) == raw_key(self.public_base_url@, self.endpoint@, self.bucket@, value@),
    {
        let url = match parse_url(value) {
            Some(u) => u,
            None => {
                return None;
            },
        };
        let base_len = chars_of(self.public_base_url.as_str()).len();
        let lead = concat(self.public_base_url.as_str(), "/");
        proof {
            reveal_strlit("/");
        }
        if base_len > 0 && starts_with(value, lead.as_str()) {
            let chars = chars_of(value);
            let total = chars.len();
            proof {
                assert("/"@.len() == 1);
                assert(lead@.len() == base_len + 1);
                assert(lead@.len() <= value@.len());
                assert(chars@ == value@);
                assert(base_len + 1 <= chars@.len());
            }
            let rest = crate::text::slice_chars(&chars, base_len + 1, total);
            let rest_text = string_of(rest.as_slice());
            return Some(crate::text::text_before(rest_text.as_str(), '?'));
        }
        let endpoint = match parse_url(self.endpoint.as_str()) {
            Some(e) => e,
            None => {
                return None;
            },
        };
        let (host, url_host) = match (&endpoint.host, &url.host) {
            (Some(h), Some(uh)) => (h, uh),
            _ => {
                return None;
            },
        };
        let expected = self.bucket_host(host.as_str());
        if !str_eq(url_host.as_str(), expected.as_str()) {
            return None;
        }
        Some(crate::text::trim_start_char(url.path.as_str(), '/'))
    }
}

proof fn lemma_encode_utf8_concat(a: Seq<char>, b: Seq<char>)
    ensures
        encode_utf8(a + b) == encode_utf8(a) + encode_utf8(b),
    decreases a.len(),
{
    if a.len() == 0 {
        assert(a + b =~= b);
        assert(encode_utf8(a) =~= Seq::<u8>::empty());
        assert(encode_utf8(a) + encode_utf8(b) =~= encode_utf8(b));
    } else {
        assert((a + b).drop_first() =~= a.drop_first() + b);
        assert((a + b)[0] == a[0]);
        lemma_encode_utf8_concat(a.drop_first(), b);
        assert(encode_utf8(a + b) =~= vstd::utf8::encode_scalar(a[0] as u32) + (encode_utf8(a.drop_first()) + encode_utf8(b)));
    }
}

proof fn lemma_path_byte_ascii(b: u8)
    ensures
        vstd::utf8::is_ascii_chars(path_byte(b)),
{
    let p = path_byte(b);
    assert forall|i: int| 0 <= i < p.len() implies '\0' <= #[trigger] p[i] <= '\u{7f}' by {
        if b != 0x2f && b != 0x20 && form_unreserved(b) {
            assert(p[i] == b as char);
        }
    }
}

proof fn lemma_path_encoded_ascii(bytes: Seq<u8>)
    ensures
        vstd::utf8::is_ascii_chars(path_encoded(bytes)),
    decreases bytes.len(),
{
    if bytes.len() > 0 {
        lemma_path_encoded_ascii(bytes.drop_last());
        lemma_path_byte_ascii(bytes.last());
        let a = path_encoded(bytes.drop_last());
        let p = path_byte(bytes.last());
        assert forall|i: int| 0 <= i < (a + p).len() implies '\0' <= #[trigger] (a + p)[i] <= '\u{7f}' by {
            if i < a.len() {
                assert((a + p)[i] == a[i]);
            } else {
                assert((a + p)[i] == p[i - a.len()]);
            }
        }
    }
}

/// Decoding from position `i` reads only the bytes from `i` on.
proof fn lemma_decode_suffix(s: Seq<u8>, i: int)
    requires
        0 <= i <= s.len(),
    ensures
        decoded_from(s, i) == decoded_from(s.subrange(i, s.len() as int), 0),
        decodable_from(s, i) == decodable_from(s.subrange(i, s.len() as int), 0),
    decreases s.len() - i,
{
    let t = s.subrange(i, s.len() as int);
    if i < s.len() {
        assert(t[0] == s[i]);
        if s[i] == 0x25 && i + 2 < s.len() {
            assert(t[1] == s[i + 1] && t[2] == s[i + 2]);
            lemma_decode_suffix(s, i + 3);
            lemma_decode_suffix(t, 3);
            assert(t.subrange(3, t.len() as int) =~= s.subrange(i + 3, s.len() as int));
            lemma_decode_suffix(s, i + 1);
            lemma_decode_suffix(t, 1);
            assert(t.subrange(1, t.len() as int) =~= s.subrange(i + 1, s.len() as int));
            assert(boundary(s, i + 1) == boundary(t, 1));
            if i + 3 < s.len() {
                assert(t[3] == s[i + 3]);
            }
            assert(boundary(s, i + 3) == boundary(t, 3));
        } else {
            lemma_decode_suffix(s, i + 1);
            lemma_decode_suffix(t, 1);
            assert(t.subrange(1, t.len() as int) =~= s.subrange(i + 1, s.len() as int));
        }
    }
}

proof fn lemma_hex_digit(d: int)
    requires
        0 <= d < 16,
    ensures
        hex_value(hex_char(d) as u8) == Some(d as u8),
        hex_char(d) as u8 != 0x2b,
{
}

/// One encoded key byte, followed by anything, decodes to that byte's character first.
proof fn lemma_decode_unit(b: u8, rest: Seq<u8>)
    ensures
        decoded_from(encode_utf8(path_byte(b)) + rest, 0) == seq![b as char] + decoded_from(rest, 0),
{
    let p = path_byte(b);
    lemma_path_byte_ascii(b);
    vstd::utf8::is_ascii_chars_encode_utf8(p);
    let u = encode_utf8(p);
    let s = u + rest;
    assert(u.len() == p.len());
    assert forall|i: int| 0 <= i < u.len() implies u[i] == p[i] as u8 by {}
    if p.len() == 1 {
        assert(s[0] == u[0]);
        if b == 0x2f {
            assert(p[0] == '/');
        } else {
            assert(p[0] == b as char);
        }
        assert(s[0] == b);
        assert(s[0] != 0x25);
        lemma_decode_suffix(s, 1);
        assert(s.subrange(1, s.len() as int) =~= rest);
    } else {
        assert(p.len() == 3);
        assert(s[0] == 0x25 && s[1] == u[1] && s[2] == u[2]);
        if b == 0x20 {
            assert(u[1] == 0x32 && u[2] == 0x30);
            assert(hex_pair(s[1], s[2]) == Some(0x20u8));
        } else {
            lemma_hex_digit(b as int / 16);
            lemma_hex_digit(b as int % 16);
            assert(u[1] == hex_char(b as int / 16) as u8);
            assert(u[2] == hex_char(b as int % 16) as u8);
            assert(hex_pair(s[1], s[2]) == Some(b));
        }
        lemma_decode_suffix(s, 3);
        assert(s.subrange(3, s.len() as int) =~= rest);
    }
}

/// Any byte string below 0x80 is decodable.
proof fn lemma_ascii_decodable(s: Seq<u8>, i: int)
    requires
        0 <= i,
        forall|k: int| 0 <= k < s.len() ==> s[k] < 0x80,
    ensures
        decodable_from(s, i),
    decreases s.len() - i,
{
    if i < s.len() {
        if s[i] == 0x25 && i + 2 < s.len() {
            lemma_ascii_decodable(s, i + 3);
            lemma_ascii_decodable(s, i + 1);
            if i + 3 < s.len() {
                assert(s[i + 3] < 0x80);
            }
            assert(s[i + 1] < 0x80);
        } else {
            lemma_ascii_decodable(s, i + 1);
        }
    }
}

/// Percent-decoding gives back every ASCII object key that `encode_key`
/// wrote into a URL path: the key of an object is read back from its URL.
pub proof fn lemma_decode_undoes_encode(key: Seq<char>)
    requires
        vstd::utf8::is_ascii_chars(key),
    ensures
        decodable_from(encode_utf8(path_encoded(encode_utf8(key))), 0),
        decoded_from(encode_utf8(path_encoded(encode_utf8(key))), 0) == key,
    decreases key.len(),
{
    let e = path_encoded(encode_utf8(key));
    lemma_path_encoded_ascii(encode_utf8(key));
    vstd::utf8::is_ascii_chars_encode_utf8(e);
    assert forall|k: int| 0 <= k < encode_utf8(e).len() implies encode_utf8(e)[k] < 0x80 by {
        assert(encode_utf8(e)[k] == e[k] as u8);
    }
    lemma_ascii_decodable(encode_utf8(e), 0);
    if key.len() == 0 {
        assert(encode_utf8(key) =~= Seq::<u8>::empty());
        assert(e =~= Seq::<char>::empty());
        assert(encode_utf8(e) =~= Seq::<u8>::empty());
    } else {
        let rest = key.drop_first();
        assert forall|i: int| 0 <= i < rest.len() implies '\0' <= #[trigger] rest[i] <= '\u{7f}' by {
            assert(rest[i] == key[i + 1]);
        }
        lemma_decode_undoes_encode(rest);
        vstd::utf8::is_ascii_chars_encode_utf8(key);
        let b = key[0] as u8;
        assert(encode_utf8(key) =~= seq![b] + encode_utf8(rest)) by {
            vstd::utf8::is_ascii_chars_encode_utf8(rest);
            assert(encode_utf8(key)[0] == b);
        }
        lemma_path_encoded_concat(seq![b], encode_utf8(rest));
        assert(seq![b].drop_last() =~= Seq::<u8>::empty());
        assert(seq![b].last() == b);
        assert(path_encoded(Seq::<u8>::empty()) =~= Seq::<char>::empty());
        assert(path_encoded(seq![b]) == path_encoded(seq![b].drop_last()) + path_byte(b));
        assert(path_encoded(seq![b]) =~= path_byte(b));
        lemma_encode_utf8_concat(path_byte(b), path_encoded(encode_utf8(rest)));
        lemma_decode_unit(b, encode_utf8(path_encoded(encode_utf8(rest))));
        assert(b as char == key[0]);
        assert(seq![key[0]] + rest =~= key);
    }
}

proof fn lemma_path_byte_plain(b: u8)
    ensures
        forall|i: int| 0 <= i < path_byte(b).len() ==> #[trigger] path_byte(b)[i] != '?',
        b != 0x2f ==> path_byte(b).len() > 0 && path_byte(b)[0] != '/',
{
    let p = path_byte(b);
    assert forall|i: int| 0 <= i < p.len() implies #[trigger] p[i] != '?' by {
        if b != 0x2f && b != 0x20 && !form_unreserved(b) && i > 0 {
            let d = if i == 1 { b as int / 16 } else { b as int % 16 };
            assert(0 <= d < 16);
            assert(p[i] == hex_char(d));
            if d < 10 {
                assert((('0' as int) + d) as char as int == ('0' as int) + d);
            } else {
                assert((('A' as int) + d - 10) as char as int == ('A' as int) + d - 10);
            }
        }
    }
}

proof fn lemma_path_encoded_plain(bytes: Seq<u8>)
    ensures
        forall|i: int| 0 <= i < path_encoded(bytes).len() ==> #[trigger] path_encoded(bytes)[i] != '?',
    decreases bytes.len(),
{
    if bytes.len() > 0 {
        lemma_path_encoded_plain(bytes.drop_last());
        lemma_path_byte_plain(bytes.last());
        let a = path_encoded(bytes.drop_last());
        let p = path_byte(bytes.last());
        assert forall|i: int| 0 <= i < (a + p).len() implies #[trigger] (a + p)[i] != '?' by {
            if i < a.len() {
                assert((a + p)[i] == a[i]);
            } else {
                assert((a + p)[i] == p[i - a.len()]);
            }
        }
    }
}

proof fn lemma_before_absent(s: Seq<char>, c: char)
    requires
        forall|i: int| 0 <= i < s.len() ==> s[i] != c,
    ensures
        crate::text::before_char(s, c) == s,
    decreases s.len(),
{
    if s.len() > 0 {
        assert(s[0] != c);
        assert forall|i: int| 0 <= i < s.drop_first().len() implies s.drop_first()[i] != c by {
            assert(s.drop_first()[i] == s[i + 1]);
        }
        lemma_before_absent(s.drop_first(), c);
        assert(seq![s[0]] + s.drop_first() =~= s);
    }
}

proof fn lemma_encoded_key_start(key: Seq<char>)
    requires
        vstd::utf8::is_ascii_chars(key),
        key.len() > 0,
        key[0] != '/',
    ensures
        path_encoded(encode_utf8(key)).len() > 0,
        path_encoded(encode_utf8(key))[0] != '/',
{
    vstd::utf8::is_ascii_chars_encode_utf8(key);
    let bytes = encode_utf8(key);
    let b = bytes[0];
    assert(b == key[0] as u8);
    assert(b != 0x2f);
    let rest = bytes.drop_first();
    assert(seq![b] + rest =~= bytes);
    lemma_path_encoded_concat(seq![b], rest);
    assert(seq![b].drop_last() =~= Seq::<u8>::empty());
    assert(path_encoded(Seq::<u8>::empty()) =~= Seq::<char>::empty());
    assert(path_encoded(seq![b]) =~= path_byte(b));
    lemma_path_byte_plain(b);
    assert(path_encoded(bytes) == path_byte(b) + path_encoded(rest));
    assert(path_encoded(bytes)[0] == path_byte(b)[0]);
}

/// The key of a stored object reads back from the URL the storage gives it.
/// Under a public base URL this holds whenever the URL parses; on the
/// bucket's virtual host it holds when the URL parser reads back the host
/// and the path that the URL was written with. The key is an ASCII key
/// under the storage prefix that does not start with `/`.
pub proof fn lemma_object_key_reads_back(
    public_base_url: Seq<char>,
    endpoint: Seq<char>,
    bucket: Seq<char>,
    prefix: Seq<char>,
    key: Seq<char>,
)
    requires
        vstd::utf8::is_ascii_chars(key),
        key == prefix || has_prefix(key, prefix + "/"@),
        key.len() == 0 || key[0] != '/',
    ensures
        ({
            let url = object_url_of(public_base_url, endpoint, bucket, key);
            let written = path_encoded(encode_utf8(key));
            &&& public_base_url.len() > 0 && url_parts(url) is Some
                ==> key_of_url(public_base_url, endpoint, bucket, prefix, url) == Some(key)
            &&& public_base_url.len() == 0 ==> (url_parts(endpoint) matches Some((_s, Some(h), _p, _q)) ==> (
                url_parts(url) matches Some((_us, Some(uh), _up, path)) ==> (
                    (uh == bucket_host_of(bucket, h) && path == "/"@ + written)
                        ==> key_of_url(public_base_url, endpoint, bucket, prefix, url) == Some(key))))
        }),
{
    let url = object_url_of(public_base_url, endpoint, bucket, key);
    let written = path_encoded(encode_utf8(key));
    reveal_strlit("/");
    lemma_decode_undoes_encode(key);
    if public_base_url.len() > 0 && url_parts(url) is Some {
        let head = public_base_url + "/"@;
        assert(url == head + written);
        assert(url.subrange(0, head.len() as int) =~= head);
        assert(has_prefix(url, head));
        assert(url.subrange(public_base_url.len() as int + 1, url.len() as int) =~= written);
        lemma_path_encoded_plain(encode_utf8(key));
        lemma_before_absent(written, '?');
    }
    if public_base_url.len() == 0 {
        let path = "/"@ + written;
        assert(path.len() > 0 && path[0] == '/');
        assert(path.drop_first() =~= written);
        if key.len() > 0 {
            lemma_encoded_key_start(key);
        } else {
            assert(encode_utf8(key) =~= Seq::<u8>::empty()) by {
                vstd::utf8::is_ascii_chars_encode_utf8(key);
            }
            assert(written =~= Seq::<char>::empty());
        }
        assert(strip_start(written, '/') == written);
        assert(strip_start(path, '/') == written);
    }
}

/// A URL outside the storage has no object key: one that is not under the
/// public base URL and whose host is not the bucket's virtual host (or that
/// does not parse) names nothing stored here.
pub proof fn lemma_foreign_url_has_no_key(
    public_base_url: Seq<char>,
    endpoint: Seq<char>,
    bucket: Seq<char>,
    prefix: Seq<char>,
    value: Seq<char>,
)
    requires
        !(public_base_url.len() > 0 && has_prefix(value, public_base_url + "/"@)),
        url_parts(value) matches Some((_us, uh, _up, _path)) ==> (url_parts(endpoint) matches Some((_s, Some(h), _p, _q))
            ==> uh != Some(bucket_host_of(bucket, h))),
    ensures
        key_of_url(public_base_url, endpoint, bucket, prefix, value) is None,
{
}

/// Settings that name neither a provider nor an endpoint keep media on the
/// local disk: the provider defaults to `local`, which needs no endpoint,
/// bucket or secrets.
pub proof fn lemma_unnamed_storage_is_local(values: Entries)
    requires
        lookup(values, "provider"@) is None,
        lookup(values, "endpoint"@) is None,
    ensures
        storage_from(values) is Ok,
        storage_from(values)->Ok_0[0] == "local"@,
{
    reveal_strlit("local");
    let l = "local"@;
    assert(vstd::utf8::is_ascii_chars(l));
    assert(crate::text::ascii_lowered(l) =~= l);
    assert(crate::text::lowered(l) == l);
    let e = crate::forms::text_at(values, "endpoint"@, ""@);
    reveal_strlit("");
    assert(e.len() == 0);
    crate::text::lemma_lead_ws(e);
    assert(trimmed(e) =~= Seq::<char>::empty());
    assert(strip_end(trimmed(e), '/') =~= Seq::<char>::empty());
}

} // verus!
