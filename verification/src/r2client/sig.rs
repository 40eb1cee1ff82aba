//! Request signing: the headers that authenticate a GET request to the store.

use crate::utils::{opt_text, Timestamp};
use std::fmt::Write;
use vstd::prelude::*;
use vstd::utf8::encode_utf8;

verus! {

/// One header of a request.
#[derive(Debug)]
pub struct Header {
    pub name: String,
    pub value: String,
}

impl View for Header {
    type V = (Seq<char>, Seq<char>);

    open spec fn view(&self) -> (Seq<char>, Seq<char>) {
        (self.name@, self.value@)
    }
}

/// The headers of a list as pairs of name and value.
pub open spec fn header_pairs(headers: Seq<Header>) -> Seq<(Seq<char>, Seq<char>)> {
    Seq::new(headers.len(), |i: int| headers[i]@)
}

/// The names of a list of pairs, in order.
pub open spec fn pair_names(pairs: Seq<(Seq<char>, Seq<char>)>) -> Seq<Seq<char>> {
    Seq::new(pairs.len(), |i: int| pairs[i].0)
}

/// The values of a list of pairs, in order.
pub open spec fn pair_values(pairs: Seq<(Seq<char>, Seq<char>)>) -> Seq<Seq<char>> {
    Seq::new(pairs.len(), |i: int| pairs[i].1)
}

/// Why a request could not be signed.
#[derive(Clone, Copy, Debug, PartialEq, Eq, Structural)]
pub enum SignError {
    /// The instant has no rendering as a request date.
    Timestamp,
    /// The URL, the host or a credential cannot stand in a signed request.
    Request,
}

/// The SHA-256 digest of a byte string.
pub uninterp spec fn sha256(data: Seq<u8>) -> Seq<u8>;

/// Hashes `data` with `sha2::Sha256::digest`.
///
/// Trusted: the result is the named digest of the bytes, which says only
/// that the outcome depends on the bytes alone.
#[verifier::external_body]
fn sha256_digest(data: &[u8]) -> (digest: Vec<u8>)
    ensures
        digest@ == sha256(data@),
{
    <sha2::Sha256 as sha2::Digest>::digest(data).to_vec()
}

/// The text that an instant gives under a `strftime` pattern, in UTC; `None`
/// where the instant cannot be represented or the pattern is malformed.
pub uninterp spec fn instant_text(secs: int, nanos: int, pattern: Seq<char>) -> Option<Seq<char>>;

/// Builds the UTC date-time with `chrono::DateTime::from_timestamp` and
/// renders it with `chrono::DateTime::format`.
///
/// Trusted: the result is the named text of the instant and the pattern,
/// which says only that the outcome depends on those alone. A failure of
/// either step comes back as `None`.
#[verifier::external_body]
fn format_instant(secs: i64, nanos: u32, pattern: &str) -> (text: Option<String>)
    ensures
        opt_text(text) == instant_text(secs as int, nanos as int, pattern@),
{
    let when = chrono::DateTime::from_timestamp(secs, nanos)?;
    let mut text = String::new();
    write!(text, "{}", when.format(pattern)).ok()?;
    Some(text)
}

/// The value of the `Authorization` header that signs a request under AWS
/// Signature Version 4; `None` where the instant, the URL or a header cannot
/// be represented.
pub uninterp spec fn authorization_text(
    method: Seq<char>,
    url: Seq<char>,
    secs: int,
    nanos: int,
    names: Seq<Seq<char>>,
    values: Seq<Seq<char>>,
    region: Seq<char>,
    access_key: Seq<char>,
    secret_key: Seq<char>,
    service: Seq<char>,
    body: Seq<char>,
) -> Option<Seq<char>>;

/// Signs a request with `aws_sign_v4::AwsSign::new(..).sign()`.
///
/// The arguments are first brought into the types that the signer takes:
/// the instant through `chrono::DateTime::from_timestamp`, the URL through
/// `reqwest::Url::parse` (the signer itself does not survive a URL that
/// fails there), each header through `HeaderName::from_bytes` and
/// `HeaderValue::from_str` into a `HeaderMap`. A failure of any of these
/// comes back as `None`.
///
/// Trusted: the result is the named authorization of the arguments, which
/// says only that the outcome depends on them alone. The bound on the number
/// of headers keeps the map far below the size at which `insert` gives up.
#[verifier::external_body]
fn sign_request(
    method: &str,
    url: &str,
    now: &Timestamp,
    headers: &Vec<Header>,
    region: &str,
    access_key: &str,
    secret_key: &str,
    service: &str,
    body: &str,
) -> (signature: Option<String>)
    requires
        headers@.len() <= 64,
    ensures
        opt_text(signature) == authorization_text(
            method@,
            url@,
            now.secs as int,
            now.nanos as int,
            pair_names(header_pairs(headers@)),
            pair_values(header_pairs(headers@)),
            region@,
            access_key@,
            secret_key@,
            service@,
            body@,
        ),
{
    let when = chrono::DateTime::from_timestamp(now.secs, now.nanos)?;
    reqwest::Url::parse(url).ok()?;
    let mut map = reqwest::header::HeaderMap::new();
    for header in headers.iter() {
        let name = reqwest::header::HeaderName::from_bytes(header.name.as_bytes()).ok()?;
        map.insert(name, reqwest::header::HeaderValue::from_str(&header.value).ok()?);
    }
    let signer = aws_sign_v4::AwsSign::new(
        method, url, &when, &map, region, access_key, secret_key, service, body,
    );
    Some(signer.sign())
}

/// The sixteen lower-case hexadecimal digits, in order.
pub open spec fn hex_digits() -> Seq<char> {
    seq!['0', '1', '2', '3', '4', '5', '6', '7', '8', '9', 'a', 'b', 'c', 'd', 'e', 'f']
}

/// The lower-case hexadecimal rendering of a byte string: two digits for
/// each byte, the high half first.
pub open spec fn hex_lower(data: Seq<u8>) -> Seq<char> {
    Seq::new(
        2 * data.len(),
        |i: int|
            if i % 2 == 0 {
                hex_digits()[data[i / 2] as int / 16]
            } else {
                hex_digits()[data[i / 2] as int % 16]
            },
    )
}

/// The digit for a value below sixteen, as a string of one character.
fn hex_digit(n: u8) -> (digit: &'static str)
    requires
        n < 16,
    ensures
        digit@ == seq![hex_digits()[n as int]],
{
    proof {
        reveal_strlit("0");
        reveal_strlit("1");
        reveal_strlit("2");
        reveal_strlit("3");
        reveal_strlit("4");
        reveal_strlit("5");
        reveal_strlit("6");
        reveal_strlit("7");
        reveal_strlit("8");
        reveal_strlit("9");
        reveal_strlit("a");
        reveal_strlit("b");
        reveal_strlit("c");
        reveal_strlit("d");
        reveal_strlit("e");
        reveal_strlit("f");
    }
    let digit: &'static str = match n {
        0 => "0",
        1 => "1",
        2 => "2",
        3 => "3",
        4 => "4",
        5 => "5",
        6 => "6",
        7 => "7",
        8 => "8",
        9 => "9",
        10 => "a",
        11 => "b",
        12 => "c",
        13 => "d",
        14 => "e",
        _ => "f",
    };
    assert(digit@ =~= seq![hex_digits()[n as int]]);
    digit
}

/// Renders a byte string in lower-case hexadecimal.
pub fn to_hex_lower(data: &[u8]) -> (text: String)
    ensures
        text@ == hex_lower(data@),
{
    let mut text = String::new();
    let mut i: usize = 0;
    while i < data.len()
        invariant
            i <= data@.len(),
            text@ == hex_lower(data@.take(i as int)),
        decreases data@.len() - i,
    {
        let byte: u8 = data[i];
        text.append(hex_digit(byte / 16));
        text.append(hex_digit(byte % 16));
        assert(text@ =~= hex_lower(data@.take(i + 1)));
        i = i + 1;
    }
    assert(data@.take(i as int) =~= data@);
    text
}

/// The content hash of a request body: the SHA-256 digest of its UTF-8
/// bytes in lower-case hexadecimal.
pub open spec fn content_hash(body: Seq<char>) -> Seq<char> {
    hex_lower(sha256(encode_utf8(body)))
}

/// Hashes a string with SHA-256 and renders the digest in lower-case
/// hexadecimal.
pub fn sha256_string(input: String) -> (text: String)
    ensures
        text@ == content_hash(input@),
{
    let digest = sha256_digest(input.as_str().as_bytes());
    to_hex_lower(digest.as_slice())
}

/// The pattern of the request date: the compact basic form of ISO 8601.
pub open spec fn date_pattern() -> Seq<char> {
    "%Y%m%dT%H%M%SZ"@
}

/// The request date of an instant, where it has one.
pub open spec fn amz_date(now: Timestamp) -> Option<Seq<char>> {
    instant_text(now.secs as int, now.nanos as int, date_pattern())
}

/// The headers that are signed: the request date, the host and the hash of
/// the body.
pub open spec fn base_headers(date: Seq<char>, host: Seq<char>, payload_hash: Seq<char>) -> Seq<
    (Seq<char>, Seq<char>),
> {
    seq![("X-Amz-Date"@, date), ("host"@, host), ("x-amz-content-sha256"@, payload_hash)]
}

/// The headers that are signed for a request with an empty body.
pub open spec fn unsigned_headers(host: Seq<char>, date: Seq<char>) -> Seq<(Seq<char>, Seq<char>)> {
    base_headers(date, host, content_hash(""@))
}

/// The headers of a signed request: the headers that were signed, followed
/// by the header that carries the signature.
pub open spec fn authorized(headers: Seq<(Seq<char>, Seq<char>)>, signature: Seq<char>) -> Seq<
    (Seq<char>, Seq<char>),
> {
    headers.push(("authorization"@, signature))
}

/// Lists the headers that are signed, from the request date, the host and
/// the hash of the body.
pub fn unsigned(date: String, host: &str, payload_hash: String) -> (headers: Vec<Header>)
    ensures
        header_pairs(headers@) == base_headers(date@, host@, payload_hash@),
{
    let mut headers: Vec<Header> = Vec::new();
    headers.push(Header { name: String::from_str("X-Amz-Date"), value: date });
    headers.push(Header { name: String::from_str("host"), value: String::from_str(host) });
    headers.push(Header { name: String::from_str("x-amz-content-sha256"), value: payload_hash });
    assert(header_pairs(headers@) =~= base_headers(date@, host@, payload_hash@));
    headers
}

/// Adds the header that carries the signature to the headers that were
/// signed.
pub fn authorize(headers: Vec<Header>, signature: String) -> (signed: Vec<Header>)
    ensures
        header_pairs(signed@) == authorized(header_pairs(headers@), signature@),
{
    let mut signed = headers;
    signed.push(Header { name: String::from_str("authorization"), value: signature });
    assert(header_pairs(signed@) =~= authorized(header_pairs(headers@), signature@));
    signed
}

/// The signature of a GET request with an empty body to the service `s3` in
/// the region `auto`, over the headers above and at the instant whose date
/// they carry.
pub open spec fn authorization(
    host: Seq<char>,
    url: Seq<char>,
    access_key: Seq<char>,
    secret_key: Seq<char>,
    now: Timestamp,
    date: Seq<char>,
) -> Option<Seq<char>> {
    authorization_text(
        "GET"@,
        url,
        now.secs as int,
        now.nanos as int,
        pair_names(unsigned_headers(host, date)),
        pair_values(unsigned_headers(host, date)),
        "auto"@,
        access_key,
        secret_key,
        "s3"@,
        ""@,
    )
}

/// The headers of a signed request: the three signed headers followed by
/// the `authorization` header that signs them, or the reason why there are
/// none.
pub open spec fn signed_headers(
    host: Seq<char>,
    url: Seq<char>,
    access_key: Seq<char>,
    secret_key: Seq<char>,
    now: Timestamp,
) -> Result<Seq<(Seq<char>, Seq<char>)>, SignError> {
    match amz_date(now) {
        None => Err(SignError::Timestamp),
        Some(date) => match authorization(host, url, access_key, secret_key, now, date) {
            None => Err(SignError::Request),
            Some(signature) => Ok(authorized(unsigned_headers(host, date), signature)),
        },
    }
}

/// Whether `outcome` is the outcome that `expected` describes.
pub open spec fn headers_match(
    outcome: Result<Vec<Header>, SignError>,
    expected: Result<Seq<(Seq<char>, Seq<char>)>, SignError>,
) -> bool {
    match outcome {
        Ok(headers) => expected == Ok::<Seq<(Seq<char>, Seq<char>)>, SignError>(header_pairs(headers@)),
        Err(e) => expected == Err::<Seq<(Seq<char>, Seq<char>)>, SignError>(e),
    }
}

/// Signing is a function of its arguments: two outcomes for the same host,
/// URL, credentials and instant are the same outcome, header for header.
pub proof fn lemma_signing_is_deterministic(
    first: Result<Vec<Header>, SignError>,
    second: Result<Vec<Header>, SignError>,
    host: Seq<char>,
    url: Seq<char>,
    access_key: Seq<char>,
    secret_key: Seq<char>,
    now: Timestamp,
)
    requires
        headers_match(first, signed_headers(host, url, access_key, secret_key, now)),
        headers_match(second, signed_headers(host, url, access_key, secret_key, now)),
    ensures
        first is Ok <==> second is Ok,
        first is Ok ==> header_pairs(first->Ok_0@) == header_pairs(second->Ok_0@),
        first is Err ==> first->Err_0 == second->Err_0,
{
}

/// Computes the headers that authenticate a GET request for `url` at the
/// instant `now`.
///
/// The instant is taken once, as an argument: the date header and the
/// signature are both made from it. The result depends on the arguments
/// alone, so equal arguments give equal headers.
pub fn get_sig_headers(
    host: &str,
    url: &str,
    r2_access: &str,
    r2_secret: &str,
    now: &Timestamp,
) -> (outcome: Result<Vec<Header>, SignError>)
    ensures
        headers_match(outcome, signed_headers(host@, url@, r2_access@, r2_secret@, *now)),
{
    let date = match format_instant(now.secs, now.nanos, "%Y%m%dT%H%M%SZ") {
        Some(date) => date,
        None => { return Err(SignError::Timestamp); },
    };
    let hashed_payload = sha256_string(String::from_str(""));
    let headers = unsigned(date, host, hashed_payload);
    let signature = match sign_request("GET", url, now, &headers, "auto", r2_access, r2_secret, "s3", "") {
        Some(signature) => signature,
        None => { return Err(SignError::Request); },
    };
    Ok(authorize(headers, signature))
}

} // verus!
