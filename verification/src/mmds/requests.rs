//! Requests to the metadata service and the responses to them.

use vstd::prelude::*;
use vstd::utf8::encode_utf8;

use crate::http::{Method, StatusCode};
use crate::utils::text::{join3, same};

verus! {

/// A format of a body.
#[derive(Debug, Clone, Copy, PartialEq, Eq, Structural)]
pub enum MediaType {
    /// A document.
    ApplicationJson,
    /// Text.
    PlainText,
}

/// How a value is given out.
#[derive(Debug, Clone, Copy, PartialEq, Eq, Structural)]
pub enum OutputFormat {
    /// As a document.
    Json,
    /// Line by line.
    Imds,
}

impl From<MediaType> for OutputFormat {
    fn from(media_type: MediaType) -> (r: OutputFormat) {
        match media_type {
            MediaType::ApplicationJson => OutputFormat::Json,
            MediaType::PlainText => OutputFormat::Imds,
        }
    }
}

impl vstd::std_specs::convert::FromSpecImpl<MediaType> for OutputFormat {
    open spec fn obeys_from_spec() -> bool {
        true
    }

    open spec fn from_spec(media_type: MediaType) -> OutputFormat {
        format_of(media_type)
    }
}

/// How a value is given out where a format is asked for.
pub open spec fn format_of(media_type: MediaType) -> OutputFormat {
    match media_type {
        MediaType::ApplicationJson => OutputFormat::Json,
        MediaType::PlainText => OutputFormat::Imds,
    }
}

/// A version of the service.
#[derive(Debug, Clone, Copy, PartialEq, Eq, Structural)]
pub enum MmdsVersion {
    /// Tokens are not needed.
    V1,
    /// Tokens are needed.
    V2,
}

/// Why a request is refused.
#[derive(Debug)]
pub enum VmmMmdsError {
    /// The token is not valid.
    InvalidToken,
    /// There is no path.
    InvalidURI,
    /// The method is not served.
    MethodNotAllowed,
    /// There is no token.
    NoTokenProvided,
    /// There is no lifetime for a token.
    NoTtlProvided,
    /// There is nothing at a path.
    ResourceNotFound(String),
}

impl VmmMmdsError {
    /// What is said about it.
    pub open spec fn message(self) -> Seq<char> {
        match self {
            VmmMmdsError::InvalidToken => "MMDS token not valid."@,
            VmmMmdsError::InvalidURI => "Invalid URI."@,
            VmmMmdsError::MethodNotAllowed => "Not allowed HTTP method."@,
            VmmMmdsError::NoTokenProvided =>
                "No MMDS token provided. Use `X-metadata-token` or `X-aws-ec2-metadata-token` header to specify the session token."@,
            VmmMmdsError::NoTtlProvided =>
                "Token time to live value not found. Use `X-metadata-token-ttl-seconds` or `X-aws-ec2-metadata-token-ttl-seconds` header to specify the token's lifetime."@,
            VmmMmdsError::ResourceNotFound(path) => "Resource not found: "@ + path@ + "."@,
        }
    }

    /// What is said about it.
    pub fn text(&self) -> (r: String)
        ensures
            r@ == self.message(),
    {
        match self {
            VmmMmdsError::InvalidToken => String::from_str("MMDS token not valid."),
            VmmMmdsError::InvalidURI => String::from_str("Invalid URI."),
            VmmMmdsError::MethodNotAllowed => String::from_str("Not allowed HTTP method."),
            VmmMmdsError::NoTokenProvided => String::from_str(
                "No MMDS token provided. Use `X-metadata-token` or `X-aws-ec2-metadata-token` header to specify the session token.",
            ),
            VmmMmdsError::NoTtlProvided => String::from_str(
                "Token time to live value not found. Use `X-metadata-token-ttl-seconds` or `X-aws-ec2-metadata-token-ttl-seconds` header to specify the token's lifetime.",
            ),
            VmmMmdsError::ResourceNotFound(path) => join3("Resource not found: ", path.as_str(), "."),
        }
    }
}

/// Why the store gives no value.
#[derive(Debug, Clone, Copy, PartialEq, Eq, Structural)]
pub enum MmdsDatastoreError {
    /// There is none at the path.
    NotFound,
    /// The value cannot be given out line by line.
    UnsupportedValueType,
    /// The store is too large.
    DataStoreLimitExceeded,
}

/// A request.
#[derive(Debug)]
pub struct MmdsRequest {
    /// Method.
    pub method: Method,
    /// Path.
    pub uri: String,
    /// The format that is asked for.
    pub accept: MediaType,
    /// Other headers, by name.
    pub headers: Vec<(String, String)>,
}

/// The body of a response.
#[derive(Debug)]
pub enum MmdsBody {
    /// Text.
    Text(String),
    /// A header is not supported: its name.
    UnsupportedHeader(String),
    /// The value of a header is not valid: its name and value.
    InvalidHeader(String, String),
}

/// A response.
#[derive(Debug)]
pub struct MmdsResponse {
    /// Status.
    pub status: StatusCode,
    /// Format of the body.
    pub content_type: MediaType,
    /// Body.
    pub body: MmdsBody,
    /// Whether the methods that are served are named.
    pub allow_methods: bool,
    /// A further header: its name, and a lifetime in seconds as its value.
    pub ttl_header: Option<(String, u32)>,
}

/// What a request calls for.
#[derive(Debug)]
pub enum MmdsStep {
    /// It is answered at once.
    Respond(MmdsResponse),
    /// The store is asked for a value.
    GetValue {
        /// Path of the value.
        path: String,
        /// How it is given out.
        format: OutputFormat,
    },
    /// A token is checked first.
    CheckToken {
        /// The token.
        token: String,
    },
    /// A token is made.
    GenerateToken {
        /// Name of the header with the lifetime.
        header: String,
        /// Lifetime in seconds.
        ttl_seconds: u32,
    },
}

/// The path with each run of slashes made one.
pub open spec fn collapsed(uri: Seq<char>) -> Seq<char>
    decreases uri.len(),
{
    if uri.len() == 0 {
        seq![]
    } else if uri.len() >= 2 && uri.last() == '/' && uri[uri.len() - 2] == '/' {
        collapsed(uri.drop_last())
    } else {
        collapsed(uri.drop_last()).push(uri.last())
    }
}

/// Whether two slashes follow each other.
pub open spec fn has_double_slash(uri: Seq<char>) -> bool {
    exists|i: int| 0 <= i && i + 1 < uri.len() && #[trigger] uri[i] == '/' && uri[i + 1] == '/'
}

/// The path that is looked up. Paths beyond the length that is counted stay as they are.
pub open spec fn sanitized(uri: Seq<char>) -> Seq<char> {
    if encode_utf8(uri).len() < u32::MAX {
        collapsed(uri)
    } else {
        uri
    }
}

/// Makes each run of slashes in a path one.
pub fn sanitize_uri(uri: &str) -> (r: String)
    ensures
        r@ == sanitized(uri@),
{
    let bytes = uri.as_bytes_vec();
    if bytes.len() >= u32::MAX as usize {
        return String::from_str(uri);
    }
    let len: usize = uri.unicode_len();
    let mut path = String::new();
    let mut i: usize = 0;
    assert(uri@.take(0) =~= Seq::<char>::empty());
    assert(path@ =~= collapsed(uri@.take(0)));
    while i < len
        invariant
            len == uri@.len(),
            i <= len,
            path@ == collapsed(uri@.take(i as int)),
        decreases len - i,
    {
        let ghost before = path@;
        assert(uri@.take(i + 1).drop_last() =~= uri@.take(i as int));
        let doubled: bool = i > 0 && uri.get_char(i) == '/' && uri.get_char(i - 1) == '/';
        if !doubled {
            path.append(uri.substring_char(i, i + 1));
            assert(path@ =~= before.push(uri@[i as int]));
        }
        i += 1;
    }
    assert(uri@.take(i as int) =~= uri@);
    path
}

/// What is left after slashes were collapsed ends as the path did.
proof fn lemma_collapsed_last(uri: Seq<char>)
    ensures
        uri.len() > 0 ==> collapsed(uri).len() > 0 && collapsed(uri).last() == uri.last(),
        uri.len() == 0 ==> collapsed(uri).len() == 0,
    decreases uri.len(),
{
    if uri.len() > 0 {
        lemma_collapsed_last(uri.drop_last());
    }
}

/// No two slashes follow each other in what is left.
pub proof fn law_no_double_slash(uri: Seq<char>)
    ensures
        !has_double_slash(collapsed(uri)),
    decreases uri.len(),
{
    if uri.len() > 0 {
        let rest = uri.drop_last();
        law_no_double_slash(rest);
        lemma_collapsed_last(rest);
        let r = collapsed(uri);
        if has_double_slash(r) {
            let i = choose|i: int|
                0 <= i && i + 1 < r.len() && #[trigger] r[i] == '/' && r[i + 1] == '/';
            let before = collapsed(rest);
            if r.len() == before.len() + 1 && i + 1 == r.len() - 1 {
                assert(before.last() == '/');
                assert(rest.last() == uri[uri.len() - 2]);
            } else {
                assert(before[i] == r[i] && before[i + 1] == r[i + 1]);
            }
        }
    }
}

/// A path without two slashes in a row stays as it is, so that a path is sanitized once and for all.
pub proof fn law_sanitized_once(uri: Seq<char>)
    ensures
        !has_double_slash(uri) ==> collapsed(uri) == uri,
        collapsed(collapsed(uri)) == collapsed(uri),
    decreases uri.len(),
{
    lemma_kept(uri);
    law_no_double_slash(uri);
    lemma_kept(collapsed(uri));
}

/// A path without two slashes in a row stays as it is.
proof fn lemma_kept(uri: Seq<char>)
    ensures
        !has_double_slash(uri) ==> collapsed(uri) == uri,
    decreases uri.len(),
{
    if uri.len() > 0 && !has_double_slash(uri) {
        let rest = uri.drop_last();
        assert forall|i: int| 0 <= i && i + 1 < rest.len() implies !(#[trigger] rest[i] == '/'
            && rest[i + 1] == '/') by {
            assert(!(uri[i] == '/' && uri[i + 1] == '/'));
        }
        lemma_kept(rest);
        if uri.len() >= 2 {
            let i = uri.len() - 2;
            assert(!(uri[i] == '/' && uri[i + 1] == '/'));
        }
        assert(rest.push(uri.last()) =~= uri);
    }
}

/// An ASCII letter in lower case.
pub open spec fn lower(c: char) -> char {
    if 'A' <= c <= 'Z' {
        ((c as u32 + 32) as u32) as char
    } else {
        c
    }
}

/// Whether two names are the same but for the case of ASCII letters.
pub open spec fn same_name(a: Seq<char>, b: Seq<char>) -> bool {
    &&& a.len() == b.len()
    &&& forall|i: int| 0 <= i < a.len() ==> lower(#[trigger] a[i]) == lower(b[i])
}

/// Whether two characters are the same but for the case of ASCII letters.
fn same_letter(a: char, b: char) -> (r: bool)
    ensures
        r == (lower(a) == lower(b)),
{
    let x: u32 = if 'A' <= a && a <= 'Z' {
        a as u32 + 32
    } else {
        a as u32
    };
    let y: u32 = if 'A' <= b && b <= 'Z' {
        b as u32 + 32
    } else {
        b as u32
    };
    x == y
}

/// Whether two names are the same but for the case of ASCII letters.
fn names_equal(a: &str, b: &str) -> (r: bool)
    ensures
        r == same_name(a@, b@),
{
    let n: usize = a.unicode_len();
    if n != b.unicode_len() {
        return false;
    }
    let mut i: usize = 0;
    while i < n
        invariant
            n == a@.len(),
            n == b@.len(),
            i <= n,
            forall|j: int| 0 <= j < i ==> lower(#[trigger] a@[j]) == lower(b@[j]),
        decreases n - i,
    {
        if !same_letter(a.get_char(i), b.get_char(i)) {
            assert(lower(a@[i as int]) != lower(b@[i as int]));
            return false;
        }
        i += 1;
    }
    true
}

/// The index of the first header with one of two names, or the number of headers if there is none.
pub open spec fn header_index(headers: Seq<(String, String)>, a: Seq<char>, b: Seq<char>) -> int
    decreases headers.len(),
{
    if headers.len() == 0 || same_name(headers[0].0@, a) || same_name(headers[0].0@, b) {
        0
    } else {
        1 + header_index(headers.skip(1), a, b)
    }
}

/// Finds the first header with one of two names.
pub fn get_header_value_pair(headers: &Vec<(String, String)>, a: &str, b: &str) -> (r: Option<usize>)
    ensures
        header_index(headers@, a@, b@) < headers@.len() ==> r is Some && r->Some_0 == header_index(
            headers@,
            a@,
            b@,
        ) && r->Some_0 < headers@.len(),
        header_index(headers@, a@, b@) >= headers@.len() ==> r is None,
{
    let mut i: usize = 0;
    assert(headers@.skip(0) =~= headers@);
    while i < headers.len()
        invariant
            i <= headers@.len(),
            header_index(headers@, a@, b@) == i + header_index(headers@.skip(i as int), a@, b@),
        decreases headers@.len() - i,
    {
        assert(headers@.skip(i as int)[0] == headers@[i as int]);
        assert(headers@.skip(i as int).skip(1) =~= headers@.skip(i + 1));
        if names_equal(headers[i].0.as_str(), a) || names_equal(headers[i].0.as_str(), b) {
            return Some(i);
        }
        i += 1;
    }
    None
}

/// Whether all characters are decimal digits.
pub open spec fn all_digits(s: Seq<char>) -> bool {
    forall|i: int| 0 <= i < s.len() ==> '0' <= #[trigger] s[i] <= '9'
}

/// The number that digits stand for.
pub open spec fn digits_value(s: Seq<char>) -> int
    decreases s.len(),
{
    if s.len() == 0 {
        0
    } else {
        digits_value(s.drop_last()) * 10 + (s.last() as int - '0' as int)
    }
}

/// The digits of a number, which a plus sign may precede.
pub open spec fn unsigned(s: Seq<char>) -> Seq<char> {
    if s.len() > 0 && s[0] == '+' {
        s.skip(1)
    } else {
        s
    }
}

/// The number of 32 bits that text stands for, if it does.
pub open spec fn number32(s: Seq<char>) -> Option<u32> {
    let digits = unsigned(s);
    if digits.len() > 0 && all_digits(digits) && digits_value(digits) <= u32::MAX {
        Some(digits_value(digits) as u32)
    } else {
        None
    }
}

/// A number grows with its digits.
proof fn lemma_digits_grow(s: Seq<char>, n: int)
    requires
        0 <= n <= s.len(),
        all_digits(s),
    ensures
        0 <= digits_value(s.take(n)) <= digits_value(s),
    decreases s.len() - n,
{
    if n < s.len() {
        lemma_digits_grow(s, n + 1);
        assert(s.take(n + 1).drop_last() =~= s.take(n));
        assert('0' <= s[n] <= '9');
        lemma_digits_positive(s.take(n));
    } else {
        assert(s.take(n) =~= s);
        lemma_digits_positive(s);
    }
}

/// Digits stand for no negative number.
proof fn lemma_digits_positive(s: Seq<char>)
    requires
        all_digits(s),
    ensures
        0 <= digits_value(s),
    decreases s.len(),
{
    if s.len() > 0 {
        assert('0' <= s[s.len() - 1] <= '9');
        assert forall|i: int| 0 <= i < s.drop_last().len() implies '0' <= #[trigger] s.drop_last()[i]
            <= '9' by {
            assert('0' <= s[i] <= '9');
        }
        lemma_digits_positive(s.drop_last());
    }
}

/// Reads a number of 32 bits.
pub fn parse_u32(text: &str) -> (r: Option<u32>)
    ensures
        r == number32(text@),
{
    let len: usize = text.unicode_len();
    let start: usize = if len > 0 && text.get_char(0) == '+' {
        1
    } else {
        0
    };
    let ghost digits = unsigned(text@);
    assert(digits =~= text@.skip(start as int));
    if start == len {
        return None;
    }
    let mut value: u32 = 0;
    let mut i: usize = start;
    assert(digits.take(0) =~= Seq::<char>::empty());
    while i < len
        invariant
            len == text@.len(),
            start <= i <= len,
            start <= 1,
            digits == text@.skip(start as int),
            digits == unsigned(text@),
            digits.len() > 0,
            forall|j: int| 0 <= j < i - start ==> '0' <= #[trigger] digits[j] <= '9',
            value == digits_value(digits.take(i - start)),
        decreases len - i,
    {
        let c: char = text.get_char(i);
        let ghost at = i - start;
        assert(digits[at] == c);
        if !('0' <= c && c <= '9') {
            return None;
        }
        assert(digits.take(at + 1).drop_last() =~= digits.take(at));
        let next: u64 = value as u64 * 10 + (c as u32 - 48) as u64;
        assert(next == digits_value(digits.take(at + 1)));
        if next > u32::MAX as u64 {
            proof {
                if all_digits(digits) {
                    lemma_digits_grow(digits, at + 1);
                }
            }
            return None;
        }
        value = next as u32;
        i += 1;
    }
    assert(digits.take(i - start) =~= digits);
    Some(value)
}

/// A response with text.
pub open spec fn is_text(response: MmdsResponse, status: StatusCode, content_type: MediaType, body: Seq<
    char,
>) -> bool {
    &&& response.status == status
    &&& response.content_type == content_type
    &&& response.body matches MmdsBody::Text(text) && text@ == body
    &&& response.ttl_header is None
    &&& !response.allow_methods
}

/// A response with text.
fn build_response(status: StatusCode, content_type: MediaType, body: String) -> (r: MmdsResponse)
    ensures
        is_text(r, status, content_type, body@),
{
    MmdsResponse {
        status,
        content_type,
        body: MmdsBody::Text(body),
        allow_methods: false,
        ttl_header: None,
    }
}

/// The token that a request carries.
pub open spec fn token_index(request: MmdsRequest) -> int {
    header_index(request.headers@, "x-metadata-token"@, "x-aws-ec2-metadata-token"@)
}

/// The header with the lifetime of a token that a request carries.
pub open spec fn ttl_index(request: MmdsRequest) -> int {
    header_index(
        request.headers@,
        "x-metadata-token-ttl-seconds"@,
        "x-aws-ec2-metadata-token-ttl-seconds"@,
    )
}

/// The header that says that a request was forwarded.
pub open spec fn forwarded_index(request: MmdsRequest) -> int {
    header_index(request.headers@, "x-forwarded-for"@, "x-forwarded-for"@)
}

/// What a request that asks for a value and may do so calls for.
pub open spec fn asks_store(request: MmdsRequest, step: MmdsStep) -> bool {
    &&& step matches MmdsStep::GetValue { path, format }
    &&& path@ == sanitized(request.uri@)
    &&& format == format_of(request.accept)
}

/// What a request that sets something calls for: it can only ask for a token.
pub open spec fn put_step(request: MmdsRequest, step: MmdsStep) -> bool {
    let forwarded = forwarded_index(request);
    let ttl = ttl_index(request);
    if forwarded < request.headers@.len() {
        &&& step matches MmdsStep::Respond(response)
        &&& response.status == StatusCode::BadRequest
        &&& response.content_type == MediaType::PlainText
        &&& response.body matches MmdsBody::UnsupportedHeader(name)
        &&& name@ == request.headers@[forwarded].0@
        &&& response.ttl_header is None
        &&& !response.allow_methods
    } else if sanitized(request.uri@) != "/latest/api/token"@ {
        &&& step matches MmdsStep::Respond(response)
        &&& is_text(
            response,
            StatusCode::NotFound,
            MediaType::PlainText,
            VmmMmdsError::ResourceNotFound(request.uri).message(),
        )
    } else if ttl >= request.headers@.len() {
        &&& step matches MmdsStep::Respond(response)
        &&& is_text(
            response,
            StatusCode::BadRequest,
            MediaType::PlainText,
            VmmMmdsError::NoTtlProvided.message(),
        )
    } else {
        match number32(request.headers@[ttl].1@) {
            None => {
                &&& step matches MmdsStep::Respond(response)
                &&& response.status == StatusCode::BadRequest
                &&& response.content_type == MediaType::PlainText
                &&& response.body matches MmdsBody::InvalidHeader(name, value)
                &&& name@ == request.headers@[ttl].0@
                &&& value@ == request.headers@[ttl].1@
                &&& response.ttl_header is None
                &&& !response.allow_methods
            },
            Some(seconds) => {
                &&& step matches MmdsStep::GenerateToken { header, ttl_seconds }
                &&& header@ == request.headers@[ttl].0@
                &&& ttl_seconds == seconds
            },
        }
    }
}

/// What a request calls for.
pub open spec fn request_step(version: MmdsVersion, request: MmdsRequest, step: MmdsStep) -> bool {
    if request.uri@.len() == 0 {
        &&& step matches MmdsStep::Respond(response)
        &&& is_text(
            response,
            StatusCode::BadRequest,
            MediaType::PlainText,
            VmmMmdsError::InvalidURI.message(),
        )
    } else {
        match request.method {
            Method::Get => match version {
                MmdsVersion::V1 => asks_store(request, step),
                MmdsVersion::V2 => if token_index(request) < request.headers@.len() {
                    &&& step matches MmdsStep::CheckToken { token }
                    &&& token@ == request.headers@[token_index(request)].1@
                } else {
                    &&& step matches MmdsStep::Respond(response)
                    &&& is_text(
                        response,
                        StatusCode::Unauthorized,
                        MediaType::PlainText,
                        VmmMmdsError::NoTokenProvided.message(),
                    )
                },
            },
            Method::Put => put_step(request, step),
            _ => {
                &&& step matches MmdsStep::Respond(response)
                &&& response.status == StatusCode::MethodNotAllowed
                &&& response.content_type == MediaType::PlainText
                &&& response.body matches MmdsBody::Text(text)
                &&& text@ == VmmMmdsError::MethodNotAllowed.message()
                &&& response.ttl_header is None
                &&& response.allow_methods
            },
        }
    }
}

/// Asks the store for the value that a request is about.
fn ask_store(request: &MmdsRequest) -> (r: MmdsStep)
    ensures
        asks_store(*request, r),
{
    MmdsStep::GetValue {
        path: sanitize_uri(request.uri.as_str()),
        format: OutputFormat::from(request.accept),
    }
}

/// Decides what a request calls for.
pub fn convert_to_response(version: MmdsVersion, request: &MmdsRequest) -> (r: MmdsStep)
    ensures
        request_step(version, *request, r),
{
    if request.uri.as_str().unicode_len() == 0 {
        return MmdsStep::Respond(
            build_response(
                StatusCode::BadRequest,
                MediaType::PlainText,
                VmmMmdsError::InvalidURI.text(),
            ),
        );
    }
    match request.method {
        Method::Get => match version {
            MmdsVersion::V1 => ask_store(request),
            MmdsVersion::V2 => respond_to_get_request_v2(request),
        },
        Method::Put => respond_to_put_request(request),
        _ => {
            let mut response = build_response(
                StatusCode::MethodNotAllowed,
                MediaType::PlainText,
                VmmMmdsError::MethodNotAllowed.text(),
            );
            response.allow_methods = true;
            MmdsStep::Respond(response)
        },
    }
}

/// Decides what a request for a value calls for, where tokens are needed.
fn respond_to_get_request_v2(request: &MmdsRequest) -> (r: MmdsStep)
    requires
        request.uri@.len() > 0,
        request.method == Method::Get,
    ensures
        request_step(MmdsVersion::V2, *request, r),
{
    match get_header_value_pair(&request.headers, "x-metadata-token", "x-aws-ec2-metadata-token") {
        Some(i) => MmdsStep::CheckToken { token: request.headers[i].1.clone() },
        None => MmdsStep::Respond(
            build_response(
                StatusCode::Unauthorized,
                MediaType::PlainText,
                VmmMmdsError::NoTokenProvided.text(),
            ),
        ),
    }
}

/// Decides what follows once the token of a request was checked.
pub fn token_checked(request: &MmdsRequest, valid: bool) -> (r: MmdsStep)
    ensures
        valid ==> asks_store(*request, r),
        !valid ==> {
            &&& r matches MmdsStep::Respond(response)
            &&& is_text(
                response,
                StatusCode::Unauthorized,
                MediaType::PlainText,
                VmmMmdsError::InvalidToken.message(),
            )
        },
{
    if valid {
        ask_store(request)
    } else {
        MmdsStep::Respond(
            build_response(
                StatusCode::Unauthorized,
                MediaType::PlainText,
                VmmMmdsError::InvalidToken.text(),
            ),
        )
    }
}

/// Answers a request for a value with what the store said: the value, or an error and what is said
/// about it.
pub fn respond_to_get_request(
    request: &MmdsRequest,
    value: Result<String, (MmdsDatastoreError, String)>,
) -> (r: MmdsResponse)
    ensures
        match value {
            Ok(body) => is_text(r, StatusCode::OK, request.accept, body@),
            Err((MmdsDatastoreError::NotFound, _)) => is_text(
                r,
                StatusCode::NotFound,
                MediaType::PlainText,
                VmmMmdsError::ResourceNotFound(request.uri).message(),
            ),
            Err((MmdsDatastoreError::UnsupportedValueType, text)) => is_text(
                r,
                StatusCode::NotImplemented,
                MediaType::PlainText,
                text@,
            ),
            Err((MmdsDatastoreError::DataStoreLimitExceeded, text)) => is_text(
                r,
                StatusCode::PayloadTooLarge,
                MediaType::PlainText,
                text@,
            ),
        },
{
    match value {
        Ok(body) => build_response(StatusCode::OK, request.accept, body),
        Err((error, text)) => match error {
            MmdsDatastoreError::NotFound => build_response(
                StatusCode::NotFound,
                MediaType::PlainText,
                VmmMmdsError::ResourceNotFound(request.uri.clone()).text(),
            ),
            MmdsDatastoreError::UnsupportedValueType => build_response(
                StatusCode::NotImplemented,
                MediaType::PlainText,
                text,
            ),
            MmdsDatastoreError::DataStoreLimitExceeded => build_response(
                StatusCode::PayloadTooLarge,
                MediaType::PlainText,
                text,
            ),
        },
    }
}

/// Decides what a request that sets something calls for.
fn respond_to_put_request(request: &MmdsRequest) -> (r: MmdsStep)
    ensures
        put_step(*request, r),
{
    if let Some(i) = get_header_value_pair(&request.headers, "x-forwarded-for", "x-forwarded-for") {
        let mut response = build_response(
            StatusCode::BadRequest,
            MediaType::PlainText,
            String::new(),
        );
        response.body = MmdsBody::UnsupportedHeader(request.headers[i].0.clone());
        return MmdsStep::Respond(response);
    }
    let path = sanitize_uri(request.uri.as_str());
    if !same(path.as_str(), "/latest/api/token") {
        return MmdsStep::Respond(
            build_response(
                StatusCode::NotFound,
                MediaType::PlainText,
                VmmMmdsError::ResourceNotFound(request.uri.clone()).text(),
            ),
        );
    }
    match get_header_value_pair(
        &request.headers,
        "x-metadata-token-ttl-seconds",
        "x-aws-ec2-metadata-token-ttl-seconds",
    ) {
        None => MmdsStep::Respond(
            build_response(
                StatusCode::BadRequest,
                MediaType::PlainText,
                VmmMmdsError::NoTtlProvided.text(),
            ),
        ),
        Some(i) => match parse_u32(request.headers[i].1.as_str()) {
            Some(ttl_seconds) => MmdsStep::GenerateToken {
                header: request.headers[i].0.clone(),
                ttl_seconds,
            },
            None => {
                let mut response = build_response(
                    StatusCode::BadRequest,
                    MediaType::PlainText,
                    String::new(),
                );
                response.body = MmdsBody::InvalidHeader(
                    request.headers[i].0.clone(),
                    request.headers[i].1.clone(),
                );
                MmdsStep::Respond(response)
            },
        },
    }
}

/// Answers a request for a token with the token, or with what is said about the error.
pub fn token_generated(header: String, ttl_seconds: u32, token: Result<String, String>) -> (r:
    MmdsResponse)
    ensures
        match token {
            Ok(token) => {
                &&& r.status == StatusCode::OK
                &&& r.content_type == MediaType::PlainText
                &&& r.body == MmdsBody::Text(token)
                &&& r.ttl_header == Some((header, ttl_seconds))
                &&& !r.allow_methods
            },
            Err(text) => is_text(r, StatusCode::BadRequest, MediaType::PlainText, text@),
        },
{
    match token {
        Ok(token) => MmdsResponse {
            status: StatusCode::OK,
            content_type: MediaType::PlainText,
            body: MmdsBody::Text(token),
            allow_methods: false,
            ttl_header: Some((header, ttl_seconds)),
        },
        Err(text) => build_response(StatusCode::BadRequest, MediaType::PlainText, text),
    }
}

/// Where tokens are needed, no request reaches the store without a token that was checked.
pub proof fn law_store_needs_token(request: MmdsRequest, step: MmdsStep)
    requires
        request_step(MmdsVersion::V2, request, step),
    ensures
        !(step is GetValue),
{
}

/// A forwarded request gets no token.
pub proof fn law_forwarded_gets_no_token(
    version: MmdsVersion,
    request: MmdsRequest,
    step: MmdsStep,
)
    requires
        request_step(version, request, step),
        forwarded_index(request) < request.headers@.len(),
    ensures
        !(step is GenerateToken),
{
}

} // verus!
