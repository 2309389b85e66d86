//! What a guest can expect of the metadata service.

use vstd::prelude::*;

use vstd::utf8::encode_utf8;

use crate::http::{Method, StatusCode};
use crate::mmds::requests::{
    collapsed, digits_value, header_index, lower, number32, put_step, request_step, same_name, MediaType,
    MmdsBody, MmdsRequest, MmdsResponse, MmdsStep, MmdsVersion, OutputFormat,
};
use crate::utils::text::{decimal, digit};

verus! {

/// Repeated slashes count as one, and nothing else of a path changes.
pub proof fn law_repeated_slashes_count_once(a: Seq<char>, b: Seq<char>)
    ensures
        collapsed(a + seq!['/', '/'] + b) == collapsed(a + seq!['/'] + b),
    decreases b.len(),
{
    let two = a + seq!['/', '/'] + b;
    let one = a + seq!['/'] + b;
    if b.len() == 0 {
        assert(two.drop_last() =~= one);
    } else {
        let rest = b.drop_last();
        law_repeated_slashes_count_once(a, rest);
        assert(two.drop_last() =~= a + seq!['/', '/'] + rest);
        assert(one.drop_last() =~= a + seq!['/'] + rest);
        assert(two[two.len() - 2] == one[one.len() - 2]);
    }
}

/// Two names of headers are the same if they differ at most in the case of letters.
pub proof fn law_names_ignore_case(a: Seq<char>, b: Seq<char>)
    ensures
        same_name(a, b) <==> a.len() == b.len() && forall|i: int|
            0 <= i < a.len() ==> {
                ||| #[trigger] a[i] == b[i]
                ||| 'A' <= a[i] <= 'Z' && b[i] as int == a[i] as int + 32
                ||| 'A' <= b[i] <= 'Z' && a[i] as int == b[i] as int + 32
            },
{
    if same_name(a, b) {
        assert forall|i: int| 0 <= i < a.len() implies {
            ||| #[trigger] a[i] == b[i]
            ||| 'A' <= a[i] <= 'Z' && b[i] as int == a[i] as int + 32
            ||| 'A' <= b[i] <= 'Z' && a[i] as int == b[i] as int + 32
        } by {
            assert(lower(a[i]) == lower(b[i]));
        }
    }
}

/// Whether a header is the first one with either of two names.
pub open spec fn is_first_header(
    headers: Seq<(String, String)>,
    i: int,
    a: Seq<char>,
    b: Seq<char>,
) -> bool {
    &&& 0 <= i < headers.len()
    &&& same_name(headers[i].0@, a) || same_name(headers[i].0@, b)
    &&& forall|j: int|
        0 <= j < i ==> !same_name((#[trigger] headers[j]).0@, a) && !same_name(headers[j].0@, b)
}

/// Whether no header has either of two names.
pub open spec fn has_no_header(
    headers: Seq<(String, String)>,
    a: Seq<char>,
    b: Seq<char>,
) -> bool {
    forall|j: int|
        0 <= j < headers.len() ==> !same_name((#[trigger] headers[j]).0@, a) && !same_name(
            headers[j].0@,
            b,
        )
}

proof fn lemma_header(headers: Seq<(String, String)>, i: int, a: Seq<char>, b: Seq<char>)
    ensures
        is_first_header(headers, i, a, b) ==> header_index(headers, a, b) == i,
        has_no_header(headers, a, b) ==> header_index(headers, a, b) >= headers.len(),
    decreases headers.len(),
{
    if headers.len() > 0 {
        let rest = headers.skip(1);
        lemma_header(rest, i - 1, a, b);
        if is_first_header(headers, i, a, b) && i > 0 {
            assert(!same_name(headers[0].0@, a) && !same_name(headers[0].0@, b));
            assert forall|j: int| 0 <= j < i - 1 implies !same_name((#[trigger] rest[j]).0@, a)
                && !same_name(rest[j].0@, b) by {
                assert(rest[j] == headers[j + 1]);
            }
            assert(rest[i - 1] == headers[i]);
            assert(is_first_header(rest, i - 1, a, b));
        }
        if has_no_header(headers, a, b) {
            assert(!same_name(headers[0].0@, a) && !same_name(headers[0].0@, b));
            assert forall|j: int| 0 <= j < rest.len() implies !same_name((#[trigger] rest[j]).0@, a)
                && !same_name(rest[j].0@, b) by {
                assert(rest[j] == headers[j + 1]);
            }
        }
    }
}

/// Whether a response is text with a status.
pub open spec fn says(response: MmdsResponse, status: StatusCode, text: Seq<char>) -> bool {
    &&& response.status == status
    &&& response.content_type == MediaType::PlainText
    &&& response.body matches MmdsBody::Text(body) && body@ == text
    &&& response.ttl_header is None
}

/// In version one a value is looked up at once, by the path with repeated slashes made one, as JSON
/// where the guest accepts it and as plain text where not.
pub proof fn law_version_one_needs_no_token(request: MmdsRequest, step: MmdsStep)
    requires
        request_step(MmdsVersion::V1, request, step),
        request.method == Method::Get,
        request.uri@.len() > 0,
        encode_utf8(request.uri@).len() < 0xffff_ffff,
    ensures
        step matches MmdsStep::GetValue { path, format } && path@ == collapsed(request.uri@)
            && format == (if request.accept == MediaType::ApplicationJson {
            OutputFormat::Json
        } else {
            OutputFormat::Imds
        }),
{
}

/// In version two the token is checked that the first header with one of its two names holds, and
/// a request without such a header is told so with status 401.
pub proof fn law_version_two_checks_the_token(request: MmdsRequest, step: MmdsStep, i: int)
    requires
        request_step(MmdsVersion::V2, request, step),
        request.method == Method::Get,
        request.uri@.len() > 0,
    ensures
        is_first_header(
            request.headers@,
            i,
            "x-metadata-token"@,
            "x-aws-ec2-metadata-token"@,
        ) ==> (step matches MmdsStep::CheckToken { token } && token@ == request.headers@[i].1@),
        has_no_header(request.headers@, "x-metadata-token"@, "x-aws-ec2-metadata-token"@) ==> (
        step matches MmdsStep::Respond(response) && says(
            response,
            StatusCode::Unauthorized,
            "No MMDS token provided. Use `X-metadata-token` or `X-aws-ec2-metadata-token` header to specify the session token."@,
        )),
{
    lemma_header(request.headers@, i, "x-metadata-token"@, "x-aws-ec2-metadata-token"@);
}

/// Whether a request asks for a token: it is put at the path of tokens and was not forwarded.
pub open spec fn asks_for_token(request: MmdsRequest) -> bool {
    &&& request.method == Method::Put
    &&& request.uri@.len() > 0
    &&& encode_utf8(request.uri@).len() < 0xffff_ffff
    &&& collapsed(request.uri@) == "/latest/api/token"@
    &&& has_no_header(request.headers@, "x-forwarded-for"@, "x-forwarded-for"@)
}

/// A request for a token says for how many seconds it holds, in the first header with one of two
/// names. It gets a token for so many seconds. In either version, a request without such a header is
/// told so with status 400.
pub proof fn law_tokens_hold_as_long_as_asked(
    version: MmdsVersion,
    request: MmdsRequest,
    step: MmdsStep,
    i: int,
    seconds: u32,
)
    requires
        request_step(version, request, step),
        asks_for_token(request),
    ensures
        is_first_header(
            request.headers@,
            i,
            "x-metadata-token-ttl-seconds"@,
            "x-aws-ec2-metadata-token-ttl-seconds"@,
        ) && request.headers@[i].1@ == decimal(seconds as nat) ==> (
        step matches MmdsStep::GenerateToken { header, ttl_seconds } && ttl_seconds == seconds
            && header@ == request.headers@[i].0@),
        has_no_header(
            request.headers@,
            "x-metadata-token-ttl-seconds"@,
            "x-aws-ec2-metadata-token-ttl-seconds"@,
        ) ==> (step matches MmdsStep::Respond(response) && says(
            response,
            StatusCode::BadRequest,
            "Token time to live value not found. Use `X-metadata-token-ttl-seconds` or `X-aws-ec2-metadata-token-ttl-seconds` header to specify the token's lifetime."@,
        )),
{
    let (a, b) = ("x-metadata-token-ttl-seconds"@, "x-aws-ec2-metadata-token-ttl-seconds"@);
    lemma_header(request.headers@, i, a, b);
    lemma_header(request.headers@, 0, "x-forwarded-for"@, "x-forwarded-for"@);
    law_decimal_numbers_are_read(seconds);
}

/// A token is never made for another path: such a request is told with status 404 that there is
/// nothing, and one that was forwarded gets status 400.
pub proof fn law_tokens_come_from_one_path(
    version: MmdsVersion,
    request: MmdsRequest,
    step: MmdsStep,
    i: int,
)
    requires
        request_step(version, request, step),
        request.method == Method::Put,
        request.uri@.len() > 0,
        encode_utf8(request.uri@).len() < 0xffff_ffff,
    ensures
        is_first_header(request.headers@, i, "x-forwarded-for"@, "x-forwarded-for"@) ==> (
        step matches MmdsStep::Respond(response) && response.status == StatusCode::BadRequest),
        collapsed(request.uri@) != "/latest/api/token"@ && has_no_header(
            request.headers@,
            "x-forwarded-for"@,
            "x-forwarded-for"@,
        ) ==> (step matches MmdsStep::Respond(response) && says(
            response,
            StatusCode::NotFound,
            "Resource not found: "@ + request.uri@ + "."@,
        )),
{
    lemma_header(request.headers@, i, "x-forwarded-for"@, "x-forwarded-for"@);
}

/// Only requests to get and to put something are served: any other is told so with status 405.
pub proof fn law_other_methods_are_not_allowed(
    version: MmdsVersion,
    request: MmdsRequest,
    step: MmdsStep,
)
    requires
        request_step(version, request, step),
        request.uri@.len() > 0,
        request.method == Method::Patch || request.method == Method::Delete,
    ensures
        step matches MmdsStep::Respond(response) && says(
            response,
            StatusCode::MethodNotAllowed,
            "Not allowed HTTP method."@,
        ) && response.allow_methods,
{
}

/// The decimal notation of a number is read as the number.
pub proof fn law_decimal_numbers_are_read(n: u32)
    ensures
        number32(decimal(n as nat)) == Some(n),
{
    lemma_decimal(n as nat);
    let s = decimal(n as nat);
    assert('0' <= s[0] <= '9');
}

proof fn lemma_decimal(n: nat)
    ensures
        decimal(n).len() > 0,
        forall|i: int| 0 <= i < decimal(n).len() ==> '0' <= #[trigger] decimal(n)[i] <= '9',
        digits_value(decimal(n)) == n,
    decreases n,
{
    let s = decimal(n);
    if n < 10 {
        assert(s.drop_last() =~= Seq::<char>::empty());
        assert(digits_value(s.drop_last()) == 0);
        assert(s.last() == digit(n));
    } else {
        lemma_decimal(n / 10);
        assert(s.drop_last() =~= decimal(n / 10));
        assert(s.last() == digit(n % 10));
    }
}

/// Text that holds anything but digits, behind at most one plus sign, is no number.
pub proof fn law_only_digits_are_numbers(s: Seq<char>, i: int)
    requires
        0 <= i < s.len(),
        !('0' <= s[i] <= '9'),
        i > 0 || s[i] != '+',
    ensures
        number32(s) is None,
{
    if s[0] == '+' {
        assert(s.skip(1)[i - 1] == s[i]);
    }
}

/// A request for a token that is not met is told so at once, with nothing that belongs to a token.
pub proof fn law_no_token_no_lifetime(request: MmdsRequest, step: MmdsStep)
    requires
        put_step(request, step),
    ensures
        step is Respond || step is GenerateToken,
        step matches MmdsStep::Respond(response) ==> {
            &&& response.ttl_header is None
            &&& !response.allow_methods
            &&& response.content_type == MediaType::PlainText
            &&& response.status == StatusCode::BadRequest || response.status == StatusCode::NotFound
        },
{
}

/// A plus sign before a number makes no difference, and without a digit there is no number.
pub proof fn law_sign_makes_no_difference(s: Seq<char>)
    requires
        s.len() == 0 || s[0] != '+',
    ensures
        s.len() > 0 ==> number32(seq!['+'] + s) == number32(s),
        number32(seq![]) is None,
        number32(seq!['+']) is None,
{
    assert((seq!['+'] + s).skip(1) =~= s);
    assert(seq!['+'].skip(1) =~= seq![]);
}

} // verus!
