//! What the API server does with a request and with the answer of the machine.

use vstd::prelude::*;

use crate::api_server::parsed_request::{
    fault_text, response_status, response_text, ParsedRequest, ParsingInfo, RequestError,
};
use crate::http::Response;
use crate::rpc_interface::{VmmActionError, VmmData};

verus! {

/// The response to a request that the machine answered, and what is to be logged about deprecated
/// parts of the request.
pub fn answer(parsing_info: ParsingInfo, outcome: &Result<VmmData, VmmActionError>) -> (r: (
    Response,
    Option<String>,
))
    ensures
        r.1 == parsing_info.deprecation_message,
        r.0.deprecation == parsing_info.deprecation_message is Some,
        r.0.status == response_status(*outcome),
        match response_text(*outcome) {
            None => r.0.body is None,
            Some(s) => r.0.body is Some && r.0.body->Some_0@ == s,
        },
{
    let mut parsing_info = parsing_info;
    let mut response = ParsedRequest::convert_to_response(outcome);
    let message = parsing_info.take_deprecation_message();
    if message.is_some() {
        response.deprecation = true;
    }
    (response, message)
}

/// The response to a request that was refused.
pub fn refuse(error: RequestError) -> (r: Response)
    ensures
        r.status == error@.status(),
        r.body is Some,
        r.body->Some_0@ == fault_text(error@.message()),
        !r.deprecation,
{
    error.into_response()
}

} // verus!
