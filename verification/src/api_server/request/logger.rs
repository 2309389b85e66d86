//! Requests on the logger.

use vstd::prelude::*;

use crate::api_server::parsed_request::ParsedRequest;
use crate::rpc_interface::VmmAction;
use crate::vmm_config::logger::LoggerConfig;

verus! {

/// The request that configures the logger.
pub fn parse_put_logger(config: LoggerConfig) -> (r: ParsedRequest)
    ensures
        r.is_plain(VmmAction::ConfigureLogger(config)),
{
    ParsedRequest::new_sync(VmmAction::ConfigureLogger(config))
}

} // verus!
