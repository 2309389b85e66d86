//! Requests on hotpluggable memory.

use vstd::prelude::*;

use crate::api_server::parsed_request::ParsedRequest;
use crate::rpc_interface::VmmAction;
use crate::vmm_config::memory_hotplug::{MemoryHotplugConfig, MemoryHotplugSizeUpdate};

verus! {

/// The request that asks for the state of hotpluggable memory.
pub fn parse_get_memory_hotplug() -> (r: ParsedRequest)
    ensures
        r.is_plain(VmmAction::GetMemoryHotplugStatus),
{
    ParsedRequest::new_sync(VmmAction::GetMemoryHotplugStatus)
}

/// The request that configures hotpluggable memory.
pub fn parse_put_memory_hotplug(config: MemoryHotplugConfig) -> (r: ParsedRequest)
    ensures
        r.is_plain(VmmAction::SetMemoryHotplugDevice(config)),
{
    ParsedRequest::new_sync(VmmAction::SetMemoryHotplugDevice(config))
}

/// The request that plugs or unplugs memory.
pub fn parse_patch_memory_hotplug(update: MemoryHotplugSizeUpdate) -> (r: ParsedRequest)
    ensures
        r.is_plain(VmmAction::UpdateMemoryHotplugSize(update)),
{
    ParsedRequest::new_sync(VmmAction::UpdateMemoryHotplugSize(update))
}

} // verus!
