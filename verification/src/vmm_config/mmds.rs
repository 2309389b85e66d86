//! Configuration of the metadata service.

use vstd::prelude::*;

use crate::mmds::requests::MmdsVersion;

verus! {

/// The address of the service where none is given: 169.254.169.254.
pub const DEFAULT_IPV4_ADDR: u32 = 0xa9fe_a9fe;

/// Configuration of the metadata service.
#[derive(Debug)]
pub struct MmdsConfig {
    /// Version.
    pub version: MmdsVersion,
    /// Identifiers of the network devices that answer for it.
    pub network_interfaces: Vec<String>,
    /// Address.
    pub ipv4_address: Option<u32>,
    /// Whether values are given out as the older service does.
    pub imds_compat: bool,
}

/// Why a configuration is refused.
#[derive(Debug, Clone, Copy, PartialEq, Eq, Structural)]
pub enum MmdsConfigError {
    /// No network device is named.
    EmptyNetworkIfaceList,
    /// The address is not valid.
    InvalidIpv4Addr,
    /// A network device that is named is not there.
    InvalidNetworkInterfaceId,
    /// The store cannot be created.
    InitMmdsDatastore,
}

/// The settings of the metadata store.
#[derive(Debug)]
pub struct Mmds {
    /// Version.
    pub version: MmdsVersion,
    /// Whether values are given out as the older service does.
    pub imds_compat: bool,
    /// What tokens are bound to.
    pub aad: String,
    /// The most bytes that the store holds.
    pub data_store_limit: usize,
}

/// Whether an address is a link-local one that can be used: 169.254.x.y with x from 1 to 254.
pub open spec fn link_local(addr: u32) -> bool {
    0xa9fe_0100 <= addr <= 0xa9fe_feff
}

/// Whether an address is a link-local one that can be used.
pub fn is_link_local_valid(addr: u32) -> (r: bool)
    ensures
        r == link_local(addr),
{
    0xa9fe_0100 <= addr && addr <= 0xa9fe_feff
}

/// The metadata service can be reached at the addresses from 169.254.1.0 to 169.254.254.255, and at
/// no other.
pub proof fn law_addresses_of_the_metadata_service(addr: u32)
    ensures
        ({
            let a = addr as int;
            link_local(addr) <==> a / 16777216 == 169 && (a / 65536) % 256 == 254 && 1 <= (a / 256)
                % 256 <= 254
        }),
{
}

} // verus!
