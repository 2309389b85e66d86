//! Configuration of network devices.

use vstd::prelude::*;

use crate::devices::virtio::net::device::MacAddr;
use crate::vmm_config::rate_limit::RateLimiterConfig;

verus! {

/// Configuration of a network device.
#[derive(Debug)]
pub struct NetworkInterfaceConfig {
    /// Identifier.
    pub iface_id: String,
    /// Name of the host interface.
    pub host_dev_name: String,
    /// Address of the interface.
    pub guest_mac: Option<MacAddr>,
    /// Size of frames.
    pub mtu: Option<u16>,
    /// Limits on what the guest receives.
    pub rx_rate_limiter: Option<RateLimiterConfig>,
    /// Limits on what the guest sends.
    pub tx_rate_limiter: Option<RateLimiterConfig>,
}

impl NetworkInterfaceConfig {
    /// A copy.
    pub fn copied(&self) -> (r: NetworkInterfaceConfig)
        ensures
            r == *self,
    {
        NetworkInterfaceConfig {
            iface_id: self.iface_id.clone(),
            host_dev_name: self.host_dev_name.clone(),
            guest_mac: self.guest_mac,
            mtu: self.mtu,
            rx_rate_limiter: self.rx_rate_limiter,
            tx_rate_limiter: self.tx_rate_limiter,
        }
    }
}

/// Why a network device is refused.
#[derive(Debug, Clone, Copy, PartialEq, Eq, Structural)]
pub enum NetworkInterfaceError {
    /// Another device has the same address.
    GuestMacAddressInUse(MacAddr),
    /// The device cannot be created.
    CreateNetworkDevice,
}

/// A network device.
#[derive(Debug)]
pub struct NetEntry {
    /// Its configuration.
    pub config: NetworkInterfaceConfig,
    /// The address under which it answers for the metadata service.
    pub mmds_ipv4: Option<u32>,
}

/// The network devices.
#[derive(Debug)]
pub struct NetBuilder {
    /// The devices.
    pub devices: Vec<NetEntry>,
}

/// Whether a device with another identifier has the address of a configuration.
pub open spec fn mac_in_use(devices: Seq<NetEntry>, config: NetworkInterfaceConfig) -> bool {
    config.guest_mac is Some && exists|i: int|
        0 <= i < devices.len() && (#[trigger] devices[i]).config.guest_mac == config.guest_mac
            && devices[i].config.iface_id@ != config.iface_id@
}

/// The index of the first device with an identifier, or the number of devices if there is none.
pub open spec fn net_index(devices: Seq<NetEntry>, id: Seq<char>) -> int
    decreases devices.len(),
{
    if devices.len() == 0 || devices[0].config.iface_id@ == id {
        0
    } else {
        1 + net_index(devices.skip(1), id)
    }
}

/// Devices without the one with an identifier, whose place the last one takes.
pub open spec fn without_net(devices: Seq<NetEntry>, id: Seq<char>) -> Seq<NetEntry> {
    let i = net_index(devices, id);
    if 0 <= i < devices.len() {
        devices.update(i, devices.last()).drop_last()
    } else {
        devices
    }
}

/// The identifiers of devices, in order.
pub open spec fn net_ids(devices: Seq<NetEntry>) -> Seq<Seq<char>> {
    Seq::new(devices.len(), |i: int| devices[i].config.iface_id@)
}

/// The index of an identifier is that of a device with it, and no other has it where there is none.
pub proof fn lemma_net_index(devices: Seq<NetEntry>, id: Seq<char>)
    ensures
        0 <= net_index(devices, id) <= devices.len(),
        net_index(devices, id) < devices.len() ==> devices[net_index(
            devices,
            id,
        )].config.iface_id@ == id,
        net_index(devices, id) == devices.len() ==> forall|i: int|
            0 <= i < devices.len() ==> (#[trigger] devices[i]).config.iface_id@ != id,
    decreases devices.len(),
{
    if devices.len() > 0 && devices[0].config.iface_id@ != id {
        let rest = devices.skip(1);
        lemma_net_index(rest, id);
        if net_index(devices, id) == devices.len() {
            assert forall|i: int| 0 <= i < devices.len() implies (
            #[trigger] devices[i]).config.iface_id@ != id by {
                if i > 0 {
                    assert(rest[i - 1] == devices[i]);
                }
            }
        }
    }
}

/// Devices with identifiers of their own keep them without one of them, and none is left with its
/// identifier.
proof fn lemma_without_net(devices: Seq<NetEntry>, id: Seq<char>)
    requires
        net_ids(devices).no_duplicates(),
    ensures
        net_ids(without_net(devices, id)).no_duplicates(),
        forall|i: int|
            0 <= i < without_net(devices, id).len() ==> (#[trigger] without_net(
                devices,
                id,
            )[i]).config.iface_id@ != id,
{
    lemma_net_index(devices, id);
    let ids = net_ids(devices);
    let at = net_index(devices, id);
    let left = without_net(devices, id);
    if at < devices.len() {
        assert forall|i: int| 0 <= i < left.len() implies (#[trigger] left[i]).config.iface_id@
            != id by {
            let from = if i == at {
                devices.len() - 1
            } else {
                i
            };
            assert(left[i] == devices[from]);
            assert(ids[from] != ids[at]);
        }
        assert forall|i: int, j: int| 0 <= i < left.len() && 0 <= j < left.len() && i
            != j implies net_ids(left)[i] != net_ids(left)[j] by {
            let from = if i == at {
                devices.len() - 1
            } else {
                i
            };
            let to = if j == at {
                devices.len() - 1
            } else {
                j
            };
            assert(ids[from] != ids[to]);
        }
    }
}

impl NetBuilder {
    /// No two devices have the same identifier.
    pub open spec fn wf(self) -> bool {
        net_ids(self.devices@).no_duplicates()
    }

    /// No devices.
    pub fn new() -> (r: NetBuilder)
        ensures
            r.wf(),
            r.devices@.len() == 0,
    {
        NetBuilder { devices: Vec::new() }
    }

    /// Finds a device.
    pub fn find(&self, id: &String) -> (r: Option<usize>)
        ensures
            match r {
                Some(i) => i == net_index(self.devices@, id@) && i < self.devices@.len(),
                None => net_index(self.devices@, id@) == self.devices@.len(),
            },
    {
        let mut i: usize = 0;
        assert(self.devices@.skip(0) =~= self.devices@);
        while i < self.devices.len()
            invariant
                i <= self.devices@.len(),
                net_index(self.devices@, id@) == i + net_index(self.devices@.skip(i as int), id@),
            decreases self.devices@.len() - i,
        {
            assert(self.devices@.skip(i as int)[0] == self.devices@[i as int]);
            assert(self.devices@.skip(i as int).skip(1) =~= self.devices@.skip(i + 1));
            if self.devices[i].config.iface_id == *id {
                return Some(i);
            }
            i += 1;
        }
        None
    }

    /// Adds a device, or replaces the one with the same identifier. `created` says whether the host
    /// interface could be set up; the device that is replaced is gone even where it could not.
    pub fn build(&mut self, config: NetworkInterfaceConfig, created: Result<(), NetworkInterfaceError>)
        -> (r: Result<(), NetworkInterfaceError>)
        ensures
            old(self).wf() ==> final(self).wf(),
            mac_in_use(old(self).devices@, config) ==> {
                &&& r is Err
                &&& r->Err_0 == NetworkInterfaceError::GuestMacAddressInUse(
                    config.guest_mac->Some_0,
                )
                &&& final(self).devices@ == old(self).devices@
            },
            !mac_in_use(old(self).devices@, config) ==> match created {
                Err(e) => r is Err && r->Err_0 == e && final(self).devices@ == without_net(
                    old(self).devices@,
                    config.iface_id@,
                ),
                Ok(_) => r is Ok && final(self).devices@ == without_net(
                    old(self).devices@,
                    config.iface_id@,
                ).push(NetEntry { config, mmds_ipv4: None }),
            },
    {
        if let Some(mac) = config.guest_mac {
            let mut i: usize = 0;
            while i < self.devices.len()
                invariant
                    *self == *old(self),
                    i <= self.devices@.len(),
                    config.guest_mac == Some(mac),
                    forall|j: int|
                        0 <= j < i ==> !((#[trigger] self.devices@[j]).config.guest_mac
                            == config.guest_mac && self.devices@[j].config.iface_id@
                            != config.iface_id@),
                decreases self.devices@.len() - i,
            {
                if self.devices[i].config.guest_mac == Some(mac) && !(
                self.devices[i].config.iface_id == config.iface_id) {
                    assert(self.devices@[i as int].config.guest_mac == config.guest_mac);
                    return Err(NetworkInterfaceError::GuestMacAddressInUse(mac));
                }
                i += 1;
            }
        }
        let ghost before = self.devices@;
        proof {
            lemma_net_index(before, config.iface_id@);
        }
        if let Some(i) = self.find(&config.iface_id) {
            self.devices.swap_remove(i);
            assert(self.devices@ =~= without_net(before, config.iface_id@));
        }
        proof {
            if old(self).wf() {
                lemma_without_net(before, config.iface_id@);
            }
        }
        match created {
            Err(e) => Err(e),
            Ok(_) => {
                let ghost left = self.devices@;
                self.devices.push(NetEntry { config, mmds_ipv4: None });
                proof {
                    if old(self).wf() {
                        let (ids, kept) = (net_ids(self.devices@), net_ids(left));
                        assert forall|i: int, j: int| 0 <= i < ids.len() && 0 <= j < ids.len() && i
                            != j implies ids[i] != ids[j] by {
                            if i < left.len() {
                                assert(ids[i] == kept[i]);
                                assert(left[i].config.iface_id@ != config.iface_id@);
                            }
                            if j < left.len() {
                                assert(ids[j] == kept[j]);
                                assert(left[j].config.iface_id@ != config.iface_id@);
                            }
                        }
                    }
                }
                Ok(())
            },
        }
    }
}

/// Whether no two interfaces have the same address.
pub open spec fn addresses_differ(devices: Seq<NetEntry>) -> bool {
    forall|i: int, j: int|
        0 <= i < devices.len() && 0 <= j < devices.len() && i != j && (
        #[trigger] devices[i]).config.guest_mac is Some ==> devices[i].config.guest_mac != (
        #[trigger] devices[j]).config.guest_mac
}

/// An interface that is added is there, all with other names stay, and an interface with its name
/// that was there before is gone. No two interfaces ever have the same address.
pub proof fn law_interfaces_are_added(
    devices: Seq<NetEntry>,
    config: NetworkInterfaceConfig,
    k: int,
)
    requires
        net_ids(devices).no_duplicates(),
        0 <= k < devices.len() ==> devices[k].config.iface_id@ != config.iface_id@,
    ensures
        ({
            let entry = NetEntry { config, mmds_ipv4: None };
            let after = without_net(devices, config.iface_id@).push(entry);
            &&& after.last() == entry
            &&& 0 <= k < devices.len() ==> after.contains(devices[k])
            &&& forall|i: int|
                0 <= i < after.len() - 1 ==> (#[trigger] after[i]).config.iface_id@
                    != config.iface_id@
            &&& addresses_differ(devices) && !mac_in_use(devices, config) ==> addresses_differ(
                after,
            )
        }),
{
    let id = config.iface_id@;
    let entry = NetEntry { config, mmds_ipv4: None };
    let rest = without_net(devices, id);
    let after = rest.push(entry);
    lemma_net_index(devices, id);
    lemma_without_net(devices, id);
    let at = net_index(devices, id);
    if 0 <= k < devices.len() {
        if at < devices.len() {
            if k == devices.len() - 1 {
                assert(after[at] == devices[k]);
            } else {
                assert(after[k] == devices[k]);
            }
        } else {
            assert(after[k] == devices[k]);
        }
    }
    assert forall|i: int| 0 <= i < after.len() - 1 implies (#[trigger] after[i]).config.iface_id@
        != id by {
        assert(after[i] == rest[i]);
    }
    if addresses_differ(devices) && !mac_in_use(devices, config) {
        let source = |i: int|
            if at < devices.len() && i == at {
                devices.len() - 1
            } else {
                i
            };
        assert forall|i: int| 0 <= i < rest.len() implies #[trigger] rest[i] == devices[source(
            i,
        )] by {}
        assert forall|i: int, j: int|
            0 <= i < after.len() && 0 <= j < after.len() && i != j && (
            #[trigger] after[i]).config.guest_mac is Some implies after[i].config.guest_mac != (
        #[trigger] after[j]).config.guest_mac by {
            if i < rest.len() {
                assert(after[i] == rest[i] && rest[i] == devices[source(i)]);
            }
            if j < rest.len() {
                assert(after[j] == rest[j] && rest[j] == devices[source(j)]);
            }
            if i < rest.len() && j < rest.len() {
                assert(source(i) != source(j));
            } else if i < rest.len() {
                assert(devices[source(i)].config.iface_id@ != id);
            } else {
                assert(devices[source(j)].config.iface_id@ != id);
            }
        }
    }
}

} // verus!
