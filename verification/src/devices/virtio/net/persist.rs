//! Saved state of network devices.

use vstd::prelude::*;

use crate::devices::virtio::device::VirtioDeviceType;
use crate::devices::virtio::net::device::{MacAddr, Net, NetError, MIN_MTU};
use crate::devices::virtio::net::tap::{build_terminated_if_name, terminated, unterminated, TapError,
    IFACE_NAME_MAX_LEN};
use crate::devices::virtio::persist::VirtioDeviceState;
use crate::devices::virtio::queue::Queue;
use crate::rate_limiter::{RateLimiter, RateLimiterState};
use vstd::utf8::{decode_utf8, encode_utf8, valid_utf8};

verus! {

/// What is saved of the configuration.
#[derive(Debug, Clone, Copy, PartialEq, Eq, Structural)]
pub struct NetConfigSpaceState {
    /// Address of the interface, if there is a fixed one.
    pub guest_mac: Option<MacAddr>,
    /// Size of frames, if it is advertised.
    pub mtu: Option<u16>,
}

/// Saved state of a network device.
#[derive(Debug)]
pub struct NetState {
    /// Identifier of the device.
    pub id: String,
    /// Name of the host interface.
    pub tap_if_name: String,
    /// State of the limits on what the guest receives.
    pub rx_rate_limiter_state: RateLimiterState,
    /// State of the limits on what the guest sends.
    pub tx_rate_limiter_state: RateLimiterState,
    /// Address of the metadata service on this interface.
    pub mmds_ns: Option<u32>,
    /// Configuration.
    pub config_space: NetConfigSpaceState,
    /// State that every virtio device has.
    pub virtio_state: VirtioDeviceState,
}

/// Why a network device cannot be restored.
#[derive(Debug)]
pub enum NetPersistError {
    /// The device cannot be created.
    CreateNet(NetError),
    /// There is no metadata store for the device.
    NoMmdsDataStore,
}

/// Whether a state is what is saved of a device.
pub open spec fn is_saved(state: NetState, net: Net) -> bool {
    &&& state.id == net.id
    &&& valid_utf8(unterminated(net.if_name@)) ==> state.tap_if_name@ == decode_utf8(
        unterminated(net.if_name@),
    )
    &&& !valid_utf8(unterminated(net.if_name@)) ==> state.tap_if_name@.len() == 0
    &&& state.rx_rate_limiter_state == (RateLimiterState {
        ops: net.rx_rate_limiter.ops,
        bandwidth: net.rx_rate_limiter.bandwidth,
    })
    &&& state.tx_rate_limiter_state == (RateLimiterState {
        ops: net.tx_rate_limiter.ops,
        bandwidth: net.tx_rate_limiter.bandwidth,
    })
    &&& state.mmds_ns == net.mmds_ipv4
    &&& state.config_space == (NetConfigSpaceState {
        guest_mac: net.guest_mac,
        mtu: net.advertised_mtu(),
    })
    &&& state.virtio_state == (VirtioDeviceState {
        device_type: VirtioDeviceType::Net,
        avail_features: net.avail_features,
        acked_features: net.acked_features,
        activated: net.activated,
    })
}

/// Whether a device was made from a saved state.
pub open spec fn is_restored(state: NetState, net: Net) -> bool {
    &&& net.id == state.id
    &&& net.if_name@ == terminated(encode_utf8(state.tap_if_name@))
    &&& net.rx_rate_limiter == (RateLimiter {
        ops: state.rx_rate_limiter_state.ops,
        bandwidth: state.rx_rate_limiter_state.bandwidth,
        timer_active: false,
    })
    &&& net.tx_rate_limiter == (RateLimiter {
        ops: state.tx_rate_limiter_state.ops,
        bandwidth: state.tx_rate_limiter_state.bandwidth,
        timer_active: false,
    })
    &&& net.mmds_ipv4 == state.mmds_ns
    &&& net.guest_mac == state.config_space.guest_mac
    &&& net.config_space.mtu == (match state.config_space.mtu {
        Some(mtu) => mtu,
        None => 0,
    })
    &&& net.config_space.guest_mac == (match state.config_space.guest_mac {
        Some(mac) => mac,
        None => MacAddr { b0: 0, b1: 0, b2: 0, b3: 0, b4: 0, b5: 0 },
    })
    &&& net.rx_buffer.is_unused()
    &&& net.tx_buffer.vecs@.len() == 0
    &&& net.tx_buffer.len == 0
    &&& net.avail_features == state.virtio_state.avail_features
    &&& net.acked_features == state.virtio_state.acked_features
    &&& !net.activated
}

impl NetState {
    /// The state to save of a device.
    pub fn save(net: &Net) -> (r: NetState)
        ensures
            is_saved(r, *net),
    {
        NetState {
            id: net.id.clone(),
            tap_if_name: net.iface_name(),
            rx_rate_limiter_state: net.rx_rate_limiter.save(),
            tx_rate_limiter_state: net.tx_rate_limiter.save(),
            mmds_ns: net.mmds_ipv4,
            config_space: NetConfigSpaceState { guest_mac: net.guest_mac, mtu: net.mtu() },
            virtio_state: VirtioDeviceState {
                device_type: VirtioDeviceType::Net,
                avail_features: net.avail_features,
                acked_features: net.acked_features,
                activated: net.activated,
            },
        }
    }

    /// The device that a saved state describes, with its queues. A device that answers for the
    /// metadata service needs a metadata store.
    pub fn restore(&self, rx_queue: Queue, tx_queue: Queue, has_mmds: bool) -> (r: Result<
        Net,
        NetPersistError,
    >)
        ensures
            encode_utf8(self.tap_if_name@).len() >= IFACE_NAME_MAX_LEN ==> r is Err && r->Err_0
                == NetPersistError::CreateNet(NetError::TapOpen(TapError::InvalidIfname)),
            encode_utf8(self.tap_if_name@).len() < IFACE_NAME_MAX_LEN ==> {
                if self.config_space.mtu is Some && self.config_space.mtu->Some_0 < MIN_MTU {
                    r is Err && r->Err_0 == NetPersistError::CreateNet(
                        NetError::InvalidMtu(self.config_space.mtu->Some_0),
                    )
                } else if self.mmds_ns is Some && !has_mmds {
                    r is Err && r->Err_0 == NetPersistError::NoMmdsDataStore
                } else {
                    &&& r is Ok
                    &&& is_restored(*self, r->Ok_0)
                    &&& r->Ok_0.rx_queue == rx_queue
                    &&& r->Ok_0.tx_queue == tx_queue
                    &&& rx_queue.wf() && rx_queue.staged@.len() == 0 && tx_queue.wf()
                        ==> r->Ok_0.wf()
                }
            },
    {
        let if_name = match build_terminated_if_name(self.tap_if_name.as_str()) {
            Ok(if_name) => if_name,
            Err(e) => {
                return Err(NetPersistError::CreateNet(NetError::TapOpen(e)));
            },
        };
        let mut net = match Net::new_with_tap(
            self.id.clone(),
            if_name,
            self.config_space.guest_mac,
            RateLimiter::restore(&self.rx_rate_limiter_state),
            RateLimiter::restore(&self.tx_rate_limiter_state),
            self.config_space.mtu,
        ) {
            Ok(net) => net,
            Err(e) => {
                return Err(NetPersistError::CreateNet(e));
            },
        };
        if let Some(ipv4) = self.mmds_ns {
            if !has_mmds {
                return Err(NetPersistError::NoMmdsDataStore);
            }
            net.mmds_ipv4 = Some(ipv4);
        }
        net.rx_queue = rx_queue;
        net.tx_queue = tx_queue;
        net.avail_features = self.virtio_state.avail_features;
        net.acked_features = self.virtio_state.acked_features;
        Ok(net)
    }
}

/// A device that is saved and restored has the same identity, features, limits and configuration.
pub proof fn law_saved_device_comes_back(before: Net, state: NetState, after: Net)
    requires
        is_saved(state, before),
        is_restored(state, after),
    ensures
        after.id == before.id,
        after.avail_features == before.avail_features,
        after.acked_features == before.acked_features,
        after.guest_mac == before.guest_mac,
        after.advertised_mtu() == before.advertised_mtu(),
        after.mmds_ipv4 == before.mmds_ipv4,
        after.rx_rate_limiter.ops == before.rx_rate_limiter.ops,
        after.rx_rate_limiter.bandwidth == before.rx_rate_limiter.bandwidth,
        after.tx_rate_limiter.ops == before.tx_rate_limiter.ops,
        after.tx_rate_limiter.bandwidth == before.tx_rate_limiter.bandwidth,
{
}

} // verus!
