//! Configuration of persistent memory devices.

use vstd::prelude::*;

use crate::vmm_config::rate_limit::RateLimiterConfig;

verus! {

/// Why a persistent memory device cannot be configured.
#[derive(Debug, Clone, Copy, PartialEq, Eq, Structural)]
pub enum PmemConfigError {
    /// The root device is a block device already.
    AddingSecondRootDevice,
    /// There is a persistent memory device that is the root device already.
    RootPmemDeviceAlreadyExist,
}

/// A change to a persistent memory device at run time. Only its limits can be changed.
#[derive(Debug)]
pub struct PmemDeviceUpdateConfig {
    /// Identifier of the device.
    pub id: String,
    /// New limits.
    pub rate_limiter: Option<RateLimiterConfig>,
}

/// Configuration of a persistent memory device.
#[derive(Debug)]
pub struct PmemConfig {
    /// Unique identifier of the device.
    pub id: String,
    /// Path of the backing file.
    pub path_on_host: String,
    /// Whether the guest boots from the device.
    pub root_device: bool,
    /// Whether the file is mapped read-only.
    pub read_only: bool,
    /// Limits on flushes.
    pub rate_limiter: Option<RateLimiterConfig>,
}

impl PmemConfig {
    /// A copy of the configuration.
    pub fn copied(&self) -> (r: PmemConfig)
        ensures
            r == *self,
    {
        PmemConfig {
            id: self.id.clone(),
            path_on_host: self.path_on_host.clone(),
            root_device: self.root_device,
            read_only: self.read_only,
            rate_limiter: self.rate_limiter,
        }
    }
}

/// The persistent memory devices of a machine.
#[derive(Debug)]
pub struct PmemBuilder {
    /// Configurations of the devices.
    pub configs: Vec<PmemConfig>,
}

/// Whether one of the devices is the root device.
pub open spec fn some_root(configs: Seq<PmemConfig>) -> bool {
    exists|i: int| 0 <= i < configs.len() && (#[trigger] configs[i]).root_device
}

/// Whether the device at `i` is the first one with a given identifier.
pub open spec fn first_with_id(configs: Seq<PmemConfig>, id: Seq<char>, i: int) -> bool {
    &&& 0 <= i < configs.len()
    &&& configs[i].id@ == id
    &&& forall|j: int| 0 <= j < i ==> (#[trigger] configs[j]).id@ != id
}

/// Whether no device has a given identifier.
pub open spec fn none_with_id(configs: Seq<PmemConfig>, id: Seq<char>) -> bool {
    forall|j: int| 0 <= j < configs.len() ==> (#[trigger] configs[j]).id@ != id
}

/// What adding a device to a list does. A device with the identifier of another takes its place, any
/// other comes last, and there is one root device in all.
pub open spec fn pmem_added(
    before: Seq<PmemConfig>,
    after: Seq<PmemConfig>,
    config: PmemConfig,
    has_block_root: bool,
    r: Result<(), PmemConfigError>,
) -> bool {
    &&& r is Err ==> after == before
    &&& config.root_device && has_block_root ==> r is Err && r->Err_0
        == PmemConfigError::AddingSecondRootDevice
    &&& !(config.root_device && has_block_root) ==> {
        &&& forall|i: int| #[trigger]
            first_with_id(before, config.id@, i) ==> {
                &&& r is Err <==> !before[i].root_device && config.root_device && some_root(before)
                &&& r is Err ==> r->Err_0 == PmemConfigError::RootPmemDeviceAlreadyExist
                &&& r is Ok ==> after == before.update(i, config)
            }
        &&& none_with_id(before, config.id@) ==> {
            &&& r is Err <==> config.root_device && some_root(before)
            &&& r is Err ==> r->Err_0 == PmemConfigError::RootPmemDeviceAlreadyExist
            &&& r is Ok ==> after == before.push(config)
        }
    }
}

impl PmemBuilder {
    /// No two devices have the same identifier, and at most one is the root device.
    pub open spec fn wf(self) -> bool {
        &&& forall|i: int, j: int|
            0 <= i < j < self.configs@.len() ==> (#[trigger] self.configs@[i]).id@ != (
            #[trigger] self.configs@[j]).id@
        &&& forall|i: int, j: int|
            0 <= i < j < self.configs@.len() ==> !((#[trigger] self.configs@[i]).root_device && (
            #[trigger] self.configs@[j]).root_device)
    }

    /// No devices.
    pub fn new() -> (r: PmemBuilder)
        ensures
            r.wf(),
            r.configs@.len() == 0,
    {
        PmemBuilder { configs: Vec::new() }
    }

    /// Whether one of the devices is the root device.
    pub fn has_root_device(&self) -> (r: bool)
        ensures
            r == some_root(self.configs@),
    {
        let mut i: usize = 0;
        while i < self.configs.len()
            invariant
                i <= self.configs@.len(),
                forall|j: int| 0 <= j < i ==> !(#[trigger] self.configs@[j]).root_device,
            decreases self.configs.len() - i,
        {
            if self.configs[i].root_device {
                return true;
            }
            i = i + 1;
        }
        false
    }

    // The position of the first device with a given identifier.
    fn position(&self, id: &String) -> (r: Option<usize>)
        ensures
            match r {
                Some(i) => first_with_id(self.configs@, id@, i as int),
                None => none_with_id(self.configs@, id@),
            },
    {
        let mut i: usize = 0;
        while i < self.configs.len()
            invariant
                i <= self.configs@.len(),
                forall|j: int| 0 <= j < i ==> (#[trigger] self.configs@[j]).id@ != id@,
            decreases self.configs.len() - i,
        {
            if self.configs[i].id == *id {
                return Some(i);
            }
            i = i + 1;
        }
        None
    }

    /// Adds a device, or replaces the one with the same identifier.
    pub fn build(&mut self, config: PmemConfig, has_block_root: bool) -> (r: Result<
        (),
        PmemConfigError,
    >)
        ensures
            pmem_added(old(self).configs@, final(self).configs@, config, has_block_root, r),
            r is Err ==> final(self).configs == old(self).configs,
            old(self).wf() ==> final(self).wf(),
    {
        if config.root_device && has_block_root {
            return Err(PmemConfigError::AddingSecondRootDevice);
        }
        let ghost before = self.configs@;
        match self.position(&config.id) {
            Some(index) => {
                assert(forall|i: int| #[trigger]
                    first_with_id(before, config.id@, i) ==> i == index) by {
                    assert forall|i: int| #[trigger]
                        first_with_id(before, config.id@, i) implies i == index by {
                        if i < index {
                            assert(before[i].id@ != config.id@);
                        }
                        if index < i {
                            assert(before[index as int].id@ != config.id@);
                        }
                    }
                }
                if !self.configs[index].root_device && config.root_device
                    && self.has_root_device() {
                    return Err(PmemConfigError::RootPmemDeviceAlreadyExist);
                }
                self.configs.set(index, config);
            },
            None => {
                if config.root_device && self.has_root_device() {
                    return Err(PmemConfigError::RootPmemDeviceAlreadyExist);
                }
                self.configs.push(config);
            },
        }
        Ok(())
    }
}

/// A device is refused exactly when it would be a second root device beside another one. One that is
/// taken is in the list, together with all devices that have other identifiers and with nothing else.
pub proof fn law_devices_are_added(
    builder: PmemBuilder,
    after: Seq<PmemConfig>,
    config: PmemConfig,
    has_block_root: bool,
    r: Result<(), PmemConfigError>,
    k: int,
)
    requires
        builder.wf(),
        pmem_added(builder.configs@, after, config, has_block_root, r),
    ensures
        ({
            let before = builder.configs@;
            let other_root = exists|i: int|
                0 <= i < before.len() && (#[trigger] before[i]).root_device && before[i].id@
                    != config.id@;
            &&& r is Err <==> config.root_device && (has_block_root || other_root)
            &&& r is Err && has_block_root ==> r->Err_0 == PmemConfigError::AddingSecondRootDevice
            &&& r is Err && !has_block_root ==> r->Err_0
                == PmemConfigError::RootPmemDeviceAlreadyExist
            &&& r is Err ==> after == before
            &&& r is Ok ==> after.contains(config)
            &&& r is Ok && 0 <= k < before.len() && before[k].id@ != config.id@ ==> after[k]
                == before[k]
            &&& r is Ok && 0 <= k < after.len() && after[k].id@ == config.id@ ==> after[k] == config
            &&& r is Ok ==> after.len() == before.len() + (if none_with_id(before, config.id@) {
                1int
            } else {
                0
            })
        }),
{
    let before = builder.configs@;
    let id = config.id@;
    if none_with_id(before, id) {
        if r is Ok {
            assert(after[before.len() as int] == config);
        }
        if some_root(before) {
            let i = choose|i: int| 0 <= i < before.len() && (#[trigger] before[i]).root_device;
            assert(before[i].id@ != id);
        }
    } else {
        let i = choose|i: int| 0 <= i < before.len() && (#[trigger] before[i]).id@ == id;
        assert forall|j: int| 0 <= j < i implies (#[trigger] before[j]).id@ != id by {
            assert(before[j].id@ != before[i].id@);
        }
        assert(first_with_id(before, id, i));
        if r is Ok {
            assert(after[i] == config);
        }
        if 0 <= k < before.len() && before[k].id@ == id && k != i {
            assert(before[k].id@ != before[i].id@) by {
                if k < i {
                } else {
                    assert(before[i].id@ != before[k].id@);
                }
            }
        }
        if some_root(before) {
            let q = choose|q: int| 0 <= q < before.len() && (#[trigger] before[q]).root_device;
            if q != i {
                assert(before[q].id@ != id) by {
                    if q < i {
                        assert(before[q].id@ != before[i].id@);
                    } else {
                        assert(before[i].id@ != before[q].id@);
                    }
                }
                assert(!before[i].root_device) by {
                    if q < i {
                        assert(!(before[q].root_device && before[i].root_device));
                    } else {
                        assert(!(before[i].root_device && before[q].root_device));
                    }
                }
            }
        }
    }
}

} // verus!
