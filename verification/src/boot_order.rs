//! In which order a machine is booted and restored, and with which devices.

use vstd::prelude::*;

use crate::builder::{
    all_steps, are_inputs_of, block_entries, block_entry, device_steps, entries,
    entry_steps, first_steps, last_steps, net_entries, optional_entry, pmem_entries,
    restore_first, restore_last, restore_steps, restored_from_snapshot, root_args, step_error,
    tsc_steps, vcpu_steps, BootInputs, BuildMicrovmFromSnapshotError, Vmm, BootStep, DeviceEntry, DeviceIds, RestoreInputs, RestoreStep, RootArg,
};
use crate::devices::virtio::device::VirtioDeviceType;
use crate::resources::VmResources;
use crate::utils::text::decimal;
use crate::vmm_config::boot_source::BootSourceConfig;
use crate::vmm_config::instance_info::InstanceInfo;

verus! {

/// Whether a step is one of a list.
pub open spec fn takes_step(steps: Seq<BootStep>, step: BootStep) -> bool {
    exists|i: int| 0 <= i < steps.len() && #[trigger] steps[i] == step
}

proof fn lemma_either(a: Seq<BootStep>, b: Seq<BootStep>, step: BootStep)
    ensures
        takes_step(a + b, step) <==> takes_step(a, step) || takes_step(b, step),
{
    let s = a + b;
    if takes_step(s, step) {
        let i = choose|i: int| 0 <= i < s.len() && #[trigger] s[i] == step;
        if i < a.len() {
            assert(a[i] == step);
        } else {
            assert(b[i - a.len()] == step);
        }
    }
    if takes_step(a, step) {
        let i = choose|i: int| 0 <= i < a.len() && #[trigger] a[i] == step;
        assert(s[i] == step);
    }
    if takes_step(b, step) {
        let i = choose|i: int| 0 <= i < b.len() && #[trigger] b[i] == step;
        assert(s[a.len() + i] == step);
    }
}

/// The steps that are taken for one device.
proof fn lemma_entry(entry: DeviceEntry, at: usize, step: BootStep)
    ensures
        takes_step(entry_steps(entry, at), step) <==> step == BootStep::Attach(at) || step
            == BootStep::NameRoot(at) && entry.root is Some || step == BootStep::CreatePmem(at)
            && entry.device_type == VirtioDeviceType::Pmem || step == BootStep::CreateVirtioMem(at)
            && entry.device_type == VirtioDeviceType::Mem,
{
    let steps = entry_steps(entry, at);
    assert(steps[steps.len() - 1] == BootStep::Attach(at));
    if entry.root is Some {
        assert(steps[0] == BootStep::NameRoot(at));
    }
    if entry.device_type == VirtioDeviceType::Pmem {
        assert(steps[steps.len() - 2] == BootStep::CreatePmem(at));
    }
    if entry.device_type == VirtioDeviceType::Mem {
        assert(steps[steps.len() - 2] == BootStep::CreateVirtioMem(at));
    }
}

/// Whether a step is one that is taken for one of the first devices.
spec fn is_device_step(list: Seq<DeviceEntry>, n: nat, step: BootStep) -> bool {
    match step {
        BootStep::Attach(at) => at < n,
        BootStep::NameRoot(at) => at < n && list[at as int].root is Some,
        BootStep::CreatePmem(at) => at < n && list[at as int].device_type == VirtioDeviceType::Pmem,
        BootStep::CreateVirtioMem(at) => at < n && list[at as int].device_type
            == VirtioDeviceType::Mem,
        _ => false,
    }
}

proof fn lemma_devices(list: Seq<DeviceEntry>, n: nat, step: BootStep)
    requires
        n <= list.len() <= usize::MAX,
    ensures
        takes_step(device_steps(list, n), step) <==> is_device_step(list, n, step),
    decreases n,
{
    if n > 0 {
        let before = device_steps(list, (n - 1) as nat);
        let own = entry_steps(list[n - 1], (n - 1) as usize);
        lemma_devices(list, (n - 1) as nat, step);
        lemma_either(before, own, step);
        lemma_entry(list[n - 1], (n - 1) as usize, step);
    }
}

/// Every device is attached, a root device is named, and the devices that need memory of their own
/// are created. Nothing of this is done for anything else.
pub proof fn law_every_device_is_attached(inputs: BootInputs, at: usize)
    requires
        entries(inputs).len() <= usize::MAX,
    ensures
        takes_step(all_steps(inputs), BootStep::Attach(at)) <==> at < entries(inputs).len(),
        takes_step(all_steps(inputs), BootStep::NameRoot(at)) <==> at < entries(inputs).len()
            && entries(inputs)[at as int].root is Some,
        takes_step(all_steps(inputs), BootStep::CreatePmem(at)) <==> at < entries(inputs).len()
            && entries(inputs)[at as int].device_type == VirtioDeviceType::Pmem,
        takes_step(all_steps(inputs), BootStep::CreateVirtioMem(at)) <==> at
            < entries(inputs).len() && entries(inputs)[at as int].device_type
            == VirtioDeviceType::Mem,
{
    lemma_all(inputs, BootStep::Attach(at));
    lemma_all(inputs, BootStep::NameRoot(at));
    lemma_all(inputs, BootStep::CreatePmem(at));
    lemma_all(inputs, BootStep::CreateVirtioMem(at));
}

proof fn lemma_all(inputs: BootInputs, step: BootStep)
    requires
        entries(inputs).len() <= usize::MAX,
        step is Attach || step is NameRoot || step is CreatePmem || step is CreateVirtioMem,
    ensures
        takes_step(all_steps(inputs), step) <==> is_device_step(
            entries(inputs),
            entries(inputs).len(),
            step,
        ),
{
    let list = entries(inputs);
    let devices = device_steps(list, list.len());
    lemma_devices(list, list.len(), step);
    lemma_either(first_steps(inputs), devices, step);
    lemma_either(first_steps(inputs) + devices, last_steps(inputs.has_vcpu_filter), step);
}

/// Memory is there before the kernel is loaded, the kernel before any device, and the devices before
/// the vCPUs start. Hotpluggable memory is placed and registered with the sizes that are asked for.
pub proof fn law_order_of_booting(inputs: BootInputs, i: int)
    requires
        entries(inputs).len() <= usize::MAX,
        0 <= i < all_steps(inputs).len(),
    ensures
        ({
            let steps = all_steps(inputs);
            let more = if inputs.memory_hotplug is Some {
                3int
            } else {
                0
            };
            let devices = first_steps(inputs).len();
            &&& steps[0] == BootStep::AllocateGuestMemory
            &&& steps[1] == BootStep::GetCpuTemplate
            &&& steps[2] == BootStep::OpenKvm
            &&& steps[3] == BootStep::CreateVm
            &&& steps[4] == BootStep::CreateVcpus(inputs.vcpu_count)
            &&& steps[5] == BootStep::RegisterMemory
            &&& inputs.memory_hotplug matches Some(c) ==> steps[6] == BootStep::PlaceHotplugMemory(
                c.total_size_mib,
            ) && steps[7] == BootStep::AllocateHotplugMemory(c.total_size_mib) && steps[8]
                == BootStep::RegisterHotplugMemory(c.slot_size_mib)
            &&& steps[6 + more] == BootStep::LoadKernel
            &&& steps[7 + more] == BootStep::LoadInitrd
            &&& steps[8 + more] == BootStep::NewDeviceManager
            &&& steps[9 + more] == (if inputs.pci_enabled {
                BootStep::EnablePci
            } else {
                BootStep::PciOff
            })
            &&& steps[i] is Attach ==> 9 + more < i
            &&& inputs.has_vcpu_filter ==> steps[steps.len() - 6] == BootStep::AttachVmGenId
                && steps[steps.len() - 5] == BootStep::AttachVmClock && steps[steps.len() - 4]
                == BootStep::ConfigureSystem && steps[steps.len() - 3] == BootStep::StartVcpus
            &&& !inputs.has_vcpu_filter ==> steps.last() == BootStep::FailMissingFilter
        }),
{
    let first = first_steps(inputs);
    let steps = all_steps(inputs);
    assert(first.len() >= 10);
    assert forall|k: int| 0 <= k < first.len() implies #[trigger] steps[k] == first[k] by {}
    let last = last_steps(inputs.has_vcpu_filter);
    assert forall|k: int| 0 <= k < last.len() implies #[trigger] last[k] == steps[steps.len()
        - last.len() + k] by {}
    if inputs.has_vcpu_filter {
        assert(last.len() == 6);
        assert(last[0] == BootStep::AttachVmGenId && last[1] == BootStep::AttachVmClock && last[2]
            == BootStep::ConfigureSystem && last[3] == BootStep::StartVcpus);
    } else {
        assert(last.len() == 4);
        assert(last[3] == BootStep::FailMissingFilter);
    }
    if i < first.len() {
        assert(!(first[i] is Attach));
    }
}

/// Whether a device is one of those that are attached.
pub open spec fn has_device(list: Seq<DeviceEntry>, entry: DeviceEntry) -> bool {
    exists|i: int| 0 <= i < list.len() && #[trigger] list[i] == entry
}

/// Every device that is configured is attached, under its own name. A drive or a persistent memory
/// device that is the root device says so, with how it is mounted. No other device is attached.
pub proof fn law_configured_devices_are_attached(
    inputs: BootInputs,
    resources: VmResources,
    ids: DeviceIds,
    served_read_only: Seq<bool>,
    has_vcpu_filter: bool,
    k: int,
)
    requires
        are_inputs_of(inputs, resources, ids, served_read_only, has_vcpu_filter),
        resources.pmem.configs@.len() <= usize::MAX,
    ensures
        ({
            let list = entries(inputs);
            let plain = |device_type: VirtioDeviceType, id: String|
                DeviceEntry { device_type, id, root: None };
            let drives = resources.block.devices@;
            let nets = resources.net_builder.devices@;
            let pmems = resources.pmem.configs@;
            &&& resources.balloon.inner is Some ==> has_device(
                list,
                plain(VirtioDeviceType::Balloon, ids.balloon),
            )
            &&& resources.vsock is Some ==> has_device(
                list,
                plain(VirtioDeviceType::Vsock, ids.vsock),
            )
            &&& resources.entropy is Some ==> has_device(
                list,
                plain(VirtioDeviceType::Rng, ids.entropy),
            )
            &&& resources.memory_hotplug is Some ==> has_device(
                list,
                plain(VirtioDeviceType::Mem, ids.mem),
            )
            &&& 0 <= k < nets.len() ==> has_device(
                list,
                plain(VirtioDeviceType::Net, nets[k].config.iface_id),
            )
            &&& 0 <= k < drives.len() ==> has_device(
                list,
                DeviceEntry {
                    device_type: VirtioDeviceType::Block,
                    id: drives[k].drive_id,
                    root: if drives[k].is_root_device {
                        Some(
                            RootArg::Block {
                                partuuid: drives[k].partuuid,
                                read_only: if drives[k].socket is None {
                                    drives[k].is_read_only == Some(true)
                                } else {
                                    k < served_read_only.len() && served_read_only[k]
                                },
                            },
                        )
                    } else {
                        None
                    },
                },
            )
            &&& 0 <= k < pmems.len() ==> has_device(
                list,
                DeviceEntry {
                    device_type: VirtioDeviceType::Pmem,
                    id: pmems[k].id,
                    root: if pmems[k].root_device {
                        Some(RootArg::Pmem { index: k as usize, read_only: pmems[k].read_only })
                    } else {
                        None
                    },
                },
            )
            &&& list.len() == drives.len() + nets.len() + pmems.len() + one(
                resources.balloon.inner is Some,
            ) + one(resources.vsock is Some) + one(resources.entropy is Some) + one(
                resources.memory_hotplug is Some,
            )
        }),
{
    let list = entries(inputs);
    let a = one(resources.balloon.inner is Some);
    let b = a + resources.block.devices@.len();
    let c = b + resources.net_builder.devices@.len();
    let d = c + resources.pmem.configs@.len();
    let e = d + one(resources.vsock is Some);
    let f = e + one(resources.entropy is Some);
    let p0 = optional_entry(VirtioDeviceType::Balloon, inputs.balloon);
    let p1 = block_entries(inputs.blocks@);
    let p2 = net_entries(inputs.nets@);
    let p3 = pmem_entries(inputs.pmems@);
    let p4 = optional_entry(VirtioDeviceType::Vsock, inputs.vsock);
    let p5 = optional_entry(VirtioDeviceType::Rng, inputs.entropy);
    if resources.balloon.inner is Some {
        assert(list[0] == p0[0]);
    }
    if 0 <= k < resources.block.devices@.len() {
        assert(p1[k] == block_entry(inputs.blocks@[k]));
        assert(list[a + k] == p1[k]);
    }
    if 0 <= k < resources.net_builder.devices@.len() {
        assert(list[b + k] == p2[k]);
    }
    if 0 <= k < resources.pmem.configs@.len() {
        assert(list[c + k] == p3[k]);
    }
    if resources.vsock is Some {
        assert(list[d] == p4[0]);
    }
    if resources.entropy is Some {
        assert(list[e] == p5[0]);
    }
    if resources.memory_hotplug is Some {
        assert(list[f].device_type == VirtioDeviceType::Mem);
        assert(list[f] == (DeviceEntry {
            device_type: VirtioDeviceType::Mem,
            id: ids.mem,
            root: None,
        }));
    }
}

/// One if something holds, else zero.
pub open spec fn one(holds: bool) -> int {
    if holds {
        1
    } else {
        0
    }
}

/// How the root device is named: a drive by its partition, else as the first disk, and a persistent
/// memory device by its number.
pub proof fn law_names_of_root_devices(partuuid: String, index: usize, read_only: bool)
    ensures
        root_args(RootArg::Block { partuuid: None, read_only }) == ("root=/dev/vda"@, read_only),
        root_args(RootArg::Block { partuuid: Some(partuuid), read_only }) == (
            "root=PARTUUID="@ + partuuid@,
            read_only,
        ),
        root_args(RootArg::Pmem { index, read_only }) == (
            "root=/dev/pmem"@ + decimal(index as nat),
            read_only,
        ),
{
}

/// How a machine is restored: it is created with its memory, the clock of every vCPU is set where it
/// has to be scaled, every vCPU is restored, then the machine and its devices, and the vCPUs start
/// only after that.
pub proof fn law_order_of_restoring(inputs: RestoreInputs, scaling: bool, v: int)
    requires
        inputs.tsc_khz@.len() >= inputs.vcpu_count,
        inputs.tsc_khz@.len() > 0,
        0 <= v < inputs.vcpu_count,
    ensures
        ({
            let steps = restore_steps(inputs, scaling);
            let khz = inputs.tsc_khz@[0];
            let n = inputs.vcpu_count as int;
            let check = one(khz is Some);
            let clocks = if khz is Some && scaling {
                n
            } else {
                0
            };
            let vcpus = 4 + check + clocks;
            &&& steps[0] == RestoreStep::OpenKvm
            &&& steps[1] == RestoreStep::CreateVm
            &&& steps[2] == RestoreStep::CreateVcpus(inputs.vcpu_count)
            &&& steps[3] == RestoreStep::RestoreMemory
            &&& khz is Some ==> steps[4] == RestoreStep::CheckTscScaling(khz->0)
            &&& khz is Some && scaling ==> steps[5 + v] == RestoreStep::SetTsc(v as usize, khz->0)
            &&& steps[vcpus + v] == RestoreStep::RestoreVcpu(v as usize)
            &&& steps[vcpus + n] == RestoreStep::RestoreVmState(inputs.clock_realtime)
            &&& steps[vcpus + n + 1] == RestoreStep::RestoreBootSource
            &&& steps[vcpus + n + 2] == RestoreStep::SetUffd
            &&& steps[vcpus + n + 3] == RestoreStep::RestoreDevices
            &&& steps[vcpus + n + 4] == (if inputs.has_vcpu_filter {
                RestoreStep::StartVcpus
            } else {
                RestoreStep::FailMissingFilter
            })
        }),
{
    let first = restore_first(inputs);
    let clocks = tsc_steps(inputs, scaling);
    let vcpus = vcpu_steps(inputs);
    let last = restore_last(inputs);
    let rest = clocks + vcpus + last;
    let steps = restore_steps(inputs, scaling);
    assert(steps == first + rest);
    assert forall|k: int| 0 <= k < first.len() implies #[trigger] first[k] == steps[k] by {}
    assert forall|k: int| 0 <= k < rest.len() implies #[trigger] rest[k] == steps[first.len()
        + k] by {}
    assert(first[0] == RestoreStep::OpenKvm && first[1] == RestoreStep::CreateVm && first[2]
        == RestoreStep::CreateVcpus(inputs.vcpu_count) && first[3] == RestoreStep::RestoreMemory);
    if inputs.tsc_khz@[0] is Some {
        assert(first[4] == RestoreStep::CheckTscScaling(inputs.tsc_khz@[0]->0));
        if scaling {
            assert(rest[v] == clocks[v]);
        }
    }
    assert(rest[clocks.len() + v] == vcpus[v]);
    let m = (clocks.len() + vcpus.len()) as int;
    assert(rest[m] == last[0] && rest[m + 1] == last[1] && rest[m + 2] == last[2] && rest[m + 3]
        == last[3] && rest[m + 4] == last[4]);
}

/// A microVM is there exactly when every step of restoring was taken and its CPUs are filtered. It has
/// the saved boot source once that step was taken, and a step that failed is told by its error.
pub proof fn law_restored_when_all_steps_were_taken(
    before: VmResources,
    after: VmResources,
    instance_info: InstanceInfo,
    boot_source: BootSourceConfig,
    inputs: RestoreInputs,
    scaling: bool,
    taken: int,
    r: Result<Vmm, BuildMicrovmFromSnapshotError>,
)
    requires
        restored_from_snapshot(
            before,
            after,
            instance_info,
            boot_source,
            inputs,
            scaling,
            taken,
            r,
        ),
        0 <= taken <= restore_steps(inputs, scaling).len(),
    ensures
        r is Ok <==> taken == restore_steps(inputs, scaling).len() && inputs.has_vcpu_filter,
        r is Err && taken < restore_steps(inputs, scaling).len() ==> step_error(
            restore_steps(inputs, scaling)[taken],
        ) == Some(r->Err_0),
        after.boot_source.config == boot_source || after == before,
        after.block == before.block,
        after.machine_config == before.machine_config,
        after.boot_source.has_builder == before.boot_source.has_builder,
{
}

} // verus!
