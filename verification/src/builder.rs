//! The order of work by which a microVM is built.

use linux_loader::cmdline::Cmdline;
use vstd::prelude::*;

use crate::arch::layout;
use crate::device_manager::mmio::{
    boot_registered, described, found_at, registered, MMIODevice, MMIODeviceInfo, MMIODeviceManager,
    MmioError, MMIO_LEN,
};
use crate::devices::virtio::device::VirtioDeviceType;
use crate::resources::VmResources;
use crate::utils::text::{decimal, decimal_string, join2};
use crate::vmm_config::boot_source::{
    append_root, append_root_device_cmdline, cmdline_clone, cmdline_insert, cmdline_text, first_text,
    inserted, lemma_some_is_left, plain_key, plain_value, root_arg, root_named, same_text,
    BootSource, BootSourceConfig, CmdlineError,
};
use crate::vmm_config::drive::BlockDeviceConfig;
use crate::vmm_config::instance_info::{InstanceInfo, VmState};
use crate::vmm_config::machine_config::MachineConfig;
use crate::vmm_config::memory_hotplug::{MemoryHotplugConfig, VIRTIO_MEM_DEFAULT_SLOT_SIZE_MIB};
use crate::vmm_config::pmem::PmemConfig;
use crate::vstate::resources::{
    address_allocate_first, address_allocate_last, allocated_ranges, apart, can_hand_out, can_stand,
    has_room, has_room_high, is_power_of_two, law_highest_place_is_taken, law_room_above, placed_first,
    placed_last, same_ranges, AllocatorError, ResourceAllocator,
};
use crate::vstate::vcpu::FcExitCode;

verus! {

/// Number of bytes in a MiB.
pub const MIB: usize = 0x10_0000;

/// Why a microVM cannot be started.
#[derive(Debug, Clone, Copy, PartialEq, Eq, Structural)]
pub enum StartMicrovmError {
    /// There is no kernel to boot.
    MissingKernelConfig,
    /// The kernel command line is refused.
    KernelCmdline(CmdlineError),
    /// A device cannot be attached.
    AttachDevice(MmioError),
    /// A guest resource cannot be allocated.
    AllocateResources(AllocatorError),
    /// There is no system call filter for vCPUs.
    MissingSeccompFilters,
}

/// A block device of a machine.
#[derive(Debug)]
pub struct BlockEntry {
    /// Identifier of the device.
    pub id: String,
    /// Whether the guest boots from the device.
    pub root_device: bool,
    /// Identifier of the boot partition.
    pub partuuid: Option<String>,
    /// Whether the device is read-only.
    pub read_only: bool,
}

/// How the kernel is told of its root device.
#[derive(Debug)]
pub enum RootArg {
    /// The root device is the first block device, or one of its partitions.
    Block {
        /// Identifier of the boot partition.
        partuuid: Option<String>,
        /// Whether the device is read-only.
        read_only: bool,
    },
    /// The root device is a persistent memory device.
    Pmem {
        /// Position among the persistent memory devices.
        index: usize,
        /// Whether the device is read-only.
        read_only: bool,
    },
}

/// A device to be attached.
#[derive(Debug)]
pub struct DeviceEntry {
    /// What the device is.
    pub device_type: VirtioDeviceType,
    /// Identifier of the device.
    pub id: String,
    /// What the kernel is told, if the guest boots from the device.
    pub root: Option<RootArg>,
}

/// A microVM.
#[derive(Debug)]
pub struct Vmm {
    /// What it is called, and its state.
    pub instance_info: InstanceInfo,
    /// Configuration of the machine.
    pub machine_config: MachineConfig,
    /// What it boots.
    pub boot_source_config: BootSourceConfig,
    /// How it ended, once it did.
    pub shutdown_exit_code: Option<FcExitCode>,
}

/// Whether a microVM is one that was just built from resources: it is paused.
pub open spec fn is_built(vmm: Vmm, instance_info: InstanceInfo, resources: VmResources) -> bool {
    &&& vmm.instance_info == (InstanceInfo { state: VmState::Paused, ..instance_info })
    &&& vmm.machine_config.same_as(resources.machine_config)
    &&& vmm.boot_source_config == resources.boot_source.config
    &&& vmm.shutdown_exit_code is None
}

// A microVM that was just built from resources.
fn built_microvm(instance_info: &InstanceInfo, vm_resources: &VmResources) -> (r: Vmm)
    ensures
        is_built(r, *instance_info, *vm_resources),
{
    Vmm {
        instance_info: InstanceInfo { id: instance_info.id.clone(), state: VmState::Paused },
        machine_config: vm_resources.machine_config.copied(),
        boot_source_config: vm_resources.boot_source.config.copied(),
        shutdown_exit_code: None,
    }
}

/// Identifiers of devices of which a machine has at most one.
#[derive(Debug)]
pub struct DeviceIds {
    /// Identifier of the balloon.
    pub balloon: String,
    /// Identifier of the socket device.
    pub vsock: String,
    /// Identifier of the source of entropy.
    pub entropy: String,
    /// Identifier of the device of hotpluggable memory.
    pub mem: String,
}

/// What a microVM is built from.
#[derive(Debug)]
pub struct BootInputs {
    /// Number of vCPUs.
    pub vcpu_count: u8,
    /// Hotpluggable memory.
    pub memory_hotplug: Option<MemoryHotplugConfig>,
    /// Whether devices are attached to a PCI bus.
    pub pci_enabled: bool,
    /// Whether there is a boot timer.
    pub boot_timer: bool,
    /// Identifier of the balloon.
    pub balloon: Option<String>,
    /// Block devices.
    pub blocks: Vec<BlockEntry>,
    /// Identifiers of network devices.
    pub nets: Vec<String>,
    /// Persistent memory devices.
    pub pmems: Vec<PmemConfig>,
    /// Identifier of the socket device.
    pub vsock: Option<String>,
    /// Identifier of the source of entropy.
    pub entropy: Option<String>,
    /// Identifier of the device of hotpluggable memory.
    pub mem_id: String,
    /// Whether there is a system call filter for vCPUs.
    pub has_vcpu_filter: bool,
}

/// A step of building a microVM. Devices are named by their position in the list of devices.
#[derive(Debug, Clone, Copy, PartialEq, Eq, Structural)]
pub enum BootStep {
    /// Allocate the memory of the guest.
    AllocateGuestMemory,
    /// Look the CPU template up.
    GetCpuTemplate,
    /// Open the hypervisor.
    OpenKvm,
    /// Create the machine.
    CreateVm,
    /// Create a number of vCPUs.
    CreateVcpus(u8),
    /// Give the memory to the machine.
    RegisterMemory,
    /// Find a place for hotpluggable memory of so many MiB.
    PlaceHotplugMemory(usize),
    /// Allocate hotpluggable memory of so many MiB.
    AllocateHotplugMemory(usize),
    /// Give hotpluggable memory with slots of so many MiB to the machine.
    RegisterHotplugMemory(usize),
    /// Load the kernel.
    LoadKernel,
    /// Load the initial file system.
    LoadInitrd,
    /// Create the bookkeeping of devices.
    NewDeviceManager,
    /// Create the PCI bus.
    EnablePci,
    /// Tell the kernel that there is no PCI bus.
    PciOff,
    /// Attach the boot timer.
    AttachBootTimer,
    /// Tell the kernel of its root device.
    NameRoot(usize),
    /// Create a persistent memory device.
    CreatePmem(usize),
    /// Create the device of hotpluggable memory.
    CreateVirtioMem(usize),
    /// Attach a device.
    Attach(usize),
    /// Attach the generation identifier.
    AttachVmGenId,
    /// Attach the clock.
    AttachVmClock,
    /// Set up what the system needs to boot.
    ConfigureSystem,
    /// Start the vCPUs, which begin paused.
    StartVcpus,
    /// Give up for want of a system call filter for vCPUs.
    FailMissingFilter,
    /// Note that the machine is paused.
    MarkPaused,
    /// Listen to the events of the machine.
    Subscribe,
}

/// A device that the guest does not boot from.
pub open spec fn plain_entry(device_type: VirtioDeviceType, id: String) -> DeviceEntry {
    DeviceEntry { device_type, id, root: None }
}

/// The entry of an optional device.
pub open spec fn optional_entry(device_type: VirtioDeviceType, id: Option<String>) -> Seq<
    DeviceEntry,
> {
    match id {
        Some(id) => seq![plain_entry(device_type, id)],
        None => seq![],
    }
}

/// The entry of a block device.
pub open spec fn block_entry(b: BlockEntry) -> DeviceEntry {
    DeviceEntry {
        device_type: VirtioDeviceType::Block,
        id: b.id,
        root: if b.root_device {
            Some(RootArg::Block { partuuid: b.partuuid, read_only: b.read_only })
        } else {
            None
        },
    }
}

/// The entry of a persistent memory device.
pub open spec fn pmem_entry(p: PmemConfig, index: usize) -> DeviceEntry {
    DeviceEntry {
        device_type: VirtioDeviceType::Pmem,
        id: p.id,
        root: if p.root_device {
            Some(RootArg::Pmem { index, read_only: p.read_only })
        } else {
            None
        },
    }
}

/// The block devices.
pub open spec fn block_entries(blocks: Seq<BlockEntry>) -> Seq<DeviceEntry> {
    blocks.map_values(|b: BlockEntry| block_entry(b))
}

/// The network devices.
pub open spec fn net_entries(nets: Seq<String>) -> Seq<DeviceEntry> {
    nets.map_values(|id: String| plain_entry(VirtioDeviceType::Net, id))
}

/// The persistent memory devices.
pub open spec fn pmem_entries(pmems: Seq<PmemConfig>) -> Seq<DeviceEntry> {
    Seq::new(pmems.len(), |i: int| pmem_entry(pmems[i], i as usize))
}

/// All devices, in the order in which they are attached.
pub open spec fn entries(inputs: BootInputs) -> Seq<DeviceEntry> {
    optional_entry(VirtioDeviceType::Balloon, inputs.balloon) + block_entries(inputs.blocks@)
        + net_entries(inputs.nets@) + pmem_entries(inputs.pmems@) + optional_entry(
        VirtioDeviceType::Vsock,
        inputs.vsock,
    ) + optional_entry(VirtioDeviceType::Rng, inputs.entropy) + (if inputs.memory_hotplug is Some {
        seq![plain_entry(VirtioDeviceType::Mem, inputs.mem_id)]
    } else {
        seq![]
    })
}

fn push_optional(list: &mut Vec<DeviceEntry>, device_type: VirtioDeviceType, id: &Option<String>)
    ensures
        final(list)@ == old(list)@ + optional_entry(device_type, *id),
{
    if let Some(id) = id {
        list.push(DeviceEntry { device_type, id: id.clone(), root: None });
    }
    assert(list@ =~= old(list)@ + optional_entry(device_type, *id));
}

fn push_blocks(list: &mut Vec<DeviceEntry>, blocks: &Vec<BlockEntry>)
    ensures
        final(list)@ == old(list)@ + block_entries(blocks@),
{
    let ghost before = list@;
    let mut i: usize = 0;
    assert(list@ =~= before + block_entries(blocks@).take(0));
    while i < blocks.len()
        invariant
            i <= blocks@.len(),
            list@ == before + block_entries(blocks@).take(i as int),
        decreases blocks.len() - i,
    {
        let b = &blocks[i];
        let root = if b.root_device {
            Some(RootArg::Block { partuuid: b.partuuid.clone(), read_only: b.read_only })
        } else {
            None
        };
        list.push(DeviceEntry { device_type: VirtioDeviceType::Block, id: b.id.clone(), root });
        assert(list@.last() == block_entry(blocks@[i as int]));
        assert(list@ =~= before + block_entries(blocks@).take(i + 1));
        i = i + 1;
    }
    assert(block_entries(blocks@).take(i as int) =~= block_entries(blocks@));
}

fn push_nets(list: &mut Vec<DeviceEntry>, nets: &Vec<String>)
    ensures
        final(list)@ == old(list)@ + net_entries(nets@),
{
    let ghost before = list@;
    let mut i: usize = 0;
    assert(list@ =~= before + net_entries(nets@).take(0));
    while i < nets.len()
        invariant
            i <= nets@.len(),
            list@ == before + net_entries(nets@).take(i as int),
        decreases nets.len() - i,
    {
        list.push(
            DeviceEntry { device_type: VirtioDeviceType::Net, id: nets[i].clone(), root: None },
        );
        assert(list@ =~= before + net_entries(nets@).take(i + 1));
        i = i + 1;
    }
    assert(net_entries(nets@).take(i as int) =~= net_entries(nets@));
}

fn push_pmems(list: &mut Vec<DeviceEntry>, pmems: &Vec<PmemConfig>)
    ensures
        final(list)@ == old(list)@ + pmem_entries(pmems@),
{
    let ghost before = list@;
    let mut i: usize = 0;
    assert(list@ =~= before + pmem_entries(pmems@).take(0));
    while i < pmems.len()
        invariant
            i <= pmems@.len(),
            list@ == before + pmem_entries(pmems@).take(i as int),
        decreases pmems.len() - i,
    {
        let p = &pmems[i];
        let root = if p.root_device {
            Some(RootArg::Pmem { index: i, read_only: p.read_only })
        } else {
            None
        };
        list.push(DeviceEntry { device_type: VirtioDeviceType::Pmem, id: p.id.clone(), root });
        assert(list@ =~= before + pmem_entries(pmems@).take(i + 1));
        i = i + 1;
    }
    assert(pmem_entries(pmems@).take(i as int) =~= pmem_entries(pmems@));
}

/// Lists all devices, in the order in which they are attached.
pub fn boot_entries(inputs: &BootInputs) -> (r: Vec<DeviceEntry>)
    ensures
        r@ == entries(*inputs),
{
    let mut list: Vec<DeviceEntry> = Vec::new();
    push_optional(&mut list, VirtioDeviceType::Balloon, &inputs.balloon);
    push_blocks(&mut list, &inputs.blocks);
    push_nets(&mut list, &inputs.nets);
    push_pmems(&mut list, &inputs.pmems);
    push_optional(&mut list, VirtioDeviceType::Vsock, &inputs.vsock);
    push_optional(&mut list, VirtioDeviceType::Rng, &inputs.entropy);
    if inputs.memory_hotplug.is_some() {
        list.push(
            DeviceEntry {
                device_type: VirtioDeviceType::Mem,
                id: inputs.mem_id.clone(),
                root: None,
            },
        );
    }
    assert(list@ =~= entries(*inputs));
    list
}

/// The steps for the memory of the guest that is plugged later.
pub open spec fn hotplug_steps(config: Option<MemoryHotplugConfig>) -> Seq<BootStep> {
    match config {
        Some(c) => seq![
            BootStep::PlaceHotplugMemory(c.total_size_mib),
            BootStep::AllocateHotplugMemory(c.total_size_mib),
            BootStep::RegisterHotplugMemory(c.slot_size_mib),
        ],
        None => seq![],
    }
}

/// The steps before the first virtio device.
pub open spec fn first_steps(inputs: BootInputs) -> Seq<BootStep> {
    seq![
        BootStep::AllocateGuestMemory,
        BootStep::GetCpuTemplate,
        BootStep::OpenKvm,
        BootStep::CreateVm,
        BootStep::CreateVcpus(inputs.vcpu_count),
        BootStep::RegisterMemory,
    ] + hotplug_steps(inputs.memory_hotplug) + seq![
        BootStep::LoadKernel,
        BootStep::LoadInitrd,
        BootStep::NewDeviceManager,
        if inputs.pci_enabled {
            BootStep::EnablePci
        } else {
            BootStep::PciOff
        },
    ] + (if inputs.boot_timer {
        seq![BootStep::AttachBootTimer]
    } else {
        seq![]
    })
}

/// The steps for one virtio device.
pub open spec fn entry_steps(entry: DeviceEntry, at: usize) -> Seq<BootStep> {
    (if entry.root is Some {
        seq![BootStep::NameRoot(at)]
    } else {
        seq![]
    }) + (if entry.device_type == VirtioDeviceType::Pmem {
        seq![BootStep::CreatePmem(at)]
    } else if entry.device_type == VirtioDeviceType::Mem {
        seq![BootStep::CreateVirtioMem(at)]
    } else {
        seq![]
    }) + seq![BootStep::Attach(at)]
}

/// The steps for the first `n` virtio devices.
pub open spec fn device_steps(list: Seq<DeviceEntry>, n: nat) -> Seq<BootStep>
    decreases n,
{
    if n == 0 {
        seq![]
    } else {
        device_steps(list, (n - 1) as nat) + entry_steps(list[n - 1], (n - 1) as usize)
    }
}

/// The steps after the last virtio device.
pub open spec fn last_steps(has_vcpu_filter: bool) -> Seq<BootStep> {
    seq![BootStep::AttachVmGenId, BootStep::AttachVmClock, BootStep::ConfigureSystem] + (if has_vcpu_filter {
        seq![BootStep::StartVcpus, BootStep::MarkPaused, BootStep::Subscribe]
    } else {
        seq![BootStep::FailMissingFilter]
    })
}

/// All steps.
pub open spec fn all_steps(inputs: BootInputs) -> Seq<BootStep> {
    first_steps(inputs) + device_steps(entries(inputs), entries(inputs).len()) + last_steps(
        inputs.has_vcpu_filter,
    )
}

// Adds the steps for all virtio devices.
fn push_device_steps(steps: &mut Vec<BootStep>, list: &Vec<DeviceEntry>)
    ensures
        final(steps)@ == old(steps)@ + device_steps(list@, list@.len()),
{
    let ghost before = steps@;
    let mut i: usize = 0;
    assert(steps@ =~= before + device_steps(list@, 0));
    while i < list.len()
        invariant
            i <= list@.len(),
            steps@ == before + device_steps(list@, i as nat),
        decreases list.len() - i,
    {
        let entry = &list[i];
        if entry.root.is_some() {
            steps.push(BootStep::NameRoot(i));
        }
        if entry.device_type == VirtioDeviceType::Pmem {
            steps.push(BootStep::CreatePmem(i));
        } else if entry.device_type == VirtioDeviceType::Mem {
            steps.push(BootStep::CreateVirtioMem(i));
        }
        steps.push(BootStep::Attach(i));
        assert(steps@ =~= before + (device_steps(list@, i as nat) + entry_steps(
            list@[i as int],
            i,
        )));
        assert(device_steps(list@, (i + 1) as nat) == device_steps(list@, i as nat) + entry_steps(
            list@[i as int],
            i,
        ));
        i = i + 1;
    }
}

// The steps before the first virtio device.
fn begin_steps(inputs: &BootInputs) -> (r: Vec<BootStep>)
    ensures
        r@ == first_steps(*inputs),
{
    let mut steps: Vec<BootStep> = Vec::new();
    steps.push(BootStep::AllocateGuestMemory);
    steps.push(BootStep::GetCpuTemplate);
    steps.push(BootStep::OpenKvm);
    steps.push(BootStep::CreateVm);
    steps.push(BootStep::CreateVcpus(inputs.vcpu_count));
    steps.push(BootStep::RegisterMemory);
    let ghost one = steps@;
    assert(one =~= seq![
        BootStep::AllocateGuestMemory,
        BootStep::GetCpuTemplate,
        BootStep::OpenKvm,
        BootStep::CreateVm,
        BootStep::CreateVcpus(inputs.vcpu_count),
        BootStep::RegisterMemory,
    ]);
    if let Some(c) = &inputs.memory_hotplug {
        steps.push(BootStep::PlaceHotplugMemory(c.total_size_mib));
        steps.push(BootStep::AllocateHotplugMemory(c.total_size_mib));
        steps.push(BootStep::RegisterHotplugMemory(c.slot_size_mib));
    }
    let ghost two = steps@;
    assert(two =~= one + hotplug_steps(inputs.memory_hotplug));
    steps.push(BootStep::LoadKernel);
    steps.push(BootStep::LoadInitrd);
    steps.push(BootStep::NewDeviceManager);
    if inputs.pci_enabled {
        steps.push(BootStep::EnablePci);
    } else {
        steps.push(BootStep::PciOff);
    }
    let ghost three = steps@;
    assert(three =~= two + seq![
        BootStep::LoadKernel,
        BootStep::LoadInitrd,
        BootStep::NewDeviceManager,
        if inputs.pci_enabled {
            BootStep::EnablePci
        } else {
            BootStep::PciOff
        },
    ]);
    // The boot timer comes before all other devices, so that its place is the documented one.
    if inputs.boot_timer {
        steps.push(BootStep::AttachBootTimer);
        assert(steps@ =~= three + seq![BootStep::AttachBootTimer]);
    } else {
        assert(steps@ =~= three + Seq::<BootStep>::empty());
    }
    steps
}

// Adds the steps after the last virtio device.
fn push_last_steps(steps: &mut Vec<BootStep>, has_vcpu_filter: bool)
    ensures
        final(steps)@ == old(steps)@ + last_steps(has_vcpu_filter),
{
    steps.push(BootStep::AttachVmGenId);
    steps.push(BootStep::AttachVmClock);
    steps.push(BootStep::ConfigureSystem);
    if has_vcpu_filter {
        steps.push(BootStep::StartVcpus);
        steps.push(BootStep::MarkPaused);
        steps.push(BootStep::Subscribe);
    } else {
        steps.push(BootStep::FailMissingFilter);
    }
    assert(steps@ =~= old(steps)@ + last_steps(has_vcpu_filter));
}

/// The drive at `i` as a block device. Another process may serve it, which then says whether it is
/// read-only.
pub open spec fn drive_entry(
    drives: Seq<BlockDeviceConfig>,
    served_read_only: Seq<bool>,
    i: int,
) -> BlockEntry {
    BlockEntry {
        id: drives[i].drive_id,
        root_device: drives[i].is_root_device,
        partuuid: drives[i].partuuid,
        read_only: if drives[i].socket is Some {
            i < served_read_only.len() && served_read_only[i]
        } else {
            drives[i].is_read_only == Some(true)
        },
    }
}

/// Whether a microVM with given resources is built from `inputs`.
pub open spec fn are_inputs_of(
    inputs: BootInputs,
    resources: VmResources,
    ids: DeviceIds,
    served_read_only: Seq<bool>,
    has_vcpu_filter: bool,
) -> bool {
    &&& inputs.vcpu_count == resources.machine_config.vcpu_count
    &&& inputs.memory_hotplug == resources.memory_hotplug
    &&& inputs.pci_enabled == resources.pci_enabled
    &&& inputs.boot_timer == resources.boot_timer
    &&& inputs.balloon == (if resources.balloon.inner is Some {
        Some(ids.balloon)
    } else {
        None
    })
    &&& inputs.blocks@ == Seq::new(
        resources.block.devices@.len(),
        |i: int| drive_entry(resources.block.devices@, served_read_only, i),
    )
    &&& inputs.nets@ == Seq::new(
        resources.net_builder.devices@.len(),
        |i: int| resources.net_builder.devices@[i].config.iface_id,
    )
    &&& inputs.pmems@ == resources.pmem.configs@
    &&& inputs.vsock == (if resources.vsock is Some {
        Some(ids.vsock)
    } else {
        None
    })
    &&& inputs.entropy == (if resources.entropy is Some {
        Some(ids.entropy)
    } else {
        None
    })
    &&& inputs.mem_id == ids.mem
    &&& inputs.has_vcpu_filter == has_vcpu_filter
}

// An identifier of a device that may be there.
fn id_if(present: bool, id: &String) -> (r: Option<String>)
    ensures
        r == (if present {
            Some(*id)
        } else {
            None
        }),
{
    if present {
        Some(id.clone())
    } else {
        None
    }
}

/// What a microVM with given resources is built from. For each drive that another process serves,
/// `served_read_only` has the answer of that process whether the drive is read-only.
pub fn boot_inputs(
    vm_resources: &VmResources,
    ids: &DeviceIds,
    served_read_only: &Vec<bool>,
    has_vcpu_filter: bool,
) -> (r: BootInputs)
    ensures
        are_inputs_of(r, *vm_resources, *ids, served_read_only@, has_vcpu_filter),
{
    let ghost drives = vm_resources.block.devices@;
    let ghost interfaces = vm_resources.net_builder.devices@;
    let mut blocks: Vec<BlockEntry> = Vec::new();
    let mut i: usize = 0;
    while i < vm_resources.block.devices.len()
        invariant
            drives == vm_resources.block.devices@,
            i <= drives.len(),
            blocks@.len() == i,
            forall|j: int|
                0 <= j < i ==> #[trigger] blocks@[j] == drive_entry(drives, served_read_only@, j),
        decreases drives.len() - i,
    {
        let drive = &vm_resources.block.devices[i];
        let read_only: bool = if drive.socket.is_some() {
            i < served_read_only.len() && served_read_only[i]
        } else {
            drive.is_read_only == Some(true)
        };
        blocks.push(
            BlockEntry {
                id: drive.drive_id.clone(),
                root_device: drive.is_root_device,
                partuuid: drive.partuuid.clone(),
                read_only,
            },
        );
        i += 1;
    }
    let mut nets: Vec<String> = Vec::new();
    let mut k: usize = 0;
    while k < vm_resources.net_builder.devices.len()
        invariant
            interfaces == vm_resources.net_builder.devices@,
            k <= interfaces.len(),
            nets@.len() == k,
            forall|j: int| 0 <= j < k ==> #[trigger] nets@[j] == interfaces[j].config.iface_id,
        decreases interfaces.len() - k,
    {
        nets.push(vm_resources.net_builder.devices[k].config.iface_id.clone());
        k += 1;
    }
    let mut pmems: Vec<PmemConfig> = Vec::new();
    let mut n: usize = 0;
    while n < vm_resources.pmem.configs.len()
        invariant
            n <= vm_resources.pmem.configs@.len(),
            pmems@.len() == n,
            forall|j: int| 0 <= j < n ==> #[trigger] pmems@[j] == vm_resources.pmem.configs@[j],
        decreases vm_resources.pmem.configs@.len() - n,
    {
        pmems.push(vm_resources.pmem.configs[n].copied());
        n += 1;
    }
    assert(blocks@ =~= Seq::new(
        drives.len(),
        |j: int| drive_entry(drives, served_read_only@, j),
    ));
    assert(nets@ =~= Seq::new(interfaces.len(), |j: int| interfaces[j].config.iface_id));
    assert(pmems@ =~= vm_resources.pmem.configs@);
    BootInputs {
        vcpu_count: vm_resources.machine_config.vcpu_count,
        memory_hotplug: vm_resources.memory_hotplug,
        pci_enabled: vm_resources.pci_enabled,
        boot_timer: vm_resources.boot_timer,
        balloon: id_if(vm_resources.balloon.inner.is_some(), &ids.balloon),
        blocks,
        nets,
        pmems,
        vsock: id_if(vm_resources.vsock.is_some(), &ids.vsock),
        entropy: id_if(vm_resources.entropy.is_some(), &ids.entropy),
        mem_id: ids.mem.clone(),
        has_vcpu_filter,
    }
}

/// How a microVM is built for boot.
#[derive(Debug)]
pub struct BootPlan {
    /// The text that the kernel command line starts from.
    pub cmdline: String,
    /// What the microVM is built from.
    pub inputs: BootInputs,
    /// The devices, by their position in the steps.
    pub devices: Vec<DeviceEntry>,
    /// The steps. The first one that fails ends them.
    pub steps: Vec<BootStep>,
    /// The microVM that is there once all steps were taken. There is none where they end in giving
    /// up.
    pub vmm: Option<Vmm>,
}

/// How a microVM is built for boot from resources. Without a kernel it is not. For each drive that
/// another process serves, `served_read_only` has the answer of that process whether the drive is
/// read-only.
pub fn build_microvm_for_boot(
    instance_info: &InstanceInfo,
    vm_resources: &VmResources,
    ids: &DeviceIds,
    served_read_only: &Vec<bool>,
    default_cmdline: &str,
    has_vcpu_filter: bool,
) -> (r: Result<BootPlan, StartMicrovmError>)
    ensures
        !vm_resources.boot_source.has_builder ==> r is Err && r->Err_0
            == StartMicrovmError::MissingKernelConfig,
        vm_resources.boot_source.has_builder ==> {
            &&& r matches Ok(plan)
            &&& are_inputs_of(
                plan.inputs,
                *vm_resources,
                *ids,
                served_read_only@,
                has_vcpu_filter,
            )
            &&& plan.cmdline@ == first_text(
                vm_resources.boot_source.config.boot_args,
                default_cmdline@,
            )
            &&& plan.devices@ == entries(plan.inputs)
            &&& plan.steps@ == all_steps(plan.inputs)
            &&& plan.vmm is Some <==> has_vcpu_filter
            &&& plan.vmm matches Some(vmm) ==> is_built(vmm, *instance_info, *vm_resources)
        },
{
    if !vm_resources.boot_source.has_builder {
        return Err(StartMicrovmError::MissingKernelConfig);
    }
    let inputs = boot_inputs(vm_resources, ids, served_read_only, has_vcpu_filter);
    let mut steps: Vec<BootStep> = begin_steps(&inputs);
    let devices = boot_entries(&inputs);
    push_device_steps(&mut steps, &devices);
    push_last_steps(&mut steps, has_vcpu_filter);
    let vmm = if has_vcpu_filter {
        Some(built_microvm(instance_info, vm_resources))
    } else {
        None
    };
    Ok(
        BootPlan {
            cmdline: cmdline_text(&vm_resources.boot_source.config.boot_args, default_cmdline),
            inputs,
            devices,
            steps,
            vmm,
        },
    )
}

proof fn lemma_device_steps(list: Seq<DeviceEntry>, n: nat, i: int)
    requires
        n <= list.len() <= usize::MAX,
        0 <= i < device_steps(list, n).len(),
    ensures
        match device_steps(list, n)[i] {
            BootStep::NameRoot(at) => at < n && list[at as int].root is Some && exists|j: int|
                i < j < device_steps(list, n).len() && #[trigger] device_steps(list, n)[j]
                    == BootStep::Attach(at),
            BootStep::CreatePmem(at) => at < n,
            BootStep::CreateVirtioMem(at) => at < n,
            BootStep::Attach(at) => at < n,
            _ => false,
        },
    decreases n,
{
    let shorter = device_steps(list, (n - 1) as nat);
    let last = entry_steps(list[n - 1], (n - 1) as usize);
    assert(device_steps(list, n) == shorter + last);
    if i < shorter.len() {
        lemma_device_steps(list, (n - 1) as nat, i);
        assert(device_steps(list, n)[i] == shorter[i]);
        if let BootStep::NameRoot(at) = shorter[i] {
            let j = choose|j: int|
                i < j < shorter.len() && #[trigger] shorter[j] == BootStep::Attach(at);
            assert(device_steps(list, n)[j] == shorter[j]);
        }
    } else {
        assert(device_steps(list, n)[i] == last[i - shorter.len()]);
        let j = shorter.len() + last.len() - 1;
        assert(device_steps(list, n)[j] == BootStep::Attach((n - 1) as usize));
    }
}

/// The boot timer is attached before every virtio device.
pub proof fn law_boot_timer_comes_first(inputs: BootInputs, i: int)
    requires
        inputs.boot_timer,
        0 <= i < all_steps(inputs).len(),
        all_steps(inputs)[i] is Attach,
    ensures
        first_steps(inputs).last() == BootStep::AttachBootTimer,
        first_steps(inputs).len() - 1 < i,
        all_steps(inputs)[first_steps(inputs).len() - 1] == BootStep::AttachBootTimer,
{
    let first = first_steps(inputs);
    assert(forall|k: int| 0 <= k < first.len() ==> !(#[trigger] first[k] is Attach));
    assert(i >= first.len()) by {
        if i < first.len() {
            assert(all_steps(inputs)[i] == first[i]);
        }
    }
}

/// The kernel is told of a root device only before that device is attached.
pub proof fn law_root_is_named_before_it_is_attached(inputs: BootInputs, i: int)
    requires
        entries(inputs).len() <= usize::MAX,
        0 <= i < all_steps(inputs).len(),
        all_steps(inputs)[i] is NameRoot,
    ensures
        exists|j: int|
            i < j < all_steps(inputs).len() && #[trigger] all_steps(inputs)[j] == BootStep::Attach(
                all_steps(inputs)[i]->NameRoot_0,
            ),
{
    let first = first_steps(inputs);
    let list = entries(inputs);
    let middle = device_steps(list, list.len());
    let last = last_steps(inputs.has_vcpu_filter);
    assert(forall|k: int| 0 <= k < first.len() ==> !(#[trigger] first[k] is NameRoot));
    assert(forall|k: int| 0 <= k < last.len() ==> !(#[trigger] last[k] is NameRoot));
    if i < first.len() {
        assert(all_steps(inputs)[i] == first[i]);
    } else if i >= first.len() + middle.len() {
        assert(all_steps(inputs)[i] == last[i - first.len() - middle.len()]);
    } else {
        assert(all_steps(inputs)[i] == middle[i - first.len()]);
        lemma_device_steps(list, list.len(), i - first.len());
        let at = middle[i - first.len()]->NameRoot_0;
        let j = choose|j: int|
            i - first.len() < j < middle.len() && #[trigger] middle[j] == BootStep::Attach(at);
        assert(all_steps(inputs)[first.len() + j] == middle[j]);
    }
}

/// The vCPUs are started only after all devices are attached and the system is set up, and nothing
/// comes after them but that the machine is noted as paused and listened to.
pub proof fn law_vcpus_start_last(inputs: BootInputs, i: int)
    requires
        entries(inputs).len() <= usize::MAX,
        0 <= i < all_steps(inputs).len(),
        all_steps(inputs)[i] is StartVcpus,
    ensures
        inputs.has_vcpu_filter,
        i == all_steps(inputs).len() - 3,
        all_steps(inputs)[i - 1] == BootStep::ConfigureSystem,
        all_steps(inputs)[i + 1] == BootStep::MarkPaused,
        all_steps(inputs)[i + 2] == BootStep::Subscribe,
{
    let first = first_steps(inputs);
    let list = entries(inputs);
    let middle = device_steps(list, list.len());
    let last = last_steps(inputs.has_vcpu_filter);
    assert(forall|k: int| 0 <= k < first.len() ==> !(#[trigger] first[k] is StartVcpus));
    if i < first.len() {
        assert(all_steps(inputs)[i] == first[i]);
    } else if i < first.len() + middle.len() {
        assert(all_steps(inputs)[i] == middle[i - first.len()]);
        lemma_device_steps(list, list.len(), i - first.len());
    } else {
        assert(all_steps(inputs)[i] == last[i - first.len() - middle.len()]);
    }
}

/// What the steps change while a microVM is built.
#[derive(Debug)]
pub struct BootState {
    /// Resources of the guest.
    pub resources: ResourceAllocator,
    /// The kernel command line.
    pub cmdline: Cmdline,
    /// Devices that the guest reaches through memory.
    pub mmio: MMIODeviceManager,
    /// Whether devices are attached to a PCI bus.
    pub pci_enabled: bool,
}

/// The answer of the command line as an answer of a step.
pub open spec fn cmdline_step(r: Result<(), CmdlineError>) -> Result<(), StartMicrovmError> {
    match r {
        Ok(()) => Ok(()),
        Err(e) => Err(StartMicrovmError::KernelCmdline(e)),
    }
}

/// The argument that names a persistent memory device as the root device.
pub open spec fn pmem_root_arg(index: usize) -> Seq<char> {
    "root=/dev/pmem"@ + decimal(index as nat)
}

/// The argument by which the kernel is told of a root device, and whether the device can only be
/// read.
pub open spec fn root_args(root: RootArg) -> (Seq<char>, bool) {
    match root {
        RootArg::Block { partuuid, read_only } => (
            root_arg(
                match partuuid {
                    Some(p) => Some(p@),
                    None => None,
                },
            ),
            read_only,
        ),
        RootArg::Pmem { index, read_only } => (pmem_root_arg(index), read_only),
    }
}

impl BootState {
    /// A state to begin with. The command line is a copy, so that a boot that fails leaves the
    /// given one as it is.
    pub fn new(resources: ResourceAllocator, cmdline: &Cmdline, pci_enabled: bool) -> (r: BootState)
        ensures
            r.resources == resources,
            same_text(r.cmdline, *cmdline),
            r.mmio.wf(),
            r.mmio.virtio_devices@.len() == 0,
            r.mmio.boot_timer is None,
            r.mmio.serial is None,
            r.mmio.rtc is None,
            r.mmio.dsdt_data@.len() == 0,
            r.pci_enabled == pci_enabled,
    {
        BootState {
            resources,
            cmdline: cmdline_clone(cmdline),
            mmio: MMIODeviceManager::new(),
            pci_enabled,
        }
    }

    /// Tells the kernel that there is no PCI bus.
    pub fn pci_off(&mut self) -> (r: Result<(), StartMicrovmError>)
        ensures
            final(self).resources == old(self).resources,
            final(self).mmio == old(self).mmio,
            final(self).pci_enabled == old(self).pci_enabled,
            exists|a: Result<(), CmdlineError>|
                r == #[trigger] cmdline_step(a) && inserted(
                    old(self).cmdline,
                    final(self).cmdline,
                    "pci=off"@,
                    a,
                ),
    {
        proof {
            reveal_strlit("pci");
            reveal_strlit("off");
            reveal_strlit("pci=off");
            assert("pci"@ + seq!['='] + "off"@ =~= "pci=off"@);
            assert(plain_key("pci"@));
            assert(plain_value("off"@));
        }
        let a = cmdline_insert(&mut self.cmdline, "pci", "off");
        let ghost answer = a;
        assert(cmdline_step(answer) == cmdline_step(a));
        match a {
            Ok(()) => Ok(()),
            Err(e) => Err(StartMicrovmError::KernelCmdline(e)),
        }
    }

    /// Attaches the boot timer.
    pub fn attach_boot_timer(&mut self)
        ensures
            final(self).resources == old(self).resources,
            final(self).cmdline == old(self).cmdline,
            final(self).pci_enabled == old(self).pci_enabled,
            final(self).mmio == (MMIODeviceManager {
                boot_timer: Some(
                    MMIODeviceInfo {
                        addr: layout::BOOT_DEVICE_MEM_START,
                        len: MMIO_LEN,
                        gsi: None,
                    },
                ),
                ..old(self).mmio
            }),
    {
        let _ = self.mmio.register_mmio_boot_timer();
    }

    /// Tells the kernel of its root device.
    pub fn name_root(&mut self, root: &RootArg) -> (r: Result<(), StartMicrovmError>)
        ensures
            final(self).resources == old(self).resources,
            final(self).mmio == old(self).mmio,
            final(self).pci_enabled == old(self).pci_enabled,
            exists|a: Result<(), CmdlineError>|
                r == #[trigger] cmdline_step(a) && root_named(
                    old(self).cmdline,
                    final(self).cmdline,
                    root_args(*root).0,
                    root_args(*root).1,
                    a,
                ),
    {
        let a = match root {
            RootArg::Block { partuuid, read_only } => match partuuid {
                Some(p) => append_root_device_cmdline(
                    &mut self.cmdline,
                    Some(p.as_str()),
                    *read_only,
                ),
                None => append_root_device_cmdline(&mut self.cmdline, None, *read_only),
            },
            RootArg::Pmem { index, read_only } => {
                let n = decimal_string(*index as u64);
                let arg = join2("root=/dev/pmem", n.as_str());
                proof {
                    reveal_strlit("root=/dev/pmem");
                    lemma_some_is_left(arg@);
                }
                append_root(&mut self.cmdline, arg.as_str(), *read_only)
            },
        };
        let ghost answer = a;
        assert(cmdline_step(answer) == cmdline_step(a));
        match a {
            Ok(()) => Ok(()),
            Err(e) => Err(StartMicrovmError::KernelCmdline(e)),
        }
    }

    /// Attaches a virtio device. On a PCI bus it needs neither memory from the MMIO space nor an
    /// argument on the command line.
    pub fn attach(&mut self, entry: &DeviceEntry) -> (r: Result<(), StartMicrovmError>)
        requires
            old(self).resources.wf(),
            old(self).mmio.wf(),
        ensures
            final(self).resources.wf(),
            final(self).mmio.wf(),
            final(self).pci_enabled == old(self).pci_enabled,
            old(self).pci_enabled ==> r is Ok && *final(self) == *old(self),
            !old(self).pci_enabled ==> attached(*old(self), *final(self), *entry, r),
    {
        if self.pci_enabled {
            return Ok(());
        }
        let ghost before = *self;
        let device = match self.mmio.register_mmio_virtio_for_boot(
            &mut self.resources,
            &mut self.cmdline,
            entry.device_type,
            entry.id.clone(),
        ) {
            Ok(device) => device,
            Err(e) => {
                return Err(StartMicrovmError::AttachDevice(e));
            },
        };
        let ghost info = device.resources;
        self.mmio.register_mmio_virtio(device);
        proof {
            assert(registered(before.mmio.virtio_devices@, self.mmio.virtio_devices@, device));
            assert(placed_with(before, *self, *entry, info));
        }
        Ok(())
    }
}

/// Whether a device was given resources, the kernel was told of it, it is described to the guest
/// and it is registered.
pub open spec fn placed_with(
    before: BootState,
    after: BootState,
    entry: DeviceEntry,
    info: MMIODeviceInfo,
) -> bool {
    &&& boot_registered(
        (before.resources, after.resources),
        (before.cmdline, after.cmdline),
        Ok(info),
    )
    &&& after.mmio == (MMIODeviceManager {
        virtio_devices: after.mmio.virtio_devices,
        dsdt_data: after.mmio.dsdt_data,
        ..before.mmio
    })
    &&& after.mmio.dsdt_data@ == before.mmio.dsdt_data@.push(described(info))
    &&& exists|device: MMIODevice|
        {
            &&& #[trigger] registered(
                before.mmio.virtio_devices@,
                after.mmio.virtio_devices@,
                device,
            )
            &&& device.is_at(entry.device_type, entry.id@)
            &&& device.resources == info
        }
}

/// What comes of attaching a device that the guest reaches through memory.
pub open spec fn attached(
    before: BootState,
    after: BootState,
    entry: DeviceEntry,
    r: Result<(), StartMicrovmError>,
) -> bool {
    match r {
        Ok(()) => exists|info: MMIODeviceInfo| #[trigger]
            placed_with(before, after, entry, info),
        Err(StartMicrovmError::AttachDevice(e)) => {
            &&& boot_registered(
                (before.resources, after.resources),
                (before.cmdline, after.cmdline),
                Err(e),
            )
            &&& after.mmio == before.mmio
        },
        Err(_) => false,
    }
}

/// Number of bytes in which a CPU finds the time that was stolen from it.
pub const STEALTIME_STRUCT_MEM_SIZE: u64 = 64;

/// What comes of finding a place for the records of stolen time of a number of CPUs.
pub open spec fn pvtime_placed(
    before: ResourceAllocator,
    after: ResourceAllocator,
    vcpu_count: usize,
    r: Result<u64, StartMicrovmError>,
) -> bool {
    let size = STEALTIME_STRUCT_MEM_SIZE * vcpu_count;
    let align = STEALTIME_STRUCT_MEM_SIZE as int;
    let (memory, left) = (before.system_memory, after.system_memory);
    &&& after == (ResourceAllocator { system_memory: left, ..before })
    &&& size == 0 ==> r is Err && r->Err_0 == StartMicrovmError::AllocateResources(
        AllocatorError::InvalidSize(0),
    ) && same_ranges(memory, left)
    &&& size > 0 && !has_room_high(memory, size, align) ==> r is Err && r->Err_0
        == StartMicrovmError::AllocateResources(AllocatorError::ResourceNotAvailable)
        && same_ranges(memory, left)
    &&& size > 0 && has_room_high(memory, size, align) && can_hand_out(memory) ==> r is Ok
    &&& r is Err ==> r->Err_0 is AllocateResources
    &&& r matches Ok(addr) ==> placed_last(memory, left, addr as int, size, align)
}

/// Finds a place for the records of stolen time of a number of CPUs, as high as possible.
pub fn allocate_pvtime_region(resources: &mut ResourceAllocator, vcpu_count: usize) -> (r: Result<
    u64,
    StartMicrovmError,
>)
    requires
        STEALTIME_STRUCT_MEM_SIZE * vcpu_count <= u64::MAX,
    ensures
        pvtime_placed(*old(resources), *final(resources), vcpu_count, r),
{
    let size: u64 = STEALTIME_STRUCT_MEM_SIZE * vcpu_count as u64;
    assert(is_power_of_two(STEALTIME_STRUCT_MEM_SIZE)) by {
        assert(0x40u64 & 0x3fu64 == 0) by (bit_vector);
    }
    match address_allocate_last(
        &mut resources.system_memory,
        size,
        STEALTIME_STRUCT_MEM_SIZE,
    ) {
        Ok(addr) => Ok(addr),
        Err(e) => Err(StartMicrovmError::AllocateResources(e)),
    }
}

/// The address of the record of stolen time of each CPU, one behind the other.
pub fn setup_pvtime(resources: &mut ResourceAllocator, vcpu_count: usize) -> (r: Result<
    Vec<u64>,
    StartMicrovmError,
>)
    requires
        STEALTIME_STRUCT_MEM_SIZE * vcpu_count <= u64::MAX,
    ensures
        match r {
            Ok(addrs) => {
                &&& addrs@.len() == vcpu_count
                &&& addrs@.len() > 0
                &&& pvtime_placed(*old(resources), *final(resources), vcpu_count, Ok(addrs@[0]))
                &&& forall|i: int|
                    0 <= i < addrs@.len() ==> #[trigger] addrs@[i] == addrs@[0]
                        + STEALTIME_STRUCT_MEM_SIZE * i
            },
            Err(e) => pvtime_placed(*old(resources), *final(resources), vcpu_count, Err(e)),
        },
{
    let pvtime_mem: u64 = match allocate_pvtime_region(resources, vcpu_count) {
        Ok(addr) => addr,
        Err(e) => {
            return Err(e);
        },
    };
    let mut addrs: Vec<u64> = Vec::new();
    let mut i: usize = 0;
    while i < vcpu_count
        invariant
            i <= vcpu_count,
            pvtime_mem + STEALTIME_STRUCT_MEM_SIZE * vcpu_count <= u64::MAX,
            addrs@.len() == i,
            forall|k: int|
                0 <= k < i ==> #[trigger] addrs@[k] == pvtime_mem + STEALTIME_STRUCT_MEM_SIZE * k,
        decreases vcpu_count - i,
    {
        addrs.push(pvtime_mem + i as u64 * STEALTIME_STRUCT_MEM_SIZE);
        i += 1;
    }
    Ok(addrs)
}

/// Finds a place for hotpluggable memory, aligned to the default size of a slot.
pub fn allocate_virtio_mem_address(resources: &mut ResourceAllocator, total_size_mib: usize) -> (r:
    Result<u64, StartMicrovmError>)
    requires
        total_size_mib * MIB <= usize::MAX,
    ensures
        *final(resources) == (ResourceAllocator {
            past_mmio64_memory: final(resources).past_mmio64_memory,
            ..*old(resources)
        }),
        ({
            let before = old(resources).past_mmio64_memory;
            let after = final(resources).past_mmio64_memory;
            let size = total_size_mib * MIB;
            let align = VIRTIO_MEM_DEFAULT_SLOT_SIZE_MIB * MIB;
            &&& size == 0 ==> r is Err && r->Err_0 == StartMicrovmError::AllocateResources(
                AllocatorError::InvalidSize(0),
            ) && same_ranges(before, after)
            &&& size > 0 && !has_room(before, size, align) ==> r is Err && r->Err_0
                == StartMicrovmError::AllocateResources(AllocatorError::ResourceNotAvailable)
                && same_ranges(before, after)
            &&& size > 0 && has_room(before, size, align) && can_hand_out(before) ==> r is Ok
            &&& r is Err ==> r->Err_0 is AllocateResources
            &&& r matches Ok(addr) ==> placed_first(before, after, addr as int, size, align)
        }),
{
    let size: usize = total_size_mib * MIB;
    let align: usize = VIRTIO_MEM_DEFAULT_SLOT_SIZE_MIB * MIB;
    assert(is_power_of_two(align as u64)) by {
        assert(0x800_0000u64 & 0x7ff_ffffu64 == 0) by (bit_vector);
    }
    match address_allocate_first(&mut resources.past_mmio64_memory, size as u64, align as u64) {
        Ok(addr) => Ok(addr),
        Err(e) => Err(StartMicrovmError::AllocateResources(e)),
    }
}

/// What a microVM is restored from.
#[derive(Debug)]
pub struct RestoreInputs {
    /// Number of vCPUs.
    pub vcpu_count: u8,
    /// Frequency of the time stamp counter of each saved vCPU, in kHz, as far as it was saved.
    pub tsc_khz: Vec<Option<u32>>,
    /// Whether the wall clock of the guest goes on from the time of the host.
    pub clock_realtime: bool,
    /// Whether there is a system call filter for vCPUs.
    pub has_vcpu_filter: bool,
}

/// A step of restoring a microVM. vCPUs are named by their number.
#[derive(Debug, Clone, Copy, PartialEq, Eq, Structural)]
pub enum RestoreStep {
    /// Open the hypervisor with the saved changes to its capabilities.
    OpenKvm,
    /// Create the machine.
    CreateVm,
    /// Create a number of vCPUs.
    CreateVcpus(u8),
    /// Give the saved memory to the machine.
    RestoreMemory,
    /// Ask whether the time stamp counter has to be scaled to a frequency.
    CheckTscScaling(u32),
    /// Scale the time stamp counter of a vCPU to a frequency.
    SetTsc(usize, u32),
    /// Restore a vCPU.
    RestoreVcpu(usize),
    /// Restore the machine, with or without going on from the time of the host.
    RestoreVmState(bool),
    /// Take the saved paths of kernel and initial file system over.
    RestoreBootSource,
    /// Keep the handler of page faults.
    SetUffd,
    /// Restore the devices.
    RestoreDevices,
    /// Start the vCPUs, which begin paused.
    StartVcpus,
    /// Give up for want of a system call filter for vCPUs.
    FailMissingFilter,
    /// Note that the machine is paused.
    MarkPaused,
    /// Listen to the events of the machine.
    Subscribe,
}

/// The steps up to the question whether the time stamp counter has to be scaled.
pub open spec fn restore_first(inputs: RestoreInputs) -> Seq<RestoreStep> {
    seq![
        RestoreStep::OpenKvm,
        RestoreStep::CreateVm,
        RestoreStep::CreateVcpus(inputs.vcpu_count),
        RestoreStep::RestoreMemory,
    ] + (match inputs.tsc_khz@[0] {
        Some(khz) => seq![RestoreStep::CheckTscScaling(khz)],
        None => seq![],
    })
}

/// The steps that scale the time stamp counter of every vCPU.
pub open spec fn tsc_steps(inputs: RestoreInputs, scaling: bool) -> Seq<RestoreStep> {
    match inputs.tsc_khz@[0] {
        Some(khz) => if scaling {
            Seq::new(inputs.vcpu_count as nat, |i: int| RestoreStep::SetTsc(i as usize, khz))
        } else {
            seq![]
        },
        None => seq![],
    }
}

/// The steps that restore every vCPU for which there is a saved state.
pub open spec fn vcpu_steps(inputs: RestoreInputs) -> Seq<RestoreStep> {
    let n = if inputs.tsc_khz@.len() < inputs.vcpu_count {
        inputs.tsc_khz@.len()
    } else {
        inputs.vcpu_count as nat
    };
    Seq::new(n, |i: int| RestoreStep::RestoreVcpu(i as usize))
}

/// The steps after all vCPUs are restored.
pub open spec fn restore_last(inputs: RestoreInputs) -> Seq<RestoreStep> {
    seq![
        RestoreStep::RestoreVmState(inputs.clock_realtime),
        RestoreStep::RestoreBootSource,
        RestoreStep::SetUffd,
        RestoreStep::RestoreDevices,
    ] + (if inputs.has_vcpu_filter {
        seq![RestoreStep::StartVcpus, RestoreStep::MarkPaused, RestoreStep::Subscribe]
    } else {
        seq![RestoreStep::FailMissingFilter]
    })
}

/// All steps by which a microVM is restored.
pub open spec fn restore_steps(inputs: RestoreInputs, scaling: bool) -> Seq<RestoreStep> {
    restore_first(inputs) + (tsc_steps(inputs, scaling) + vcpu_steps(inputs) + restore_last(inputs))
}

/// What a microVM with given resources is restored from.
pub fn restore_inputs(
    vm_resources: &VmResources,
    tsc_khz: Vec<Option<u32>>,
    clock_realtime: bool,
    has_vcpu_filter: bool,
) -> (r: RestoreInputs)
    ensures
        r == (RestoreInputs {
            vcpu_count: vm_resources.machine_config.vcpu_count,
            tsc_khz,
            clock_realtime,
            has_vcpu_filter,
        }),
{
    RestoreInputs {
        vcpu_count: vm_resources.machine_config.vcpu_count,
        tsc_khz,
        clock_realtime,
        has_vcpu_filter,
    }
}

/// The first steps by which a microVM is restored.
pub fn begin_from_snapshot(inputs: &RestoreInputs) -> (r: Vec<RestoreStep>)
    requires
        inputs.tsc_khz@.len() > 0,
    ensures
        r@ == restore_first(*inputs),
{
    let mut steps: Vec<RestoreStep> = Vec::new();
    steps.push(RestoreStep::OpenKvm);
    steps.push(RestoreStep::CreateVm);
    steps.push(RestoreStep::CreateVcpus(inputs.vcpu_count));
    steps.push(RestoreStep::RestoreMemory);
    if let Some(khz) = inputs.tsc_khz[0] {
        steps.push(RestoreStep::CheckTscScaling(khz));
    }
    assert(steps@ =~= restore_first(*inputs));
    steps
}

/// The further steps by which a microVM is restored, once it is known whether the time stamp
/// counter has to be scaled. The answer counts only where a frequency was saved.
pub fn continue_from_snapshot(inputs: &RestoreInputs, scaling: bool) -> (r: Vec<RestoreStep>)
    requires
        inputs.tsc_khz@.len() > 0,
    ensures
        r@ == tsc_steps(*inputs, scaling) + vcpu_steps(*inputs) + restore_last(*inputs),
{
    let mut steps: Vec<RestoreStep> = Vec::new();
    let count: usize = inputs.vcpu_count as usize;
    if let Some(khz) = inputs.tsc_khz[0] {
        if scaling {
            let mut i: usize = 0;
            while i < count
                invariant
                    i <= count,
                    steps@ == Seq::new(
                        i as nat,
                        |k: int| RestoreStep::SetTsc(k as usize, khz),
                    ),
                decreases count - i,
            {
                steps.push(RestoreStep::SetTsc(i, khz));
                i = i + 1;
            }
        }
    }
    assert(steps@ =~= tsc_steps(*inputs, scaling));
    let ghost scaled = steps@;
    let states: usize = inputs.tsc_khz.len();
    let restored: usize = if states < count {
        states
    } else {
        count
    };
    let mut i: usize = 0;
    assert(steps@ =~= scaled + Seq::new(0, |k: int| RestoreStep::RestoreVcpu(k as usize)));
    while i < restored
        invariant
            i <= restored,
            steps@ == scaled + Seq::new(i as nat, |k: int| RestoreStep::RestoreVcpu(k as usize)),
        decreases restored - i,
    {
        steps.push(RestoreStep::RestoreVcpu(i));
        assert(steps@ =~= scaled + Seq::new(
            (i + 1) as nat,
            |k: int| RestoreStep::RestoreVcpu(k as usize),
        ));
        i = i + 1;
    }
    let ghost middle = steps@;
    steps.push(RestoreStep::RestoreVmState(inputs.clock_realtime));
    steps.push(RestoreStep::RestoreBootSource);
    steps.push(RestoreStep::SetUffd);
    steps.push(RestoreStep::RestoreDevices);
    if inputs.has_vcpu_filter {
        steps.push(RestoreStep::StartVcpus);
        steps.push(RestoreStep::MarkPaused);
        steps.push(RestoreStep::Subscribe);
    } else {
        steps.push(RestoreStep::FailMissingFilter);
    }
    assert(steps@ =~= middle + restore_last(*inputs));
    steps
}

/// Why a microVM cannot be restored.
#[derive(Debug, Clone, Copy, PartialEq, Eq, Structural)]
pub enum BuildMicrovmFromSnapshotError {
    /// The machine or its vCPUs cannot be created.
    CreateMicrovmAndVcpus,
    /// The frequency of the time stamp counter cannot be read.
    GetTsc,
    /// The time stamp counter cannot be scaled.
    SetTsc,
    /// A vCPU cannot be restored.
    RestoreVcpus,
    /// The machine cannot be restored.
    RestoreState,
    /// The devices cannot be restored.
    RestoreDevices,
    /// There is no system call filter for vCPUs.
    MissingVcpuSeccompFilters,
    /// The vCPUs cannot be started.
    StartVcpus,
}

/// The error of a step that failed. Some steps cannot fail.
pub open spec fn step_error(step: RestoreStep) -> Option<BuildMicrovmFromSnapshotError> {
    match step {
        RestoreStep::OpenKvm
        | RestoreStep::CreateVm
        | RestoreStep::CreateVcpus(_)
        | RestoreStep::RestoreMemory => Some(BuildMicrovmFromSnapshotError::CreateMicrovmAndVcpus),
        RestoreStep::CheckTscScaling(_) => Some(BuildMicrovmFromSnapshotError::GetTsc),
        RestoreStep::SetTsc(_, _) => Some(BuildMicrovmFromSnapshotError::SetTsc),
        RestoreStep::RestoreVcpu(_) => Some(BuildMicrovmFromSnapshotError::RestoreVcpus),
        RestoreStep::RestoreVmState(_) => Some(BuildMicrovmFromSnapshotError::RestoreState),
        RestoreStep::RestoreDevices => Some(BuildMicrovmFromSnapshotError::RestoreDevices),
        RestoreStep::FailMissingFilter => Some(
            BuildMicrovmFromSnapshotError::MissingVcpuSeccompFilters,
        ),
        RestoreStep::StartVcpus => Some(BuildMicrovmFromSnapshotError::StartVcpus),
        RestoreStep::RestoreBootSource
        | RestoreStep::SetUffd
        | RestoreStep::MarkPaused
        | RestoreStep::Subscribe => None,
    }
}

/// The error of a step that failed. Some steps cannot fail.
pub fn error_of(step: RestoreStep) -> (r: Option<BuildMicrovmFromSnapshotError>)
    ensures
        r == step_error(step),
{
    match step {
        RestoreStep::OpenKvm
        | RestoreStep::CreateVm
        | RestoreStep::CreateVcpus(_)
        | RestoreStep::RestoreMemory => Some(BuildMicrovmFromSnapshotError::CreateMicrovmAndVcpus),
        RestoreStep::CheckTscScaling(_) => Some(BuildMicrovmFromSnapshotError::GetTsc),
        RestoreStep::SetTsc(_, _) => Some(BuildMicrovmFromSnapshotError::SetTsc),
        RestoreStep::RestoreVcpu(_) => Some(BuildMicrovmFromSnapshotError::RestoreVcpus),
        RestoreStep::RestoreVmState(_) => Some(BuildMicrovmFromSnapshotError::RestoreState),
        RestoreStep::RestoreDevices => Some(BuildMicrovmFromSnapshotError::RestoreDevices),
        RestoreStep::FailMissingFilter => Some(
            BuildMicrovmFromSnapshotError::MissingVcpuSeccompFilters,
        ),
        RestoreStep::StartVcpus => Some(BuildMicrovmFromSnapshotError::StartVcpus),
        RestoreStep::RestoreBootSource
        | RestoreStep::SetUffd
        | RestoreStep::MarkPaused
        | RestoreStep::Subscribe => None,
    }
}

/// The position of the step that takes the saved boot source over.
pub open spec fn boot_source_at(inputs: RestoreInputs, scaling: bool) -> nat {
    restore_first(inputs).len() + tsc_steps(inputs, scaling).len() + vcpu_steps(inputs).len() + 1
}

/// What comes of restoring a microVM when so many steps were taken before one failed: the boot
/// source is the saved one once its step was taken, and the microVM is there once all were.
pub open spec fn restored_from_snapshot(
    before: VmResources,
    after: VmResources,
    instance_info: InstanceInfo,
    boot_source: BootSourceConfig,
    inputs: RestoreInputs,
    scaling: bool,
    taken: int,
    r: Result<Vmm, BuildMicrovmFromSnapshotError>,
) -> bool {
    let steps = restore_steps(inputs, scaling);
    &&& after == (if taken > boot_source_at(inputs, scaling) {
        VmResources {
            boot_source: BootSource { config: boot_source, ..before.boot_source },
            ..before
        }
    } else {
        before
    })
    &&& if taken < steps.len() {
        r is Err && step_error(steps[taken]) == Some(r->Err_0)
    } else if !inputs.has_vcpu_filter {
        r is Err && r->Err_0 == BuildMicrovmFromSnapshotError::MissingVcpuSeccompFilters
    } else {
        r matches Ok(vmm) && is_built(vmm, instance_info, after)
    }
}

/// Restores a microVM from a saved state, as far as the steps were taken: `taken` of them, after
/// which one failed or none was left.
pub fn build_microvm_from_snapshot(
    instance_info: &InstanceInfo,
    vm_resources: &mut VmResources,
    boot_source: BootSourceConfig,
    inputs: &RestoreInputs,
    scaling: bool,
    taken: usize,
) -> (r: Result<Vmm, BuildMicrovmFromSnapshotError>)
    requires
        inputs.tsc_khz@.len() > 0,
        taken < restore_steps(*inputs, scaling).len() ==> step_error(
            restore_steps(*inputs, scaling)[taken as int],
        ) is Some,
    ensures
        old(vm_resources).wf() ==> final(vm_resources).wf(),
        restored_from_snapshot(
            *old(vm_resources),
            *final(vm_resources),
            *instance_info,
            boot_source,
            *inputs,
            scaling,
            taken as int,
            r,
        ),
{
    let first = begin_from_snapshot(inputs);
    let rest = continue_from_snapshot(inputs, scaling);
    let ghost steps = restore_steps(*inputs, scaling);
    assert(steps =~= first@ + rest@);
    let last: usize = if inputs.has_vcpu_filter {
        7
    } else {
        5
    };
    let at: usize = first.len() + (rest.len() - last) + 1;
    assert(at == boot_source_at(*inputs, scaling));
    if taken > at {
        vm_resources.restore_boot_source(boot_source);
    }
    let failed: Option<RestoreStep> = if taken < first.len() {
        Some(first[taken])
    } else if taken - first.len() < rest.len() {
        Some(rest[taken - first.len()])
    } else {
        None
    };
    if let Some(step) = failed {
        assert(step == steps[taken as int]);
        if let Some(e) = error_of(step) {
            return Err(e);
        }
    }
    if !inputs.has_vcpu_filter {
        return Err(BuildMicrovmFromSnapshotError::MissingVcpuSeccompFilters);
    }
    Ok(built_microvm(instance_info, vm_resources))
}

/// A microVM that was restored is paused, under its identifier. It has the saved boot source, as
/// the resources then do, and the configuration of the machine that the resources have. The last
/// steps before that started the vCPUs paused and listened to the machine.
pub proof fn law_restored_machine(
    before: VmResources,
    after: VmResources,
    instance_info: InstanceInfo,
    boot_source: BootSourceConfig,
    inputs: RestoreInputs,
    scaling: bool,
    taken: int,
    vmm: Vmm,
)
    requires
        restored_from_snapshot(
            before,
            after,
            instance_info,
            boot_source,
            inputs,
            scaling,
            taken,
            Ok(vmm),
        ),
    ensures
        vmm.instance_info.id == instance_info.id,
        vmm.instance_info.state == VmState::Paused,
        after.boot_source.config == boot_source,
        vmm.boot_source_config == boot_source,
        after.machine_config == before.machine_config,
        vmm.machine_config.same_as(after.machine_config),
        ({
            let steps = restore_steps(inputs, scaling);
            &&& taken >= steps.len()
            &&& steps[steps.len() - 3] == RestoreStep::StartVcpus
            &&& steps[steps.len() - 2] == RestoreStep::MarkPaused
            &&& steps[steps.len() - 1] == RestoreStep::Subscribe
        }),
{
}

/// The devices are restored only after the machine is, so that an interrupt that a restored device
/// raises is not lost; and every vCPU is restored before the machine is.
pub proof fn law_devices_are_restored_after_the_machine(
    inputs: RestoreInputs,
    scaling: bool,
    i: int,
    j: int,
)
    requires
        ({
            let steps = tsc_steps(inputs, scaling) + vcpu_steps(inputs) + restore_last(inputs);
            &&& 0 <= i < steps.len()
            &&& 0 <= j < steps.len()
            &&& steps[i] is RestoreVmState
            &&& steps[j] is RestoreDevices || steps[j] is RestoreVcpu
        }),
    ensures
        ({
            let steps = tsc_steps(inputs, scaling) + vcpu_steps(inputs) + restore_last(inputs);
            if steps[j] is RestoreDevices {
                i < j
            } else {
                j < i
            }
        }),
{
}

/// The records of stolen time take 64 bytes for every CPU, at a multiple of 64 and as high as they
/// can stand in the system memory.
pub proof fn law_records_of_stolen_time_stand_high(
    before: ResourceAllocator,
    after: ResourceAllocator,
    vcpu_count: usize,
    r: Result<u64, StartMicrovmError>,
    place: int,
)
    requires
        apart(before.system_memory),
        pvtime_placed(before, after, vcpu_count, r),
        vcpu_count > 0,
    ensures
        r matches Ok(addr) ==> {
            &&& place > 0 && can_stand(before.system_memory, place, 64 * vcpu_count, 64) ==> {
                &&& addr as int % 64 == 0
                &&& place <= addr
            }
            &&& allocated_ranges(after.system_memory).contains(
                (addr as int, addr + 64 * vcpu_count - 1),
            )
        },
        place > 0 && can_stand(before.system_memory, place, 64 * vcpu_count, 64) && can_hand_out(
            before.system_memory,
        ) ==> r is Ok,
        r is Err ==> r->Err_0 is AllocateResources,
        after.mmio32_memory == before.mmio32_memory,
        after.mmio64_memory == before.mmio64_memory,
        after.past_mmio64_memory == before.past_mmio64_memory,
{
    if place > 0 && can_stand(before.system_memory, place, 64 * vcpu_count, 64) {
        law_room_above(before.system_memory, 64 * vcpu_count, 64, place);
    }
    if let Ok(addr) = r {
        if place > 0 && can_stand(before.system_memory, place, 64 * vcpu_count, 64) {
            law_highest_place_is_taken(
                before.system_memory,
                after.system_memory,
                addr as int,
                64 * vcpu_count,
                64,
                place,
            );
        }
    }
}

/// A device that is attached is registered as what it is, at a page of addresses and with an
/// interrupt that the kernel is told of and that are described to the guest.
pub proof fn law_attached_devices_are_known(
    before: BootState,
    after: BootState,
    entry: DeviceEntry,
    r: Result<(), StartMicrovmError>,
)
    requires
        attached(before, after, entry, r),
    ensures
        r is Ok ==> exists|i: int|
            {
                let device = after.mmio.virtio_devices@[i];
                let told = after.mmio.dsdt_data@.last();
                &&& 0 <= i < after.mmio.virtio_devices@.len()
                &&& (#[trigger] after.mmio.virtio_devices@[i]).device_type == entry.device_type
                &&& device.device_id@ == entry.id@
                &&& device.resources.len == 4096
                &&& told.addr == device.resources.addr
                &&& told.len == 4096
                &&& device.resources.gsi == Some(told.gsi)
            },
        r is Ok ==> after.mmio.dsdt_data@.len() == before.mmio.dsdt_data@.len() + 1,
        r is Err ==> after.mmio == before.mmio && r->Err_0 is AttachDevice,
{
    if r is Ok {
        let info = choose|info: MMIODeviceInfo| #[trigger] placed_with(before, after, entry, info);
        let device = choose|device: MMIODevice|
            {
                &&& #[trigger] registered(
                    before.mmio.virtio_devices@,
                    after.mmio.virtio_devices@,
                    device,
                )
                &&& device.is_at(entry.device_type, entry.id@)
                &&& device.resources == info
            };
        let list = before.mmio.virtio_devices@;
        let now = after.mmio.virtio_devices@;
        let i = if exists|i: int| #[trigger]
            found_at(list, device.device_type, device.device_id@, i) {
            choose|i: int| #[trigger] found_at(list, device.device_type, device.device_id@, i)
        } else {
            list.len() as int
        };
        assert(now[i] == device);
        assert(after.mmio.dsdt_data@.last() == described(info));
    }
}

/// Which error a step of restoring is told by: each sort of step has its own, and steps that cannot
/// fail have none.
pub proof fn law_failures_of_restoring_are_told(step: RestoreStep)
    ensures
        ({
            let e = step_error(step);
            &&& step is RestoreVcpu <==> e == Some(BuildMicrovmFromSnapshotError::RestoreVcpus)
            &&& step is RestoreVmState <==> e == Some(BuildMicrovmFromSnapshotError::RestoreState)
            &&& step is RestoreDevices <==> e == Some(BuildMicrovmFromSnapshotError::RestoreDevices)
            &&& step is SetTsc <==> e == Some(BuildMicrovmFromSnapshotError::SetTsc)
            &&& step is CheckTscScaling <==> e == Some(BuildMicrovmFromSnapshotError::GetTsc)
            &&& step is StartVcpus <==> e == Some(BuildMicrovmFromSnapshotError::StartVcpus)
            &&& step is FailMissingFilter <==> e == Some(
                BuildMicrovmFromSnapshotError::MissingVcpuSeccompFilters,
            )
            &&& step is OpenKvm || step is CreateVm || step is CreateVcpus || step is RestoreMemory
                <==> e == Some(BuildMicrovmFromSnapshotError::CreateMicrovmAndVcpus)
            &&& step is RestoreBootSource || step is SetUffd || step is MarkPaused || step
                is Subscribe <==> e is None
        }),
{
}

} // verus!
