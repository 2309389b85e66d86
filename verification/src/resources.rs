//! The resources of a microVM, as they are configured before it starts.

use vstd::prelude::*;

use crate::arch::x86_64::memory::{arch_memory_regions, ram_regions};
use crate::cpu_config::templates::CpuTemplateType;
use crate::cpu_config::x86_64::custom_cpu_template::CustomCpuTemplate;
use crate::devices::virtio::balloon::device::{BalloonConfig, MIB_TO_4K_PAGES};
use crate::devices::virtio::balloon::queues::BalloonError;
use crate::mmds::requests::{MmdsDatastoreError, MmdsVersion};
use crate::rate_limiter::TokenBucket;
use crate::vmm_config::balloon::{BalloonBuilder, BalloonConfigError};
use crate::vmm_config::boot_source::{BootSource, BootSourceConfig, BootSourceConfigError};
use crate::vmm_config::drive::{
    has_root, second_root, with_drive, BlockBuilder, BlockDeviceConfig, DriveError,
};
use crate::vmm_config::entropy::{EntropyDeviceConfig, EntropyDeviceError};
use crate::vmm_config::logger::LoggerConfig;
use crate::vmm_config::machine_config::{
    huge_page_flags, update_fault, updated, HugePageConfig, MachineConfig, MachineConfigError,
    MachineConfigUpdate, DEFAULT_MEM_SIZE_MIB,
};
use crate::vmm_config::memory_hotplug::{
    validated, MemoryHotplugConfig, MemoryHotplugConfigError,
};
use crate::vmm_config::metrics::{MetricsConfig, MetricsConfigError};
use crate::vmm_config::mmds::{
    is_link_local_valid, link_local, Mmds, MmdsConfig, MmdsConfigError, DEFAULT_IPV4_ADDR,
};
use crate::vmm_config::net::{
    lemma_net_index, mac_in_use, net_ids, net_index, without_net, NetBuilder, NetEntry,
    NetworkInterfaceConfig, NetworkInterfaceError,
};
use crate::vmm_config::pmem::{
    first_with_id, none_with_id, some_root, PmemBuilder, PmemConfig, PmemConfigError,
};
use crate::vmm_config::rate_limit::{bucket_of, build_bucket, TokenBucketConfig};
use crate::vmm_config::serial::SerialConfig;
use crate::vmm_config::vsock::{VsockConfigError, VsockDeviceConfig};
use crate::vstate::memory::{MemoryError, MAP_ANONYMOUS, MAP_NORESERVE, MAP_PRIVATE, MAP_SHARED};
use crate::vstate::memory_map::{anonymous, mappings, memfd_backed, total_size, MmapRequest};

verus! {

/// Why resources are refused.
#[derive(Debug, Clone, Copy, PartialEq, Eq, Structural)]
pub enum ResourcesError {
    /// The balloon.
    BalloonDevice(BalloonConfigError),
    /// A drive.
    BlockDevice(DriveError),
    /// What the guest boots.
    BootSource(BootSourceConfigError),
    /// A file, with the error of the host.
    File(i32),
    /// A text is not what it should be.
    InvalidJson,
    /// The logger, with the error of the host.
    Logger(i32),
    /// The metrics.
    Metrics(MetricsConfigError),
    /// The contents of the metadata store.
    Mmds(MmdsDatastoreError),
    /// The metadata service.
    MmdsConfig(MmdsConfigError),
    /// A network device.
    NetDevice(NetworkInterfaceError),
    /// The CPUs and the memory.
    MachineConfig(MachineConfigError),
    /// The socket device.
    VsockDevice(VsockConfigError),
    /// The source of entropy.
    EntropyConfig(EntropyDeviceError),
    /// A persistent memory device.
    PmemConfig(PmemConfigError),
    /// Memory that can be plugged.
    MemoryHotplugConfig(MemoryHotplugConfigError),
}

/// A template given in full, or where it is found.
#[derive(Debug)]
pub enum CustomCpuTemplateOrPath {
    /// Path of the template.
    Path(String),
    /// The template.
    Template(CustomCpuTemplate),
}

/// The configuration of a microVM as a whole.
#[derive(Debug)]
pub struct VmmConfig {
    /// Balloon.
    pub balloon: Option<BalloonConfig>,
    /// Drives.
    pub drives: Vec<BlockDeviceConfig>,
    /// What the guest boots.
    pub boot_source: BootSourceConfig,
    /// Template for the CPUs.
    pub cpu_config: Option<CustomCpuTemplateOrPath>,
    /// Logger.
    pub logger: Option<LoggerConfig>,
    /// CPUs and memory.
    pub machine_config: Option<MachineConfigUpdate>,
    /// Metrics.
    pub metrics: Option<MetricsConfig>,
    /// Metadata service.
    pub mmds_config: Option<MmdsConfig>,
    /// Network devices.
    pub network_interfaces: Vec<NetworkInterfaceConfig>,
    /// Socket device.
    pub vsock: Option<VsockDeviceConfig>,
    /// Source of entropy.
    pub entropy: Option<EntropyDeviceConfig>,
    /// Persistent memory devices.
    pub pmem_devices: Vec<PmemConfig>,
    /// Serial port.
    pub serial_config: Option<SerialConfig>,
    /// Memory that can be plugged.
    pub memory_hotplug: Option<MemoryHotplugConfig>,
}

/// A part of a configuration.
#[derive(Debug)]
pub enum ConfigItem {
    /// Logger.
    Logger(LoggerConfig),
    /// Metrics.
    Metrics(MetricsConfig),
    /// CPUs and memory.
    MachineConfig(MachineConfigUpdate),
    /// Template for the CPUs.
    CpuConfig(CustomCpuTemplateOrPath),
    /// What the guest boots.
    BootSource(BootSourceConfig),
    /// A drive.
    Drive(BlockDeviceConfig),
    /// A network device.
    Net(NetworkInterfaceConfig),
    /// Socket device.
    Vsock(VsockDeviceConfig),
    /// Balloon.
    Balloon(BalloonConfig),
    /// Contents for the metadata store.
    Metadata,
    /// Metadata service.
    Mmds(MmdsConfig),
    /// Source of entropy.
    Entropy(EntropyDeviceConfig),
    /// A persistent memory device.
    Pmem(PmemConfig),
    /// Serial port.
    Serial(SerialConfig),
    /// Memory that can be plugged.
    MemoryHotplug(MemoryHotplugConfig),
}

/// A part that may be there.
pub open spec fn optional<T>(part: Option<T>, item: spec_fn(T) -> ConfigItem) -> Seq<ConfigItem> {
    match part {
        Some(value) => seq![item(value)],
        None => seq![],
    }
}

/// A part of which there may be several.
pub open spec fn each<T>(parts: Seq<T>, item: spec_fn(T) -> ConfigItem) -> Seq<ConfigItem> {
    Seq::new(parts.len(), |i: int| item(parts[i]))
}

/// The parts of a configuration in the order in which they take effect.
pub open spec fn config_items(config: VmmConfig, has_metadata: bool) -> Seq<ConfigItem> {
    optional(config.logger, |l| ConfigItem::Logger(l)) + optional(
        config.metrics,
        |m| ConfigItem::Metrics(m),
    ) + optional(config.machine_config, |m| ConfigItem::MachineConfig(m)) + optional(
        config.cpu_config,
        |c| ConfigItem::CpuConfig(c),
    ) + seq![ConfigItem::BootSource(config.boot_source)] + each(
        config.drives@,
        |d| ConfigItem::Drive(d),
    ) + each(config.network_interfaces@, |n| ConfigItem::Net(n)) + optional(
        config.vsock,
        |v| ConfigItem::Vsock(v),
    ) + optional(config.balloon, |b| ConfigItem::Balloon(b)) + (if has_metadata {
        seq![ConfigItem::Metadata]
    } else {
        seq![]
    }) + optional(config.mmds_config, |m| ConfigItem::Mmds(m)) + optional(
        config.entropy,
        |e| ConfigItem::Entropy(e),
    ) + each(config.pmem_devices@, |p| ConfigItem::Pmem(p)) + optional(
        config.serial_config,
        |s| ConfigItem::Serial(s),
    ) + optional(config.memory_hotplug, |h| ConfigItem::MemoryHotplug(h))
}

impl VmmConfig {
    /// The parts of the configuration in the order in which they take effect.
    pub fn into_items(self, has_metadata: bool) -> (r: Vec<ConfigItem>)
        ensures
            r@ == config_items(self, has_metadata),
    {
        let mut items = first_items(
            self.logger,
            self.metrics,
            self.machine_config,
            self.cpu_config,
            self.boot_source,
        );
        push_drives(&mut items, self.drives);
        push_nets(&mut items, self.network_interfaces);
        push_singles(
            &mut items,
            self.vsock,
            self.balloon,
            has_metadata,
            self.mmds_config,
            self.entropy,
        );
        push_pmems(&mut items, self.pmem_devices);
        let ghost before = items@;
        if let Some(serial) = self.serial_config {
            items.push(ConfigItem::Serial(serial));
        }
        assert(items@ =~= before + optional(self.serial_config, |s| ConfigItem::Serial(s)));
        let ghost before = items@;
        if let Some(hotplug) = self.memory_hotplug {
            items.push(ConfigItem::MemoryHotplug(hotplug));
        }
        assert(items@ =~= before + optional(
            self.memory_hotplug,
            |h| ConfigItem::MemoryHotplug(h),
        ));
        items
    }
}

/// The parts that come first.
fn first_items(
    logger: Option<LoggerConfig>,
    metrics: Option<MetricsConfig>,
    machine_config: Option<MachineConfigUpdate>,
    cpu_config: Option<CustomCpuTemplateOrPath>,
    boot_source: BootSourceConfig,
) -> (r: Vec<ConfigItem>)
    ensures
        r@ == optional(logger, |l| ConfigItem::Logger(l)) + optional(
            metrics,
            |m| ConfigItem::Metrics(m),
        ) + optional(machine_config, |m| ConfigItem::MachineConfig(m)) + optional(
            cpu_config,
            |c| ConfigItem::CpuConfig(c),
        ) + seq![ConfigItem::BootSource(boot_source)],
{
    let mut items: Vec<ConfigItem> = Vec::new();
    if let Some(logger) = logger {
        items.push(ConfigItem::Logger(logger));
    }
    if let Some(metrics) = metrics {
        items.push(ConfigItem::Metrics(metrics));
    }
    if let Some(machine) = machine_config {
        items.push(ConfigItem::MachineConfig(machine));
    }
    if let Some(template) = cpu_config {
        items.push(ConfigItem::CpuConfig(template));
    }
    items.push(ConfigItem::BootSource(boot_source));
    assert(items@ =~= optional(logger, |l| ConfigItem::Logger(l)) + optional(
        metrics,
        |m| ConfigItem::Metrics(m),
    ) + optional(machine_config, |m| ConfigItem::MachineConfig(m)) + optional(
        cpu_config,
        |c| ConfigItem::CpuConfig(c),
    ) + seq![ConfigItem::BootSource(boot_source)]);
    items
}

/// Adds the parts of which there is one at most.
fn push_singles(
    items: &mut Vec<ConfigItem>,
    vsock: Option<VsockDeviceConfig>,
    balloon: Option<BalloonConfig>,
    has_metadata: bool,
    mmds_config: Option<MmdsConfig>,
    entropy: Option<EntropyDeviceConfig>,
)
    ensures
        final(items)@ == old(items)@ + optional(vsock, |v| ConfigItem::Vsock(v)) + optional(
            balloon,
            |b| ConfigItem::Balloon(b),
        ) + (if has_metadata {
            seq![ConfigItem::Metadata]
        } else {
            seq![]
        }) + optional(mmds_config, |m| ConfigItem::Mmds(m)) + optional(
            entropy,
            |e| ConfigItem::Entropy(e),
        ),
{
    let ghost head = items@;
    if let Some(vsock) = vsock {
        items.push(ConfigItem::Vsock(vsock));
    }
    let ghost with_vsock = items@;
    assert(with_vsock =~= head + optional(vsock, |v| ConfigItem::Vsock(v)));
    if let Some(balloon) = balloon {
        items.push(ConfigItem::Balloon(balloon));
    }
    let ghost with_balloon = items@;
    assert(with_balloon =~= with_vsock + optional(balloon, |b| ConfigItem::Balloon(b)));
    if has_metadata {
        items.push(ConfigItem::Metadata);
    }
    let ghost with_metadata = items@;
    assert(with_metadata =~= with_balloon + (if has_metadata {
        seq![ConfigItem::Metadata]
    } else {
        seq![]
    }));
    if let Some(mmds) = mmds_config {
        items.push(ConfigItem::Mmds(mmds));
    }
    let ghost with_mmds = items@;
    assert(with_mmds =~= with_metadata + optional(mmds_config, |m| ConfigItem::Mmds(m)));
    if let Some(entropy) = entropy {
        items.push(ConfigItem::Entropy(entropy));
    }
    assert(items@ =~= with_mmds + optional(entropy, |e| ConfigItem::Entropy(e)));
}

/// Adds drives.
fn push_drives(items: &mut Vec<ConfigItem>, parts: Vec<BlockDeviceConfig>)
    ensures
        final(items)@ == old(items)@ + each(parts@, |x| ConfigItem::Drive(x)),
{
    let ghost head = items@;
    let ghost item = |x: BlockDeviceConfig| ConfigItem::Drive(x);
    let ghost all = parts@;
    let mut parts = parts;
    assert(head + each(all.take(0), item) =~= head);
    while parts.len() > 0
        invariant
            item == (|x: BlockDeviceConfig| ConfigItem::Drive(x)),
            parts@ == all.skip(all.len() - parts@.len()),
            parts@.len() <= all.len(),
            items@ == head + each(all.take(all.len() - parts@.len()), item),
        decreases parts@.len(),
    {
        let ghost done = all.len() - parts@.len();
        assert(parts@[0] == all[done]);
        items.push(ConfigItem::Drive(parts.remove(0)));
        assert(parts@ =~= all.skip(done + 1));
        assert(items@ =~= head + each(all.take(done + 1), item));
    }
    assert(all.take(all.len() as int) =~= all);
}

/// Adds network devices.
fn push_nets(items: &mut Vec<ConfigItem>, parts: Vec<NetworkInterfaceConfig>)
    ensures
        final(items)@ == old(items)@ + each(parts@, |x| ConfigItem::Net(x)),
{
    let ghost head = items@;
    let ghost item = |x: NetworkInterfaceConfig| ConfigItem::Net(x);
    let ghost all = parts@;
    let mut parts = parts;
    assert(head + each(all.take(0), item) =~= head);
    while parts.len() > 0
        invariant
            item == (|x: NetworkInterfaceConfig| ConfigItem::Net(x)),
            parts@ == all.skip(all.len() - parts@.len()),
            parts@.len() <= all.len(),
            items@ == head + each(all.take(all.len() - parts@.len()), item),
        decreases parts@.len(),
    {
        let ghost done = all.len() - parts@.len();
        assert(parts@[0] == all[done]);
        items.push(ConfigItem::Net(parts.remove(0)));
        assert(parts@ =~= all.skip(done + 1));
        assert(items@ =~= head + each(all.take(done + 1), item));
    }
    assert(all.take(all.len() as int) =~= all);
}

/// Adds persistent memory devices.
fn push_pmems(items: &mut Vec<ConfigItem>, parts: Vec<PmemConfig>)
    ensures
        final(items)@ == old(items)@ + each(parts@, |x| ConfigItem::Pmem(x)),
{
    let ghost head = items@;
    let ghost item = |x: PmemConfig| ConfigItem::Pmem(x);
    let ghost all = parts@;
    let mut parts = parts;
    assert(head + each(all.take(0), item) =~= head);
    while parts.len() > 0
        invariant
            item == (|x: PmemConfig| ConfigItem::Pmem(x)),
            parts@ == all.skip(all.len() - parts@.len()),
            parts@.len() <= all.len(),
            items@ == head + each(all.take(all.len() - parts@.len()), item),
        decreases parts@.len(),
    {
        let ghost done = all.len() - parts@.len();
        assert(parts@[0] == all[done]);
        items.push(ConfigItem::Pmem(parts.remove(0)));
        assert(parts@ =~= all.skip(done + 1));
        assert(items@ =~= head + each(all.take(done + 1), item));
    }
    assert(all.take(all.len() as int) =~= all);
}

/// The resources of a microVM.
#[derive(Debug)]
pub struct VmResources {
    /// CPUs and memory.
    pub machine_config: MachineConfig,
    /// What the guest boots.
    pub boot_source: BootSource,
    /// Drives.
    pub block: BlockBuilder,
    /// Socket device.
    pub vsock: Option<VsockDeviceConfig>,
    /// Balloon.
    pub balloon: BalloonBuilder,
    /// Network devices.
    pub net_builder: NetBuilder,
    /// Source of entropy.
    pub entropy: Option<EntropyDeviceConfig>,
    /// Persistent memory devices.
    pub pmem: PmemBuilder,
    /// Memory that can be plugged.
    pub memory_hotplug: Option<MemoryHotplugConfig>,
    /// Metadata store.
    pub mmds: Option<Mmds>,
    /// The most bytes that the metadata store holds.
    pub mmds_size_limit: usize,
    /// Whether there is a boot timer.
    pub boot_timer: bool,
    /// Whether devices are attached to a PCI bus.
    pub pci_enabled: bool,
    /// Where the output of the serial port goes.
    pub serial_out_path: Option<String>,
    /// Limit on the output of the serial port.
    pub serial_rate_limiter_cfg: Option<TokenBucketConfig>,
}

/// Whether all network devices that are named are there.
pub open spec fn all_known(devices: Seq<NetEntry>, names: Seq<String>) -> bool {
    forall|i: int|
        0 <= i < names.len() ==> net_index(devices, (#[trigger] names[i])@) < devices.len()
}

/// Whether a name is among others.
pub open spec fn named(names: Seq<String>, name: Seq<char>) -> bool {
    exists|i: int| 0 <= i < names.len() && (#[trigger] names[i])@ == name
}

/// What is wrong with the network side of a configuration of the metadata service.
pub open spec fn mmds_fault(devices: Seq<NetEntry>, config: MmdsConfig) -> Option<MmdsConfigError> {
    if config.ipv4_address is Some && !link_local(config.ipv4_address->Some_0) {
        Some(MmdsConfigError::InvalidIpv4Addr)
    } else if config.network_interfaces@.len() == 0 {
        Some(MmdsConfigError::EmptyNetworkIfaceList)
    } else if !all_known(devices, config.network_interfaces@) {
        Some(MmdsConfigError::InvalidNetworkInterfaceId)
    } else {
        None
    }
}

/// The address of the metadata service.
pub open spec fn mmds_address(config: MmdsConfig) -> u32 {
    match config.ipv4_address {
        Some(addr) => addr,
        None => DEFAULT_IPV4_ADDR,
    }
}

/// Network devices once those that are named answer for the metadata service, and no others do.
pub open spec fn answering(devices: Seq<NetEntry>, names: Seq<String>, addr: u32) -> Seq<NetEntry> {
    Seq::new(
        devices.len(),
        |i: int|
            NetEntry {
                config: devices[i].config,
                mmds_ipv4: if named(names, devices[i].config.iface_id@) {
                    Some(addr)
                } else {
                    None
                },
            },
    )
}

/// The identifiers of the devices that answer for the metadata service.
pub open spec fn answering_ids(devices: Seq<NetEntry>) -> Seq<Seq<char>>
    decreases devices.len(),
{
    if devices.len() == 0 {
        seq![]
    } else {
        let before = answering_ids(devices.drop_last());
        if devices.last().mmds_ipv4 is Some {
            before.push(devices.last().config.iface_id@)
        } else {
            before
        }
    }
}

/// The address of the first device that answers for the metadata service.
pub open spec fn answering_address(devices: Seq<NetEntry>) -> Option<u32>
    decreases devices.len(),
{
    if devices.len() == 0 {
        None
    } else {
        match answering_address(devices.drop_last()) {
            Some(addr) => Some(addr),
            None => devices.last().mmds_ipv4,
        }
    }
}

/// The texts of names.
pub open spec fn texts_of(names: Seq<String>) -> Seq<Seq<char>> {
    Seq::new(names.len(), |i: int| names[i]@)
}

/// Whether memory must be shared with another process: one that performs the transfers of a drive.
pub open spec fn shares_memory(devices: Seq<BlockDeviceConfig>) -> bool {
    exists|i: int| 0 <= i < devices.len() && (#[trigger] devices[i]).socket is Some
}

/// Mappings for guest memory.
#[derive(Debug)]
pub struct MemoryPlan {
    /// The size of the file behind them, if there is one.
    pub file_size: Option<u64>,
    /// The mappings.
    pub requests: Vec<MmapRequest>,
    /// What goes wrong after they were made.
    pub error: Option<MemoryError>,
}

/// Whether a plan is for given regions.
pub open spec fn is_plan(resources: VmResources, regions: Seq<(u64, usize)>, plan: MemoryPlan) -> bool {
    let huge = huge_page_flags(resources.machine_config.huge_pages);
    if shares_memory(resources.block.devices@) {
        &&& plan.file_size is Some
        &&& plan.file_size->Some_0 == total_size(regions)
        &&& (plan.requests@, plan.error) == mappings(
            regions,
            MAP_NORESERVE | (MAP_SHARED | huge),
            true,
            resources.machine_config.track_dirty_pages,
            0,
        )
    } else {
        &&& plan.file_size is None
        &&& (plan.requests@, plan.error) == mappings(
            regions,
            MAP_NORESERVE | (MAP_PRIVATE | MAP_ANONYMOUS | huge),
            false,
            resources.machine_config.track_dirty_pages,
            0,
        )
    }
}

/// Whether resources are those of a microVM of which nothing is configured yet.
pub open spec fn is_fresh(r: VmResources, mmds_size_limit: usize) -> bool {
    &&& r.machine_config == (MachineConfig {
        vcpu_count: 1,
        mem_size_mib: DEFAULT_MEM_SIZE_MIB,
        smt: false,
        cpu_template: None,
        track_dirty_pages: false,
        huge_pages: HugePageConfig::Regular,
    })
    &&& !r.boot_source.has_builder
    &&& r.boot_source.config.kernel_image_path@.len() == 0
    &&& r.boot_source.config.initrd_path is None
    &&& r.boot_source.config.boot_args is None
    &&& r.block.devices@.len() == 0
    &&& r.vsock is None
    &&& r.balloon.inner is None
    &&& r.net_builder.devices@.len() == 0
    &&& r.entropy is None
    &&& r.pmem.configs@.len() == 0
    &&& r.memory_hotplug is None
    &&& r.mmds is None
    &&& r.mmds_size_limit == mmds_size_limit
    &&& !r.boot_timer
    &&& !r.pci_enabled
    &&& r.serial_out_path is None
    &&& r.serial_rate_limiter_cfg is None
}

/// What comes of taking a template for the CPUs.
pub open spec fn template_set(
    before: VmResources,
    after: VmResources,
    cpu_template: CustomCpuTemplate,
) -> bool {
    after == (VmResources {
        machine_config: MachineConfig {
            cpu_template: Some(CpuTemplateType::Custom(cpu_template)),
            ..before.machine_config
        },
        ..before
    })
}

/// What comes of changing the CPUs and the memory.
pub open spec fn machine_updated(
    before: VmResources,
    after: VmResources,
    update: MachineConfigUpdate,
    r: Result<(), MachineConfigError>,
) -> bool {
    match update_fault(before.machine_config, update) {
        Some(e) => r is Err && r->Err_0 == e && after == before,
        None => if before.balloon_too_large(update) {
            r is Err && r->Err_0 == MachineConfigError::IncompatibleBalloonSize
                && after == before
        } else {
            r is Ok && after == (VmResources {
                machine_config: updated(before.machine_config, update),
                ..before
            })
        },
    }
}

/// What comes of setting the balloon.
pub open spec fn balloon_set(
    before: VmResources,
    after: VmResources,
    config: BalloonConfig,
    r: Result<(), BalloonConfigError>,
) -> bool {
    &&& after == (VmResources { balloon: after.balloon, ..before })
    &&& r is Err ==> after.balloon.inner == before.balloon.inner
    &&& config.amount_mib > before.machine_config.mem_size_mib ==> r is Err && r->Err_0
        == BalloonConfigError::TooManyPagesRequested
    &&& config.amount_mib <= before.machine_config.mem_size_mib && config.amount_mib
        * MIB_TO_4K_PAGES > u32::MAX ==> r is Err && r->Err_0
        == BalloonConfigError::CreateFailure(
        BalloonError::TooMuchMemoryRequested(u32::MAX / MIB_TO_4K_PAGES),
    )
    &&& config.amount_mib <= before.machine_config.mem_size_mib && config.amount_mib
        * MIB_TO_4K_PAGES <= u32::MAX ==> r is Ok && after.balloon.inner is Some
        && after.balloon.inner->Some_0.is_new(config)
}

/// What comes of setting what the guest boots.
pub open spec fn boot_built(
    before: VmResources,
    after: VmResources,
    boot_source_cfg: BootSourceConfig,
    opened: Result<(), BootSourceConfigError>,
    r: Result<(), BootSourceConfigError>,
) -> bool {
    match opened {
        Err(e) => r is Err && r->Err_0 == e && after == before,
        Ok(_) => r is Ok && after == (VmResources {
            boot_source: BootSource { config: boot_source_cfg, has_builder: true },
            ..before
        }),
    }
}

/// What comes of adding a drive.
pub open spec fn drive_set(
    before: VmResources,
    after: VmResources,
    block_device_config: BlockDeviceConfig,
    created: Result<(), DriveError>,
    r: Result<(), DriveError>,
) -> bool {
    &&& after == (VmResources { block: after.block, ..before })
    &&& r is Err ==> after.block.devices@ == before.block.devices@
    &&& second_root(
        before.block.devices@,
        block_device_config,
        some_root(before.pmem.configs@),
    ) ==> r is Err && r->Err_0 == DriveError::RootBlockDeviceAlreadyAdded
    &&& !second_root(
        before.block.devices@,
        block_device_config,
        some_root(before.pmem.configs@),
    ) ==> match created {
        Err(e) => r is Err && r->Err_0 == e,
        Ok(_) => r is Ok && after.block.devices@ == with_drive(
            before.block.devices@,
            block_device_config,
        ),
    }
}

/// What comes of adding a network device.
pub open spec fn net_built(
    before: VmResources,
    after: VmResources,
    body: NetworkInterfaceConfig,
    created: Result<(), NetworkInterfaceError>,
    r: Result<(), NetworkInterfaceError>,
) -> bool {
    &&& after == (VmResources { net_builder: after.net_builder, ..before })
    &&& mac_in_use(before.net_builder.devices@, body) ==> {
        &&& r is Err
        &&& r->Err_0 == NetworkInterfaceError::GuestMacAddressInUse(body.guest_mac->Some_0)
        &&& after.net_builder.devices@ == before.net_builder.devices@
    }
    &&& !mac_in_use(before.net_builder.devices@, body) ==> match created {
        Err(e) => r is Err && r->Err_0 == e && after.net_builder.devices@
            == without_net(before.net_builder.devices@, body.iface_id@),
        Ok(_) => r is Ok && after.net_builder.devices@ == without_net(
            before.net_builder.devices@,
            body.iface_id@,
        ).push(NetEntry { config: body, mmds_ipv4: None }),
    }
}

/// What comes of setting the socket device.
pub open spec fn vsock_set(
    before: VmResources,
    after: VmResources,
    config: VsockDeviceConfig,
    created: Result<(), VsockConfigError>,
    r: Result<(), VsockConfigError>,
) -> bool {
    match created {
        Err(e) => r is Err && r->Err_0 == e && after == before,
        Ok(_) => r is Ok && after == (VmResources {
            vsock: Some(config),
            ..before
        }),
    }
}

/// What comes of setting the source of entropy.
pub open spec fn entropy_built(
    before: VmResources,
    after: VmResources,
    body: EntropyDeviceConfig,
    created: Result<(), EntropyDeviceError>,
    r: Result<(), EntropyDeviceError>,
) -> bool {
    match created {
        Err(e) => r is Err && r->Err_0 == e && after == before,
        Ok(_) => r is Ok && after == (VmResources { entropy: Some(body), ..before }),
    }
}

/// What comes of adding a persistent memory device.
pub open spec fn pmem_built(
    before: VmResources,
    after: VmResources,
    body: PmemConfig,
    r: Result<(), PmemConfigError>,
) -> bool {
    &&& after == (VmResources { pmem: after.pmem, ..before })
    &&& r is Err ==> after.pmem.configs == before.pmem.configs
    &&& body.root_device && has_root(before.block.devices@) ==> r is Err && r->Err_0
        == PmemConfigError::AddingSecondRootDevice
    &&& !(body.root_device && has_root(before.block.devices@)) ==> {
        &&& forall|i: int| #[trigger]
            first_with_id(before.pmem.configs@, body.id@, i) ==> {
                &&& r is Err <==> !before.pmem.configs@[i].root_device && body.root_device
                    && some_root(before.pmem.configs@)
                &&& r is Err ==> r->Err_0 == PmemConfigError::RootPmemDeviceAlreadyExist
                &&& r is Ok ==> after.pmem.configs@ == before.pmem.configs@.update(i, body)
            }
        &&& none_with_id(before.pmem.configs@, body.id@) ==> {
            &&& r is Err <==> body.root_device && some_root(before.pmem.configs@)
            &&& r is Err ==> r->Err_0 == PmemConfigError::RootPmemDeviceAlreadyExist
            &&& r is Ok ==> after.pmem.configs@ == before.pmem.configs@.push(body)
        }
    }
}

/// What comes of setting the memory that can be plugged.
pub open spec fn hotplug_set(
    before: VmResources,
    after: VmResources,
    config: MemoryHotplugConfig,
    r: Result<(), MemoryHotplugConfigError>,
) -> bool {
    &&& r == validated(config)
    &&& r is Err ==> after == before
    &&& r is Ok ==> after == (VmResources {
        memory_hotplug: Some(config),
        ..before
    })
}

/// The metadata store that is used: the one that is there, or else a fresh one.
pub open spec fn store_of(resources: VmResources, created: Result<Mmds, MmdsConfigError>) -> Result<
    Mmds,
    MmdsConfigError,
> {
    match resources.mmds {
        Some(mmds) => Ok(mmds),
        None => created,
    }
}

/// What comes of setting up the metadata service.
pub open spec fn mmds_set(
    before: VmResources,
    after: VmResources,
    config: MmdsConfig,
    instance_id: Seq<char>,
    created: Result<Mmds, MmdsConfigError>,
    r: Result<(), MmdsConfigError>,
) -> bool {
    match mmds_fault(before.net_builder.devices@, config) {
        Some(e) => r is Err && r->Err_0 == e && after == before,
        None => match store_of(before, created) {
            Err(e) => r is Err && r->Err_0 == e && after == before,
            Ok(store) => {
                &&& r is Ok
                &&& after == (VmResources {
                    net_builder: after.net_builder,
                    mmds: after.mmds,
                    ..before
                })
                &&& after.net_builder.devices@ == answering(
                    before.net_builder.devices@,
                    config.network_interfaces@,
                    mmds_address(config),
                )
                &&& after.mmds matches Some(mmds)
                &&& is_set_up(store, mmds, config.version, config.imds_compat, instance_id)
            },
        },
    }
}

/// Whether a metadata store is another one with a version, a flag and the machine it is for.
pub open spec fn is_set_up(
    before: Mmds,
    after: Mmds,
    version: MmdsVersion,
    imds_compat: bool,
    instance_id: Seq<char>,
) -> bool {
    &&& after == (Mmds { version, imds_compat, aad: after.aad, ..before })
    &&& after.aad@ == instance_id
}

/// Whether `r` is what the resources say of the metadata service: nothing without a store or
/// without a network device that answers for it.
pub open spec fn mmds_described(resources: VmResources, r: Option<MmdsConfig>) -> bool {
    let devices = resources.net_builder.devices@;
    if resources.mmds is None || answering_ids(devices).len() == 0 {
        r is None
    } else {
        &&& r matches Some(config)
        &&& config.version == resources.mmds->Some_0.version
        &&& config.imds_compat == resources.mmds->Some_0.imds_compat
        &&& texts_of(config.network_interfaces@) == answering_ids(devices)
        &&& config.ipv4_address == answering_address(devices)
    }
}

/// What the host answers while a part of a configuration takes effect. Each part reads the answers
/// that concern it.
#[derive(Debug)]
pub struct HostAnswers {
    /// Whether the logger was configured.
    pub logger: Result<(), i32>,
    /// Whether metrics are written from now on.
    pub metrics: Result<(), MetricsConfigError>,
    /// The template for the CPUs that is found at a path.
    pub template: Result<CustomCpuTemplate, ResourcesError>,
    /// Whether the kernel is ready.
    pub kernel: Result<(), BootSourceConfigError>,
    /// Whether a drive could be created.
    pub drive: Result<(), DriveError>,
    /// Whether a host interface could be set up.
    pub net: Result<(), NetworkInterfaceError>,
    /// Whether the socket on the host could be set up.
    pub vsock: Result<(), VsockConfigError>,
    /// Whether the source of entropy could be created.
    pub entropy: Result<(), EntropyDeviceError>,
    /// A fresh metadata store.
    pub store: Result<Mmds, MmdsConfigError>,
    /// Whether the metadata store took its contents.
    pub metadata: Result<(), MmdsDatastoreError>,
}

/// What comes of putting contents into the metadata store, which is made where there is none.
pub open spec fn metadata_put(
    before: VmResources,
    after: VmResources,
    store: Result<Mmds, MmdsConfigError>,
    metadata: Result<(), MmdsDatastoreError>,
    r: Result<(), ResourcesError>,
) -> bool {
    match store_of(before, store) {
        Err(e) => r is Err && r->Err_0 == ResourcesError::MmdsConfig(e) && after == before,
        Ok(mmds) => {
            &&& after == (VmResources { mmds: Some(mmds), ..before })
            &&& match metadata {
                Ok(_) => r is Ok,
                Err(e) => r is Err && r->Err_0 == ResourcesError::Mmds(e),
            }
        },
    }
}

/// What comes of a part of a configuration.
pub open spec fn item_applied(
    before: VmResources,
    after: VmResources,
    item: ConfigItem,
    instance_id: Seq<char>,
    answers: HostAnswers,
    r: Result<(), ResourcesError>,
) -> bool {
    match item {
        ConfigItem::Logger(_) => after == before && r == (match answers.logger {
            Ok(_) => Ok::<(), ResourcesError>(()),
            Err(e) => Err(ResourcesError::Logger(e)),
        }),
        ConfigItem::Metrics(_) => after == before && r == (match answers.metrics {
            Ok(_) => Ok::<(), ResourcesError>(()),
            Err(e) => Err(ResourcesError::Metrics(e)),
        }),
        ConfigItem::MachineConfig(update) => {
            &&& r is Err ==> r->Err_0 is MachineConfig
            &&& machine_updated(
                before,
                after,
                update,
                match r {
                    Ok(_) => Ok(()),
                    Err(e) => Err(e->MachineConfig_0),
                },
            )
        },
        ConfigItem::CpuConfig(CustomCpuTemplateOrPath::Template(template)) => r is Ok
            && template_set(before, after, template),
        ConfigItem::CpuConfig(CustomCpuTemplateOrPath::Path(_)) => match answers.template {
            Ok(template) => r is Ok && template_set(before, after, template),
            Err(e) => r is Err && r->Err_0 == e && after == before,
        },
        ConfigItem::BootSource(config) => {
            &&& r is Err ==> r->Err_0 is BootSource
            &&& boot_built(
                before,
                after,
                config,
                answers.kernel,
                match r {
                    Ok(_) => Ok(()),
                    Err(e) => Err(e->BootSource_0),
                },
            )
        },
        ConfigItem::Drive(config) => {
            &&& r is Err ==> r->Err_0 is BlockDevice
            &&& drive_set(
                before,
                after,
                config,
                answers.drive,
                match r {
                    Ok(_) => Ok(()),
                    Err(e) => Err(e->BlockDevice_0),
                },
            )
        },
        ConfigItem::Net(config) => {
            &&& r is Err ==> r->Err_0 is NetDevice
            &&& net_built(
                before,
                after,
                config,
                answers.net,
                match r {
                    Ok(_) => Ok(()),
                    Err(e) => Err(e->NetDevice_0),
                },
            )
        },
        ConfigItem::Vsock(config) => {
            &&& r is Err ==> r->Err_0 is VsockDevice
            &&& vsock_set(
                before,
                after,
                config,
                answers.vsock,
                match r {
                    Ok(_) => Ok(()),
                    Err(e) => Err(e->VsockDevice_0),
                },
            )
        },
        ConfigItem::Balloon(config) => {
            &&& r is Err ==> r->Err_0 is BalloonDevice
            &&& balloon_set(
                before,
                after,
                config,
                match r {
                    Ok(_) => Ok(()),
                    Err(e) => Err(e->BalloonDevice_0),
                },
            )
        },
        ConfigItem::Metadata => metadata_put(before, after, answers.store, answers.metadata, r),
        ConfigItem::Mmds(config) => {
            &&& r is Err ==> r->Err_0 is MmdsConfig
            &&& mmds_set(
                before,
                after,
                config,
                instance_id,
                answers.store,
                match r {
                    Ok(_) => Ok(()),
                    Err(e) => Err(e->MmdsConfig_0),
                },
            )
        },
        ConfigItem::Entropy(config) => {
            &&& r is Err ==> r->Err_0 is EntropyConfig
            &&& entropy_built(
                before,
                after,
                config,
                answers.entropy,
                match r {
                    Ok(_) => Ok(()),
                    Err(e) => Err(e->EntropyConfig_0),
                },
            )
        },
        ConfigItem::Pmem(config) => {
            &&& r is Err ==> r->Err_0 is PmemConfig
            &&& pmem_built(
                before,
                after,
                config,
                match r {
                    Ok(_) => Ok(()),
                    Err(e) => Err(e->PmemConfig_0),
                },
            )
        },
        ConfigItem::Serial(config) => r is Ok && after == (VmResources {
            serial_out_path: config.serial_out_path,
            serial_rate_limiter_cfg: config.rate_limiter,
            ..before
        }),
        ConfigItem::MemoryHotplug(config) => {
            &&& r is Err ==> r->Err_0 is MemoryHotplugConfig
            &&& hotplug_set(
                before,
                after,
                config,
                match r {
                    Ok(_) => Ok(()),
                    Err(e) => Err(e->MemoryHotplugConfig_0),
                },
            )
        },
    }
}

/// Whether each state follows from the one before by the next part of a configuration.
pub open spec fn configured(
    states: Seq<VmResources>,
    items: Seq<ConfigItem>,
    instance_id: Seq<char>,
    answers: Seq<HostAnswers>,
) -> bool {
    &&& 1 <= states.len() <= items.len() + 1
    &&& forall|i: int|
        0 <= i < states.len() - 1 ==> item_applied(
            states[i],
            #[trigger] states[i + 1],
            items[i],
            instance_id,
            answers[i],
            Ok(()),
        )
}

/// Whether a part of a configuration is refused.
pub open spec fn item_refused(
    before: VmResources,
    item: ConfigItem,
    instance_id: Seq<char>,
    answers: HostAnswers,
    e: ResourcesError,
) -> bool {
    exists|after: VmResources| #[trigger]
        item_applied(before, after, item, instance_id, answers, Err(e))
}

/// Whether resources went through states while the parts of a configuration took effect: all of
/// them did, or the next one was refused.
pub open spec fn config_run(
    states: Seq<VmResources>,
    items: Seq<ConfigItem>,
    instance_id: Seq<char>,
    answers: Seq<HostAnswers>,
    mmds_size_limit: usize,
    r: Result<VmResources, ResourcesError>,
) -> bool {
    &&& configured(states, items, instance_id, answers)
    &&& is_fresh(states[0], mmds_size_limit)
    &&& match r {
        Ok(resources) => {
            &&& states.len() == items.len() + 1
            &&& resources == states.last()
            &&& resources.wf()
        },
        Err(e) => {
            &&& states.len() <= items.len()
            &&& item_refused(
                states.last(),
                items[states.len() - 1],
                instance_id,
                answers[states.len() - 1],
                e,
            )
        },
    }
}

impl VmResources {
    /// The balloon is no larger than the memory, there is at most one root device, and no two
    /// network devices have the same identifier.
    pub open spec fn wf(self) -> bool {
        &&& self.machine_config.wf()
        &&& self.balloon.inner matches Some(balloon) ==> balloon.config_space.num_pages
            / MIB_TO_4K_PAGES <= self.machine_config.mem_size_mib
        &&& self.block.wf()
        &&& self.pmem.wf()
        &&& self.net_builder.wf()
        &&& !(has_root(self.block.devices@) && some_root(self.pmem.configs@))
    }

    /// Resources without devices, with a limit for the metadata store.
    pub fn new(mmds_size_limit: usize) -> (r: VmResources)
        ensures
            r.wf(),
            is_fresh(r, mmds_size_limit),
    {
        VmResources {
            machine_config: MachineConfig::default(),
            boot_source: BootSource {
                config: BootSourceConfig {
                    kernel_image_path: String::new(),
                    initrd_path: None,
                    boot_args: None,
                },
                has_builder: false,
            },
            block: BlockBuilder::new(),
            vsock: None,
            balloon: BalloonBuilder::new(),
            net_builder: NetBuilder::new(),
            entropy: None,
            pmem: PmemBuilder::new(),
            memory_hotplug: None,
            mmds: None,
            mmds_size_limit,
            boot_timer: false,
            pci_enabled: false,
            serial_out_path: None,
            serial_rate_limiter_cfg: None,
        }
    }

    /// The limit on the output of the serial port.
    pub fn serial_rate_limiter(&self) -> (r: Option<TokenBucket>)
        ensures
            r == bucket_of(self.serial_rate_limiter_cfg),
    {
        build_bucket(self.serial_rate_limiter_cfg)
    }

    /// The metadata store, which is created where there is none. `created` is the fresh store, or
    /// why there is none. It matters only where a store is needed.
    pub fn mmds_or_default(&mut self, created: Result<Mmds, MmdsConfigError>) -> (r: Result<
        &mut Mmds,
        MmdsConfigError,
    >)
        ensures
            match store_of(*old(self), created) {
                Err(e) => r is Err && r->Err_0 == e && *final(self) == *old(self),
                Ok(mmds) => {
                    &&& r is Ok
                    &&& *(r->Ok_0) == mmds
                    &&& *final(self) == (VmResources {
                        mmds: Some(*final(r->Ok_0)),
                        ..*old(self)
                    })
                },
            },
    {
        if self.mmds.is_none() {
            match created {
                Err(e) => {
                    return Err(e);
                },
                Ok(fresh) => {
                    self.mmds = Some(fresh);
                },
            }
        }
        match &mut self.mmds {
            Some(mmds) => Ok(mmds),
            None => Err(MmdsConfigError::InitMmdsDatastore),
        }
    }

    /// The metadata store, which is created where there is none.
    pub fn locked_mmds_or_default(&mut self, created: Result<Mmds, MmdsConfigError>) -> (r: Result<
        &mut Mmds,
        MmdsConfigError,
    >)
        ensures
            match store_of(*old(self), created) {
                Err(e) => r is Err && r->Err_0 == e && *final(self) == *old(self),
                Ok(mmds) => {
                    &&& r is Ok
                    &&& *(r->Ok_0) == mmds
                    &&& *final(self) == (VmResources {
                        mmds: Some(*final(r->Ok_0)),
                        ..*old(self)
                    })
                },
            },
    {
        self.mmds_or_default(created)
    }

    /// Takes a template for the CPUs.
    pub fn set_custom_cpu_template(&mut self, cpu_template: CustomCpuTemplate)
        requires
            old(self).wf(),
        ensures
            final(self).wf(),
            template_set(*old(self), *final(self), cpu_template),
    {
        self.machine_config.set_custom_cpu_template(cpu_template);
    }

    /// Whether the balloon would be larger than the memory after changes.
    pub open spec fn balloon_too_large(self, update: MachineConfigUpdate) -> bool {
        self.balloon.inner is Some && updated(self.machine_config, update).mem_size_mib
            < self.balloon.inner->Some_0.config_space.num_pages / MIB_TO_4K_PAGES
    }

    /// Changes the CPUs and the memory. The memory cannot become smaller than the balloon.
    pub fn update_machine_config(&mut self, update: &MachineConfigUpdate) -> (r: Result<
        (),
        MachineConfigError,
    >)
        requires
            old(self).wf(),
        ensures
            final(self).wf(),
            machine_updated(*old(self), *final(self), *update, r),
    {
        let mem_size_mib: usize = match self.machine_config.check_update(update) {
            Ok(size) => size,
            Err(e) => {
                return Err(e);
            },
        };
        if let Some(balloon) = &self.balloon.inner {
            if mem_size_mib < balloon.target_mb() as usize {
                return Err(MachineConfigError::IncompatibleBalloonSize);
            }
        }
        self.machine_config.update(update);
        Ok(())
    }

    /// The configuration of the metadata service, if there is a store and a network device answers
    /// for it.
    pub fn mmds_config(&self) -> (r: Option<MmdsConfig>)
        ensures
            mmds_described(*self, r),
    {
        let mmds = match &self.mmds {
            Some(mmds) => mmds,
            None => {
                return None;
            },
        };
        let ghost devices = self.net_builder.devices@;
        let mut network_interfaces: Vec<String> = Vec::new();
        let mut ipv4_address: Option<u32> = None;
        let mut i: usize = 0;
        assert(devices.take(0) =~= Seq::<NetEntry>::empty());
        assert(texts_of(network_interfaces@) =~= answering_ids(devices.take(0)));
        while i < self.net_builder.devices.len()
            invariant
                devices == self.net_builder.devices@,
                i <= devices.len(),
                texts_of(network_interfaces@) == answering_ids(devices.take(i as int)),
                ipv4_address == answering_address(devices.take(i as int)),
            decreases devices.len() - i,
        {
            assert(devices.take(i + 1).drop_last() =~= devices.take(i as int));
            let ghost before = network_interfaces@;
            if let Some(addr) = self.net_builder.devices[i].mmds_ipv4 {
                network_interfaces.push(self.net_builder.devices[i].config.iface_id.clone());
                assert(texts_of(network_interfaces@) =~= texts_of(before).push(
                    devices[i as int].config.iface_id@,
                ));
                if ipv4_address.is_none() {
                    ipv4_address = Some(addr);
                }
            }
            i += 1;
        }
        assert(devices.take(i as int) =~= devices);
        if network_interfaces.len() == 0 {
            return None;
        }
        Some(
            MmdsConfig {
                version: mmds.version,
                network_interfaces,
                ipv4_address,
                imds_compat: mmds.imds_compat,
            },
        )
    }

    /// Sets the balloon. It cannot be larger than the memory.
    pub fn set_balloon_device(&mut self, config: BalloonConfig) -> (r: Result<
        (),
        BalloonConfigError,
    >)
        requires
            old(self).wf(),
        ensures
            final(self).wf(),
            balloon_set(*old(self), *final(self), config, r),
    {
        if config.amount_mib as usize > self.machine_config.mem_size_mib {
            return Err(BalloonConfigError::TooManyPagesRequested);
        }
        self.balloon.set(config)
    }

    /// Takes over what a saved machine booted. Whether a kernel is ready stays as it is.
    pub fn restore_boot_source(&mut self, saved: BootSourceConfig)
        ensures
            old(self).wf() ==> final(self).wf(),
            *final(self) == (VmResources {
                boot_source: BootSource { config: saved, ..old(self).boot_source },
                ..*old(self)
            }),
    {
        self.boot_source.config = saved;
    }

    /// Sets what the guest boots. `opened` says whether the kernel is ready.
    pub fn build_boot_source(
        &mut self,
        boot_source_cfg: BootSourceConfig,
        opened: Result<(), BootSourceConfigError>,
    ) -> (r: Result<(), BootSourceConfigError>)
        requires
            old(self).wf(),
        ensures
            final(self).wf(),
            boot_built(*old(self), *final(self), boot_source_cfg, opened, r),
    {
        match opened {
            Err(e) => Err(e),
            Ok(_) => {
                self.boot_source = BootSource { config: boot_source_cfg, has_builder: true };
                Ok(())
            },
        }
    }

    /// Adds a drive, or replaces the one with the same identifier. `created` says whether the
    /// device could be created.
    pub fn set_block_device(
        &mut self,
        block_device_config: BlockDeviceConfig,
        created: Result<(), DriveError>,
    ) -> (r: Result<(), DriveError>)
        requires
            old(self).wf(),
        ensures
            final(self).wf(),
            drive_set(*old(self), *final(self), block_device_config, created, r),
    {
        let has_pmem_root: bool = self.pmem.has_root_device();
        self.block.insert(block_device_config, has_pmem_root, created)
    }

    /// Adds a network device, or replaces the one with the same identifier. `created` says whether
    /// the host interface could be set up.
    pub fn build_net_device(
        &mut self,
        body: NetworkInterfaceConfig,
        created: Result<(), NetworkInterfaceError>,
    ) -> (r: Result<(), NetworkInterfaceError>)
        requires
            old(self).wf(),
        ensures
            final(self).wf(),
            net_built(*old(self), *final(self), body, created, r),
    {
        self.net_builder.build(body, created)
    }

    /// Sets the socket device. `created` says whether the socket on the host could be set up.
    pub fn set_vsock_device(
        &mut self,
        config: VsockDeviceConfig,
        created: Result<(), VsockConfigError>,
    ) -> (r: Result<(), VsockConfigError>)
        requires
            old(self).wf(),
        ensures
            final(self).wf(),
            vsock_set(*old(self), *final(self), config, created, r),
    {
        match created {
            Err(e) => Err(e),
            Ok(_) => {
                self.vsock = Some(config);
                Ok(())
            },
        }
    }

    /// Sets the source of entropy. `created` says whether the device could be created.
    pub fn build_entropy_device(
        &mut self,
        body: EntropyDeviceConfig,
        created: Result<(), EntropyDeviceError>,
    ) -> (r: Result<(), EntropyDeviceError>)
        requires
            old(self).wf(),
        ensures
            final(self).wf(),
            entropy_built(*old(self), *final(self), body, created, r),
    {
        match created {
            Err(e) => Err(e),
            Ok(_) => {
                self.entropy = Some(body);
                Ok(())
            },
        }
    }

    /// Adds a persistent memory device, or replaces the one with the same identifier.
    pub fn build_pmem_device(&mut self, body: PmemConfig) -> (r: Result<(), PmemConfigError>)
        requires
            old(self).wf(),
        ensures
            final(self).wf(),
            pmem_built(*old(self), *final(self), body, r),
    {
        let has_block_root: bool = self.block.has_root_device();
        let ghost before = self.pmem.configs@;
        let ghost (id, is_root) = (body.id@, body.root_device);
        let r = self.pmem.build(body, has_block_root);
        proof {
            if has_block_root {
                let after = self.pmem.configs@;
                if some_root(after) {
                    let k = choose|k: int| 0 <= k < after.len() && (#[trigger] after[k]).root_device;
                    if r is Ok {
                        assert(!is_root);
                        if none_with_id(before, id) {
                            assert(before[k] == after[k]);
                        } else {
                            lemma_first_exists(before, id);
                            let i = choose|i: int| first_with_id(before, id, i);
                            assert(after == before.update(i, body));
                            assert(before[k] == after[k]);
                        }
                    }
                    assert(some_root(before));
                }
            }
        }
        r
    }

    /// Sets the memory that can be plugged.
    pub fn set_memory_hotplug_config(&mut self, config: MemoryHotplugConfig) -> (r: Result<
        (),
        MemoryHotplugConfigError,
    >)
        requires
            old(self).wf(),
        ensures
            final(self).wf(),
            hotplug_set(*old(self), *final(self), config, r),
    {
        match config.validate() {
            Err(e) => Err(e),
            Ok(_) => {
                self.memory_hotplug = Some(config);
                Ok(())
            },
        }
    }

    /// Sets up the metadata service: first the network devices that answer for it, then the store.
    pub fn set_mmds_config(
        &mut self,
        config: &MmdsConfig,
        instance_id: &str,
        created: Result<Mmds, MmdsConfigError>,
    ) -> (r: Result<(), MmdsConfigError>)
        requires
            old(self).wf(),
        ensures
            final(self).wf(),
            mmds_set(*old(self), *final(self), *config, instance_id@, created, r),
    {
        match self.set_mmds_network_stack_config(config, created) {
            Err(e) => {
                return Err(e);
            },
            Ok(_) => {},
        }
        // The store is there by now, so that none is created here.
        self.set_mmds_basic_config(
            config.version,
            config.imds_compat,
            instance_id,
            Err(MmdsConfigError::InitMmdsDatastore),
        )
    }

    /// Sets up the store of the metadata service.
    pub fn set_mmds_basic_config(
        &mut self,
        version: MmdsVersion,
        imds_compat: bool,
        instance_id: &str,
        created: Result<Mmds, MmdsConfigError>,
    ) -> (r: Result<(), MmdsConfigError>)
        requires
            old(self).wf(),
        ensures
            final(self).wf(),
            match store_of(*old(self), created) {
                Err(e) => r is Err && r->Err_0 == e && *final(self) == *old(self),
                Ok(store) => {
                    &&& r is Ok
                    &&& *final(self) == (VmResources { mmds: final(self).mmds, ..*old(self) })
                    &&& final(self).mmds matches Some(mmds)
                    &&& is_set_up(store, mmds, version, imds_compat, instance_id@)
                },
            },
    {
        match self.locked_mmds_or_default(created) {
            Err(e) => Err(e),
            Ok(mmds) => {
                mmds.version = version;
                mmds.imds_compat = imds_compat;
                mmds.aad = String::from_str(instance_id);
                Ok(())
            },
        }
    }

    /// Makes the network devices that are named answer for the metadata service, and no others.
    pub fn set_mmds_network_stack_config(
        &mut self,
        config: &MmdsConfig,
        created: Result<Mmds, MmdsConfigError>,
    ) -> (r: Result<(), MmdsConfigError>)
        requires
            old(self).wf(),
        ensures
            final(self).wf(),
            match mmds_fault(old(self).net_builder.devices@, *config) {
                Some(e) => r is Err && r->Err_0 == e && *final(self) == *old(self),
                None => match store_of(*old(self), created) {
                    Err(e) => r is Err && r->Err_0 == e && *final(self) == *old(self),
                    Ok(store) => {
                        &&& r is Ok
                        &&& *final(self) == (VmResources {
                            net_builder: final(self).net_builder,
                            mmds: Some(store),
                            ..*old(self)
                        })
                        &&& final(self).net_builder.devices@ == answering(
                            old(self).net_builder.devices@,
                            config.network_interfaces@,
                            mmds_address(*config),
                        )
                    },
                },
            },
    {
        let ipv4_addr: u32 = match config.ipv4_address {
            Some(addr) => {
                if !is_link_local_valid(addr) {
                    return Err(MmdsConfigError::InvalidIpv4Addr);
                }
                addr
            },
            None => DEFAULT_IPV4_ADDR,
        };
        if config.network_interfaces.len() == 0 {
            return Err(MmdsConfigError::EmptyNetworkIfaceList);
        }
        let mut i: usize = 0;
        while i < config.network_interfaces.len()
            invariant
                old(self).wf(),
                *self == *old(self),
                i <= config.network_interfaces@.len(),
                config.network_interfaces@.len() > 0,
                config.ipv4_address is Some ==> link_local(config.ipv4_address->Some_0),
                forall|j: int|
                    0 <= j < i ==> net_index(
                        self.net_builder.devices@,
                        (#[trigger] config.network_interfaces@[j])@,
                    ) < self.net_builder.devices@.len(),
            decreases config.network_interfaces@.len() - i,
        {
            if self.net_builder.find(&config.network_interfaces[i]).is_none() {
                assert(net_index(
                    self.net_builder.devices@,
                    config.network_interfaces@[i as int]@,
                ) == self.net_builder.devices@.len());
                return Err(MmdsConfigError::InvalidNetworkInterfaceId);
            }
            i += 1;
        }
        match self.mmds_or_default(created) {
            Err(e) => {
                return Err(e);
            },
            Ok(_) => {},
        }
        let ghost devices = self.net_builder.devices@;
        let ghost store = self.mmds;
        let mut k: usize = 0;
        while k < self.net_builder.devices.len()
            invariant
                old(self).wf(),
                devices == old(self).net_builder.devices@,
                self.net_builder.devices@.len() == devices.len(),
                k <= devices.len(),
                *self == (VmResources {
                    net_builder: self.net_builder,
                    mmds: store,
                    ..*old(self)
                }),
                forall|j: int|
                    0 <= j < k ==> #[trigger] self.net_builder.devices@[j] == answering(
                        devices,
                        config.network_interfaces@,
                        ipv4_addr,
                    )[j],
                forall|j: int|
                    k <= j < devices.len() ==> #[trigger] self.net_builder.devices@[j]
                        == devices[j],
            decreases devices.len() - k,
        {
            let answers: bool = name_listed(
                &config.network_interfaces,
                &self.net_builder.devices[k].config.iface_id,
            );
            self.net_builder.devices[k].mmds_ipv4 = if answers {
                Some(ipv4_addr)
            } else {
                None
            };
            k += 1;
        }
        assert(self.net_builder.devices@ =~= answering(
            devices,
            config.network_interfaces@,
            ipv4_addr,
        ));
        assert(net_ids(self.net_builder.devices@) =~= net_ids(devices));
        Ok(())
    }

    /// Lets a part of a configuration take effect.
    pub fn apply(&mut self, item: ConfigItem, instance_id: &str, answers: HostAnswers) -> (r: Result<
        (),
        ResourcesError,
    >)
        requires
            old(self).wf(),
        ensures
            final(self).wf(),
            item_applied(*old(self), *final(self), item, instance_id@, answers, r),
    {
        match item {
            ConfigItem::Logger(_) => match answers.logger {
                Ok(_) => Ok(()),
                Err(e) => Err(ResourcesError::Logger(e)),
            },
            ConfigItem::Metrics(_) => match answers.metrics {
                Ok(_) => Ok(()),
                Err(e) => Err(ResourcesError::Metrics(e)),
            },
            ConfigItem::MachineConfig(update) => match self.update_machine_config(&update) {
                Ok(_) => Ok(()),
                Err(e) => Err(ResourcesError::MachineConfig(e)),
            },
            ConfigItem::CpuConfig(CustomCpuTemplateOrPath::Template(template)) => {
                self.set_custom_cpu_template(template);
                Ok(())
            },
            ConfigItem::CpuConfig(CustomCpuTemplateOrPath::Path(_)) => match answers.template {
                Ok(template) => {
                    self.set_custom_cpu_template(template);
                    Ok(())
                },
                Err(e) => Err(e),
            },
            ConfigItem::BootSource(config) => match self.build_boot_source(
                config,
                answers.kernel,
            ) {
                Ok(_) => Ok(()),
                Err(e) => Err(ResourcesError::BootSource(e)),
            },
            ConfigItem::Drive(config) => match self.set_block_device(config, answers.drive) {
                Ok(_) => Ok(()),
                Err(e) => Err(ResourcesError::BlockDevice(e)),
            },
            ConfigItem::Net(config) => match self.build_net_device(config, answers.net) {
                Ok(_) => Ok(()),
                Err(e) => Err(ResourcesError::NetDevice(e)),
            },
            ConfigItem::Vsock(config) => match self.set_vsock_device(config, answers.vsock) {
                Ok(_) => Ok(()),
                Err(e) => Err(ResourcesError::VsockDevice(e)),
            },
            ConfigItem::Balloon(config) => match self.set_balloon_device(config) {
                Ok(_) => Ok(()),
                Err(e) => Err(ResourcesError::BalloonDevice(e)),
            },
            ConfigItem::Metadata => {
                match self.locked_mmds_or_default(answers.store) {
                    Ok(_) => {},
                    Err(e) => {
                        return Err(ResourcesError::MmdsConfig(e));
                    },
                }
                match answers.metadata {
                    Ok(_) => Ok(()),
                    Err(e) => Err(ResourcesError::Mmds(e)),
                }
            },
            ConfigItem::Mmds(config) => match self.set_mmds_config(
                &config,
                instance_id,
                answers.store,
            ) {
                Ok(_) => Ok(()),
                Err(e) => Err(ResourcesError::MmdsConfig(e)),
            },
            ConfigItem::Entropy(config) => match self.build_entropy_device(
                config,
                answers.entropy,
            ) {
                Ok(_) => Ok(()),
                Err(e) => Err(ResourcesError::EntropyConfig(e)),
            },
            ConfigItem::Pmem(config) => match self.build_pmem_device(config) {
                Ok(_) => Ok(()),
                Err(e) => Err(ResourcesError::PmemConfig(e)),
            },
            ConfigItem::Serial(config) => {
                self.serial_out_path = config.serial_out_path;
                self.serial_rate_limiter_cfg = config.rate_limiter;
                Ok(())
            },
            ConfigItem::MemoryHotplug(config) => match self.set_memory_hotplug_config(config) {
                Ok(_) => Ok(()),
                Err(e) => Err(ResourcesError::MemoryHotplugConfig(e)),
            },
        }
    }

    /// The resources that a configuration describes. Its parts take effect one after the other, and
    /// the first one that is refused ends it. There is an answer of the host for each part.
    pub fn from_json(
        config: VmmConfig,
        instance_id: &str,
        mmds_size_limit: usize,
        has_metadata: bool,
        answers: Vec<HostAnswers>,
    ) -> (r: Result<VmResources, ResourcesError>)
        requires
            answers@.len() == config_items(config, has_metadata).len(),
        ensures
            exists|states: Seq<VmResources>| #[trigger]
                config_run(
                    states,
                    config_items(config, has_metadata),
                    instance_id@,
                    answers@,
                    mmds_size_limit,
                    r,
                ),
    {
        let ghost given = answers@;
        let ghost items = config_items(config, has_metadata);
        let mut rest = config.into_items(has_metadata);
        let mut left = answers;
        let mut resources = VmResources::new(mmds_size_limit);
        let ghost mut states = seq![resources];
        assert(items.skip(0) =~= items);
        assert(given.skip(0) =~= given);
        while rest.len() > 0
            invariant
                given == answers@,
                items == config_items(config, has_metadata),
                resources.wf(),
                given.len() == items.len(),
                rest@.len() <= items.len(),
                rest@ == items.skip(items.len() - rest@.len()),
                left@ == given.skip(items.len() - rest@.len()),
                states.len() == items.len() - rest@.len() + 1,
                states.last() == resources,
                is_fresh(states[0], mmds_size_limit),
                configured(states, items, instance_id@, given),
            decreases rest@.len(),
        {
            let ghost done = items.len() - rest@.len();
            let ghost before = resources;
            assert(rest@[0] == items[done]);
            assert(left@[0] == given[done]);
            let item = rest.remove(0);
            let answer = left.remove(0);
            match resources.apply(item, instance_id, answer) {
                Ok(_) => {},
                Err(e) => {
                    assert(item_applied(
                        before,
                        resources,
                        items[done],
                        instance_id@,
                        given[done],
                        Err(e),
                    ));
                    assert(config_run(
                        states,
                        items,
                        instance_id@,
                        given,
                        mmds_size_limit,
                        Err(e),
                    ));
                    return Err(e);
                },
            }
            proof {
                let longer = states.push(resources);
                assert forall|i: int| 0 <= i < longer.len() - 1 implies item_applied(
                    longer[i],
                    #[trigger] longer[i + 1],
                    items[i],
                    instance_id@,
                    given[i],
                    Ok(()),
                ) by {
                    if i + 1 < states.len() {
                        assert(longer[i + 1] == states[i + 1]);
                    }
                }
                states = longer;
                assert(rest@ =~= items.skip(done + 1));
                assert(left@ =~= given.skip(done + 1));
            }
        }
        assert(config_run(states, items, instance_id@, given, mmds_size_limit, Ok(resources)));
        Ok(resources)
    }

    /// Plans the mappings for regions of guest memory. Where another process performs the transfers
    /// of a drive, memory is shared with it through a file.
    pub fn allocate_memory_regions(&self, regions: &Vec<(u64, usize)>) -> (r: MemoryPlan)
        requires
            total_size(regions@) <= u64::MAX,
        ensures
            is_plan(*self, regions@, r),
    {
        let mut vhost_user_device_used: bool = false;
        let mut i: usize = 0;
        while i < self.block.devices.len()
            invariant
                i <= self.block.devices@.len(),
                vhost_user_device_used == exists|j: int|
                    0 <= j < i && (#[trigger] self.block.devices@[j]).socket is Some,
            decreases self.block.devices@.len() - i,
        {
            if self.block.devices[i].socket.is_some() {
                vhost_user_device_used = true;
            }
            i += 1;
        }
        let flags: i32 = self.machine_config.huge_pages.mmap_flags();
        if vhost_user_device_used {
            let (size, (requests, error)) = memfd_backed(
                regions,
                self.machine_config.track_dirty_pages,
                flags,
            );
            MemoryPlan { file_size: Some(size), requests, error }
        } else {
            let (requests, error) = anonymous(
                regions,
                self.machine_config.track_dirty_pages,
                flags,
            );
            MemoryPlan { file_size: None, requests, error }
        }
    }

    /// Plans the mappings for the memory of the guest.
    pub fn allocate_guest_memory(&self) -> (r: MemoryPlan)
        requires
            self.wf(),
            self.machine_config.mem_size_mib * 0x10_0000 <= usize::MAX,
            self.machine_config.mem_size_mib * 0x10_0000 <= 0xffff_ff00_0000_0000,
        ensures
            is_plan(*self, ram_regions(self.machine_config.mem_size_mib * 0x10_0000), r),
    {
        let regions = arch_memory_regions(self.machine_config.mem_size_mib * 0x10_0000);
        self.allocate_memory_regions(&regions)
    }

    /// Plans the mapping for a single region of memory.
    pub fn allocate_memory_region(&self, start: u64, size: usize) -> (r: MemoryPlan)
        ensures
            is_plan(*self, seq![(start, size)], r),
    {
        let regions: Vec<(u64, usize)> = vec![(start, size)];
        proof {
            assert(regions@ =~= seq![(start, size)]);
            assert(regions@.skip(1).len() == 0);
            reveal_with_fuel(total_size, 2);
        }
        self.allocate_memory_regions(&regions)
    }

    /// The configuration of the microVM as a whole.
    pub fn config(&self) -> (r: VmmConfig)
        ensures
            match self.balloon.inner {
                None => r.balloon is None,
                Some(balloon) => r.balloon == Some(balloon.described()),
            },
            r.drives@ == self.block.devices@,
            r.boot_source == self.boot_source.config,
            r.cpu_config is None,
            r.logger is None,
            r.metrics is None,
            r.network_interfaces@ == Seq::new(
                self.net_builder.devices@.len(),
                |i: int| self.net_builder.devices@[i].config,
            ),
            r.vsock == self.vsock,
            r.entropy == self.entropy,
            r.pmem_devices@ == self.pmem.configs@,
            r.serial_config is None,
            r.memory_hotplug == self.memory_hotplug,
            self.mmds is None || answering_ids(self.net_builder.devices@).len() == 0
                ==> r.mmds_config is None,
            self.mmds is Some && answering_ids(self.net_builder.devices@).len() > 0 ==> {
                &&& r.mmds_config matches Some(config)
                &&& config.version == self.mmds->Some_0.version
                &&& config.imds_compat == self.mmds->Some_0.imds_compat
                &&& texts_of(config.network_interfaces@) == answering_ids(self.net_builder.devices@)
                &&& config.ipv4_address == answering_address(self.net_builder.devices@)
            },
            r.machine_config matches Some(machine) && machine.vcpu_count == Some(
                self.machine_config.vcpu_count,
            ) && machine.mem_size_mib == Some(self.machine_config.mem_size_mib) && machine.smt
                == Some(self.machine_config.smt) && machine.track_dirty_pages == Some(
                self.machine_config.track_dirty_pages,
            ) && machine.huge_pages == Some(self.machine_config.huge_pages)
                && machine.cpu_template == (match self.machine_config.cpu_template {
                Some(CpuTemplateType::Static(name)) => Some(name),
                _ => None,
            }),
    {
        let balloon: Option<BalloonConfig> = match self.balloon.get_config() {
            Ok(config) => Some(config),
            Err(_) => None,
        };
        let mut drives: Vec<BlockDeviceConfig> = Vec::new();
        let mut i: usize = 0;
        while i < self.block.devices.len()
            invariant
                i <= self.block.devices@.len(),
                drives@ == self.block.devices@.take(i as int),
            decreases self.block.devices@.len() - i,
        {
            drives.push(self.block.devices[i].copied());
            assert(drives@ =~= self.block.devices@.take(i + 1));
            i += 1;
        }
        assert(drives@ =~= self.block.devices@);
        let mut network_interfaces: Vec<NetworkInterfaceConfig> = Vec::new();
        let mut j: usize = 0;
        while j < self.net_builder.devices.len()
            invariant
                j <= self.net_builder.devices@.len(),
                network_interfaces@.len() == j,
                forall|k: int|
                    0 <= k < j ==> #[trigger] network_interfaces@[k]
                        == self.net_builder.devices@[k].config,
            decreases self.net_builder.devices@.len() - j,
        {
            network_interfaces.push(self.net_builder.devices[j].config.copied());
            j += 1;
        }
        assert(network_interfaces@ =~= Seq::new(
            self.net_builder.devices@.len(),
            |i: int| self.net_builder.devices@[i].config,
        ));
        let mut pmem_devices: Vec<PmemConfig> = Vec::new();
        let mut k: usize = 0;
        while k < self.pmem.configs.len()
            invariant
                k <= self.pmem.configs@.len(),
                pmem_devices@ == self.pmem.configs@.take(k as int),
            decreases self.pmem.configs@.len() - k,
        {
            pmem_devices.push(self.pmem.configs[k].copied());
            assert(pmem_devices@ =~= self.pmem.configs@.take(k + 1));
            k += 1;
        }
        assert(pmem_devices@ =~= self.pmem.configs@);
        let machine = MachineConfigUpdate {
            vcpu_count: Some(self.machine_config.vcpu_count),
            mem_size_mib: Some(self.machine_config.mem_size_mib),
            smt: Some(self.machine_config.smt),
            cpu_template: match &self.machine_config.cpu_template {
                Some(CpuTemplateType::Static(name)) => Some(*name),
                _ => None,
            },
            track_dirty_pages: Some(self.machine_config.track_dirty_pages),
            huge_pages: Some(self.machine_config.huge_pages),
        };
        VmmConfig {
            balloon,
            drives,
            boot_source: self.boot_source.config.copied(),
            cpu_config: None,
            logger: None,
            machine_config: Some(machine),
            metrics: None,
            mmds_config: self.mmds_config(),
            network_interfaces,
            vsock: match &self.vsock {
                Some(config) => Some(config.copied()),
                None => None,
            },
            entropy: self.entropy,
            pmem_devices,
            serial_config: None,
            memory_hotplug: self.memory_hotplug,
        }
    }
}

/// Whether a name is among others.
fn name_listed(names: &Vec<String>, name: &String) -> (r: bool)
    ensures
        r == named(names@, name@),
{
    let mut i: usize = 0;
    while i < names.len()
        invariant
            i <= names@.len(),
            forall|j: int| 0 <= j < i ==> (#[trigger] names@[j])@ != name@,
        decreases names@.len() - i,
    {
        if names[i] == *name {
            assert(names@[i as int]@ == name@);
            return true;
        }
        i += 1;
    }
    false
}

/// An identifier that some device has is found first somewhere.
proof fn lemma_first_exists(configs: Seq<PmemConfig>, id: Seq<char>)
    requires
        !none_with_id(configs, id),
    ensures
        exists|i: int| first_with_id(configs, id, i),
    decreases configs.len(),
{
    if none_with_id(configs.drop_last(), id) {
        let n = configs.len() - 1;
        assert forall|j: int| 0 <= j < n implies (#[trigger] configs[j]).id@ != id by {
            assert(configs.drop_last()[j] == configs[j]);
        }
        assert(first_with_id(configs, id, n));
    } else {
        lemma_first_exists(configs.drop_last(), id);
        let i = choose|i: int| first_with_id(configs.drop_last(), id, i);
        assert forall|j: int| 0 <= j < i implies (#[trigger] configs[j]).id@ != id by {
            assert(configs.drop_last()[j] == configs[j]);
        }
        assert(first_with_id(configs, id, i));
    }
}

/// Devices that answer after a set up are those that are named, in the order of the devices, each
/// under the address of the service.
proof fn lemma_answering(devices: Seq<NetEntry>, names: Seq<String>, addr: u32)
    ensures
        answering_ids(answering(devices, names, addr)) == net_ids(devices).filter(
            |id: Seq<char>| named(names, id),
        ),
        answering_address(answering(devices, names, addr)) == (if answering_ids(
            answering(devices, names, addr),
        ).len() == 0 {
            None
        } else {
            Some(addr)
        }),
    decreases devices.len(),
{
    reveal(Seq::filter);
    let now = answering(devices, names, addr);
    if devices.len() > 0 {
        lemma_answering(devices.drop_last(), names, addr);
        assert(now.drop_last() =~= answering(devices.drop_last(), names, addr));
        assert(net_ids(devices).drop_last() =~= net_ids(devices.drop_last()));
    } else {
        assert(answering_ids(now) =~= net_ids(devices));
    }
}

/// What is picked out of different things is different.
proof fn lemma_picked_differ(ids: Seq<Seq<char>>, pick: spec_fn(Seq<char>) -> bool)
    requires
        ids.no_duplicates(),
    ensures
        ids.filter(pick).no_duplicates(),
        forall|id: Seq<char>| #[trigger]
            ids.filter(pick).contains(id) <==> ids.contains(id) && pick(id),
    decreases ids.len(),
{
    reveal(Seq::filter);
    let picked = ids.filter(pick);
    if ids.len() > 0 {
        let rest = ids.drop_last();
        let before = rest.filter(pick);
        lemma_picked_differ(rest, pick);
        assert(!rest.contains(ids.last()));
        assert(!before.contains(ids.last()));
        if pick(ids.last()) {
            assert(picked == before.push(ids.last()));
            assert forall|i: int, j: int| 0 <= i < picked.len() && 0 <= j < picked.len() && i
                != j implies picked[i] != picked[j] by {
                if i < before.len() {
                    assert(before.contains(picked[i]));
                }
                if j < before.len() {
                    assert(before.contains(picked[j]));
                }
            }
        }
        assert forall|id: Seq<char>| #[trigger] picked.contains(id) <==> ids.contains(id) && pick(
            id,
        ) by {
            assert(ids =~= rest.push(ids.last()));
            assert(ids.contains(id) <==> rest.contains(id) || id == ids.last()) by {
                if rest.contains(id) {
                    assert(ids[rest.index_of(id)] == id);
                }
                assert(ids[ids.len() - 1] == ids.last());
                if ids.contains(id) && id != ids.last() {
                    assert(rest[ids.index_of(id)] == id);
                }
            }
            assert(before.contains(id) <==> rest.contains(id) && pick(id));
            if pick(ids.last()) {
                if before.contains(id) {
                    assert(picked[before.index_of(id)] == id);
                }
                assert(picked[picked.len() - 1] == ids.last());
                if picked.contains(id) && id != ids.last() {
                    assert(before[picked.index_of(id)] == id);
                }
            }
        }
    }
}

/// Once the metadata service was set up, its configuration is described as it was given: the
/// version, the flag and the address, and the devices that were named, each once and in the order
/// of the network devices.
pub proof fn law_metadata_config_comes_back(
    before: VmResources,
    after: VmResources,
    config: MmdsConfig,
    instance_id: Seq<char>,
    created: Result<Mmds, MmdsConfigError>,
    described: Option<MmdsConfig>,
)
    requires
        before.wf(),
        mmds_set(before, after, config, instance_id, created, Ok(())),
        mmds_described(after, described),
    ensures
        described matches Some(c) && {
            &&& c.version == config.version
            &&& c.imds_compat == config.imds_compat
            &&& c.ipv4_address == Some(mmds_address(config))
            &&& texts_of(c.network_interfaces@) == net_ids(before.net_builder.devices@).filter(
                |id: Seq<char>| named(config.network_interfaces@, id),
            )
            &&& texts_of(c.network_interfaces@).no_duplicates()
            &&& forall|id: Seq<char>| #[trigger]
                texts_of(c.network_interfaces@).contains(id) <==> named(
                    config.network_interfaces@,
                    id,
                )
        },
{
    let devices = before.net_builder.devices@;
    let names = config.network_interfaces@;
    let ids = net_ids(devices);
    let picked = ids.filter(|id: Seq<char>| named(names, id));
    lemma_answering(devices, names, mmds_address(config));
    lemma_picked_differ(ids, |id: Seq<char>| named(names, id));
    assert forall|id: Seq<char>| named(names, id) implies #[trigger] ids.contains(id) by {
        let i = choose|i: int| 0 <= i < names.len() && (#[trigger] names[i])@ == id;
        lemma_net_index(devices, names[i]@);
        assert(ids[net_index(devices, id)] == id);
    }
    assert(named(names, names[0]@));
    assert(picked.contains(names[0]@));
}


/// However the resources are changed, the balloon fits into the memory.
pub proof fn law_balloon_fits(resources: VmResources)
    requires
        resources.wf(),
        resources.balloon.inner is Some,
    ensures
        resources.balloon.inner->Some_0.described().amount_mib
            <= resources.machine_config.mem_size_mib,
{
}

/// However the resources are changed, there is at most one root device.
pub proof fn law_one_root_device(resources: VmResources, i: int, j: int)
    requires
        resources.wf(),
        0 <= i < resources.block.devices@.len(),
        resources.block.devices@[i].is_root_device,
    ensures
        i == 0,
        0 <= j < resources.pmem.configs@.len() ==> !resources.pmem.configs@[j].root_device,
{
    if 0 <= j < resources.pmem.configs@.len() && resources.pmem.configs@[j].root_device {
        assert(some_root(resources.pmem.configs@));
    }
}

} // verus!
