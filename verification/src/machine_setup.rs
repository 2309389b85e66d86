//! What becomes of the parts of a configuration.

use vstd::prelude::*;

use crate::cpu_config::templates::CpuTemplateType;
use crate::resources::{
    config_items, config_run, configured, each, is_fresh, is_plan, item_applied, machine_updated,
    mmds_fault, mmds_set, optional, shares_memory, ConfigItem, CustomCpuTemplateOrPath, HostAnswers,
    MemoryPlan, ResourcesError, VmResources, VmmConfig,
};
use crate::vmm_config::drive::law_drives_are_added_in_place;
use crate::vmm_config::machine_config::{HugePageConfig, MachineConfigError, MachineConfigUpdate};
use crate::vmm_config::mmds::{Mmds, MmdsConfig, MmdsConfigError};
use crate::vmm_config::net::{lemma_net_index, net_index, NetEntry};
use crate::vstate::memory_map::law_every_region_is_mapped;

verus! {

/// Whether an item is one of a list.
pub open spec fn asks_for(items: Seq<ConfigItem>, item: ConfigItem) -> bool {
    exists|i: int| 0 <= i < items.len() && #[trigger] items[i] == item
}

/// Whether an item is a part of a configuration.
pub open spec fn is_part(config: VmmConfig, has_metadata: bool, item: ConfigItem) -> bool {
    match item {
        ConfigItem::Logger(x) => config.logger == Some(x),
        ConfigItem::Metrics(x) => config.metrics == Some(x),
        ConfigItem::MachineConfig(x) => config.machine_config == Some(x),
        ConfigItem::CpuConfig(x) => config.cpu_config == Some(x),
        ConfigItem::BootSource(x) => config.boot_source == x,
        ConfigItem::Drive(x) => config.drives@.contains(x),
        ConfigItem::Net(x) => config.network_interfaces@.contains(x),
        ConfigItem::Vsock(x) => config.vsock == Some(x),
        ConfigItem::Balloon(x) => config.balloon == Some(x),
        ConfigItem::Metadata => has_metadata,
        ConfigItem::Mmds(x) => config.mmds_config == Some(x),
        ConfigItem::Entropy(x) => config.entropy == Some(x),
        ConfigItem::Pmem(x) => config.pmem_devices@.contains(x),
        ConfigItem::Serial(x) => config.serial_config == Some(x),
        ConfigItem::MemoryHotplug(x) => config.memory_hotplug == Some(x),
    }
}

/// When an item is applied: memory is known before the balloon, network interfaces before the
/// metadata service that uses them, and drives before persistent memory.
pub open spec fn rank(item: ConfigItem) -> int {
    match item {
        ConfigItem::Logger(_) => 0,
        ConfigItem::Metrics(_) => 1,
        ConfigItem::MachineConfig(_) => 2,
        ConfigItem::CpuConfig(_) => 3,
        ConfigItem::BootSource(_) => 4,
        ConfigItem::Drive(_) => 5,
        ConfigItem::Net(_) => 6,
        ConfigItem::Vsock(_) => 7,
        ConfigItem::Balloon(_) => 8,
        ConfigItem::Metadata => 9,
        ConfigItem::Mmds(_) => 10,
        ConfigItem::Entropy(_) => 11,
        ConfigItem::Pmem(_) => 12,
        ConfigItem::Serial(_) => 13,
        ConfigItem::MemoryHotplug(_) => 14,
    }
}

/// Whether items are in order, up to a rank.
spec fn ordered(items: Seq<ConfigItem>, top: int) -> bool {
    &&& forall|i: int| 0 <= i < items.len() ==> rank(#[trigger] items[i]) <= top
    &&& forall|i: int, j: int|
        0 <= i <= j < items.len() ==> rank(#[trigger] items[i]) <= rank(#[trigger] items[j])
}

proof fn lemma_next_part(a: Seq<ConfigItem>, b: Seq<ConfigItem>, top: int, item: ConfigItem)
    requires
        ordered(a, top - 1),
        forall|i: int| 0 <= i < b.len() ==> rank(#[trigger] b[i]) == top,
    ensures
        ordered(a + b, top),
        asks_for(a + b, item) <==> asks_for(a, item) || asks_for(b, item),
{
    let s = a + b;
    if asks_for(s, item) {
        let i = choose|i: int| 0 <= i < s.len() && #[trigger] s[i] == item;
        if i < a.len() {
            assert(a[i] == item);
        } else {
            assert(b[i - a.len()] == item);
        }
    }
    if asks_for(a, item) {
        let i = choose|i: int| 0 <= i < a.len() && #[trigger] a[i] == item;
        assert(s[i] == item);
    }
    if asks_for(b, item) {
        let i = choose|i: int| 0 <= i < b.len() && #[trigger] b[i] == item;
        assert(s[a.len() + i] == item);
    }
    assert forall|i: int| 0 <= i < s.len() implies rank(#[trigger] s[i]) <= top by {
        if i < a.len() {
            assert(s[i] == a[i]);
        } else {
            assert(s[i] == b[i - a.len()]);
        }
    }
    assert forall|i: int, j: int| 0 <= i <= j < s.len() implies rank(#[trigger] s[i]) <= rank(
        #[trigger] s[j],
    ) by {
        if i < a.len() {
            assert(s[i] == a[i]);
        } else {
            assert(s[i] == b[i - a.len()]);
        }
        if j < a.len() {
            assert(s[j] == a[j]);
        } else {
            assert(s[j] == b[j - a.len()]);
        }
    }
}

proof fn lemma_optional<T>(part: Option<T>, make: spec_fn(T) -> ConfigItem, item: ConfigItem)
    ensures
        asks_for(optional(part, make), item) <==> part is Some && item == make(part->0),
{
    if part is Some {
        assert(optional(part, make)[0] == make(part->0));
    }
}

proof fn lemma_each<T>(parts: Seq<T>, make: spec_fn(T) -> ConfigItem, item: ConfigItem)
    ensures
        asks_for(each(parts, make), item) <==> exists|i: int|
            0 <= i < parts.len() && item == make(#[trigger] parts[i]),
{
    let all = each(parts, make);
    if asks_for(all, item) {
        let i = choose|i: int| 0 <= i < all.len() && #[trigger] all[i] == item;
        assert(item == make(parts[i]));
    }
    if exists|i: int| 0 <= i < parts.len() && item == make(#[trigger] parts[i]) {
        let i = choose|i: int| 0 <= i < parts.len() && item == make(#[trigger] parts[i]);
        assert(all[i] == item);
    }
}

/// Nothing of a configuration is left out, and nothing is made up: the items that are applied are
/// exactly its parts, in a fixed order.
pub proof fn law_all_parts_are_applied_in_order(
    config: VmmConfig,
    has_metadata: bool,
    item: ConfigItem,
    i: int,
    j: int,
)
    ensures
        asks_for(config_items(config, has_metadata), item) <==> is_part(config, has_metadata, item),
        0 <= i <= j < config_items(config, has_metadata).len() ==> rank(
            config_items(config, has_metadata)[i],
        ) <= rank(config_items(config, has_metadata)[j]),
{
    let p0 = optional(config.logger, |l| ConfigItem::Logger(l));
    let p1 = optional(config.metrics, |m| ConfigItem::Metrics(m));
    let p2 = optional(config.machine_config, |m| ConfigItem::MachineConfig(m));
    let p3 = optional(config.cpu_config, |c| ConfigItem::CpuConfig(c));
    let p4 = seq![ConfigItem::BootSource(config.boot_source)];
    let p5 = each(config.drives@, |d| ConfigItem::Drive(d));
    let p6 = each(config.network_interfaces@, |n| ConfigItem::Net(n));
    let p7 = optional(config.vsock, |v| ConfigItem::Vsock(v));
    let p8 = optional(config.balloon, |b| ConfigItem::Balloon(b));
    let p9 = if has_metadata {
        seq![ConfigItem::Metadata]
    } else {
        seq![]
    };
    let p10 = optional(config.mmds_config, |m| ConfigItem::Mmds(m));
    let p11 = optional(config.entropy, |e| ConfigItem::Entropy(e));
    let p12 = each(config.pmem_devices@, |p| ConfigItem::Pmem(p));
    let p13 = optional(config.serial_config, |s| ConfigItem::Serial(s));
    let p14 = optional(config.memory_hotplug, |h| ConfigItem::MemoryHotplug(h));
    let s1 = p0 + p1;
    let s2 = s1 + p2;
    let s3 = s2 + p3;
    let s4 = s3 + p4;
    let s5 = s4 + p5;
    let s6 = s5 + p6;
    let s7 = s6 + p7;
    let s8 = s7 + p8;
    let s9 = s8 + p9;
    let s10 = s9 + p10;
    let s11 = s10 + p11;
    let s12 = s11 + p12;
    let s13 = s12 + p13;
    let s14 = s13 + p14;
    assert(ordered(p0, 0));
    lemma_next_part(p0, p1, 1, item);
    lemma_next_part(s1, p2, 2, item);
    lemma_next_part(s2, p3, 3, item);
    lemma_next_part(s3, p4, 4, item);
    lemma_next_part(s4, p5, 5, item);
    lemma_next_part(s5, p6, 6, item);
    lemma_next_part(s6, p7, 7, item);
    lemma_next_part(s7, p8, 8, item);
    lemma_next_part(s8, p9, 9, item);
    lemma_next_part(s9, p10, 10, item);
    lemma_next_part(s10, p11, 11, item);
    lemma_next_part(s11, p12, 12, item);
    lemma_next_part(s12, p13, 13, item);
    lemma_next_part(s13, p14, 14, item);
    assert(config_items(config, has_metadata) == s14);
    lemma_optional(config.logger, |l| ConfigItem::Logger(l), item);
    lemma_optional(config.metrics, |m| ConfigItem::Metrics(m), item);
    lemma_optional(config.machine_config, |m| ConfigItem::MachineConfig(m), item);
    lemma_optional(config.cpu_config, |c| ConfigItem::CpuConfig(c), item);
    lemma_each(config.drives@, |d| ConfigItem::Drive(d), item);
    lemma_each(config.network_interfaces@, |n| ConfigItem::Net(n), item);
    lemma_optional(config.vsock, |v| ConfigItem::Vsock(v), item);
    lemma_optional(config.balloon, |b| ConfigItem::Balloon(b), item);
    lemma_optional(config.mmds_config, |m| ConfigItem::Mmds(m), item);
    lemma_optional(config.entropy, |e| ConfigItem::Entropy(e), item);
    lemma_each(config.pmem_devices@, |p| ConfigItem::Pmem(p), item);
    lemma_optional(config.serial_config, |s| ConfigItem::Serial(s), item);
    lemma_optional(config.memory_hotplug, |h| ConfigItem::MemoryHotplug(h), item);
    assert(asks_for(p4, item) <==> item == ConfigItem::BootSource(config.boot_source)) by {
        assert(p4[0] == ConfigItem::BootSource(config.boot_source));
    }
    assert(asks_for(p9, item) <==> has_metadata && item == ConfigItem::Metadata) by {
        if has_metadata {
            assert(p9[0] == ConfigItem::Metadata);
        }
    }
    match item {
        ConfigItem::Drive(x) => {
            if config.drives@.contains(x) {
                let k = choose|k: int| 0 <= k < config.drives@.len() && config.drives@[k] == x;
                assert(item == ConfigItem::Drive(config.drives@[k]));
            }
        },
        ConfigItem::Net(x) => {
            if config.network_interfaces@.contains(x) {
                let k = choose|k: int|
                    0 <= k < config.network_interfaces@.len() && config.network_interfaces@[k] == x;
                assert(item == ConfigItem::Net(config.network_interfaces@[k]));
            }
        },
        ConfigItem::Pmem(x) => {
            if config.pmem_devices@.contains(x) {
                let k = choose|k: int|
                    0 <= k < config.pmem_devices@.len() && config.pmem_devices@[k] == x;
                assert(item == ConfigItem::Pmem(config.pmem_devices@[k]));
            }
        },
        _ => {},
    }
}

/// A part of a configuration that was applied is there afterwards.
pub proof fn law_applied_parts_are_there(
    before: VmResources,
    after: VmResources,
    item: ConfigItem,
    instance_id: Seq<char>,
    answers: HostAnswers,
)
    requires
        before.wf(),
        item_applied(before, after, item, instance_id, answers, Ok(())),
    ensures
        item matches ConfigItem::BootSource(config) ==> after.boot_source.config == config
            && after.boot_source.has_builder,
        item matches ConfigItem::Drive(config) ==> after.block.devices@.contains(config),
        item matches ConfigItem::Net(config) ==> after.net_builder.devices@.last().config == config
            && after.net_builder.devices@.len() > 0,
        item matches ConfigItem::Vsock(config) ==> after.vsock == Some(config),
        item matches ConfigItem::Entropy(config) ==> after.entropy == Some(config),
        item matches ConfigItem::Pmem(config) ==> after.pmem.configs@.contains(config),
        item matches ConfigItem::MemoryHotplug(config) ==> after.memory_hotplug == Some(config),
        item matches ConfigItem::Serial(config) ==> after.serial_out_path == config.serial_out_path
            && after.serial_rate_limiter_cfg == config.rate_limiter,
        item matches ConfigItem::Balloon(config) ==> after.balloon.inner is Some
            && after.balloon.inner->0.config_space.num_pages * 4096 == config.amount_mib * 1024
            * 1024 && config.amount_mib <= before.machine_config.mem_size_mib,
        item matches ConfigItem::CpuConfig(CustomCpuTemplateOrPath::Template(template))
            ==> after.machine_config.cpu_template == Some(CpuTemplateType::Custom(template)),
        item is Metadata ==> after.mmds is Some,
        item is Mmds ==> after.mmds is Some,
{
    match item {
        ConfigItem::Drive(config) => law_drives_are_added_in_place(
            before.block.devices@,
            config,
            -1,
        ),
        ConfigItem::Pmem(config) => {
            let configs = before.pmem.configs@;
            if exists|i: int|
                crate::vmm_config::pmem::first_with_id(configs, config.id@, i) {
                let i = choose|i: int|
                    crate::vmm_config::pmem::first_with_id(configs, config.id@, i);
                assert(after.pmem.configs@[i] == config);
            } else {
                lemma_first_or_none(configs, config.id@, configs.len() as int);
                assert(after.pmem.configs@[configs.len() as int] == config);
            }
        },
        _ => {},
    }
}

proof fn lemma_first_or_none(
    configs: Seq<crate::vmm_config::pmem::PmemConfig>,
    id: Seq<char>,
    n: int,
)
    requires
        0 <= n <= configs.len(),
        forall|i: int| !crate::vmm_config::pmem::first_with_id(configs, id, i),
    ensures
        forall|j: int| 0 <= j < n ==> (#[trigger] configs[j]).id@ != id,
    decreases n,
{
    if n > 0 {
        lemma_first_or_none(configs, id, n - 1);
        assert(!crate::vmm_config::pmem::first_with_id(configs, id, n - 1));
    }
}

/// A part of a configuration changes nothing but what it is about.
pub proof fn law_other_parts_stay(
    before: VmResources,
    after: VmResources,
    item: ConfigItem,
    instance_id: Seq<char>,
    answers: HostAnswers,
    r: Result<(), ResourcesError>,
)
    requires
        item_applied(before, after, item, instance_id, answers, r),
    ensures
        !(item is MachineConfig || item is CpuConfig) ==> after.machine_config
            == before.machine_config,
        !(item is BootSource) ==> after.boot_source == before.boot_source,
        !(item is Drive) ==> after.block == before.block,
        !(item is Net || item is Mmds) ==> after.net_builder == before.net_builder,
        !(item is Vsock) ==> after.vsock == before.vsock,
        !(item is Balloon) ==> after.balloon == before.balloon,
        !(item is Entropy) ==> after.entropy == before.entropy,
        !(item is Pmem) ==> after.pmem == before.pmem,
        !(item is MemoryHotplug) ==> after.memory_hotplug == before.memory_hotplug,
        !(item is Metadata || item is Mmds) ==> after.mmds == before.mmds,
        !(item is Serial) ==> after.serial_out_path == before.serial_out_path,
        after.mmds_size_limit == before.mmds_size_limit,
        after.boot_timer == before.boot_timer,
        after.pci_enabled == before.pci_enabled,
{
}

/// Memory is never made smaller than the balloon, and a balloon never larger than memory. Either is
/// refused, and nothing changes.
pub proof fn law_balloon_and_memory_fit(
    before: VmResources,
    after: VmResources,
    update: MachineConfigUpdate,
    r: Result<(), MachineConfigError>,
)
    requires
        before.wf(),
        machine_updated(before, after, update, r),
    ensures
        r is Err ==> after == before,
        r is Ok ==> (after.balloon.inner matches Some(b) ==> b.config_space.num_pages as int / 256
            <= after.machine_config.mem_size_mib),
        r is Ok ==> 1 <= after.machine_config.vcpu_count <= 32 && after.machine_config.mem_size_mib
            > 0,
        before.balloon.inner is None ==> r != Err::<(), MachineConfigError>(
            MachineConfigError::IncompatibleBalloonSize,
        ),
{
}

/// Whether the metadata service can be set up: it is given an address in its range or none, and at
/// least one interface, all of which are there.
pub proof fn law_which_metadata_service_can_be(devices: Seq<NetEntry>, config: MmdsConfig)
    ensures
        ({
            let names = config.network_interfaces@;
            let address = config.ipv4_address matches Some(a) ==> 0xa9fe_0100 <= a <= 0xa9fe_feff;
            let known = forall|i: int|
                0 <= i < names.len() ==> exists|j: int|
                    0 <= j < devices.len() && (#[trigger] devices[j]).config.iface_id@ == (
                    #[trigger] names[i])@;
            &&& mmds_fault(devices, config) is None <==> address && names.len() > 0 && known
            &&& mmds_fault(devices, config) == Some(MmdsConfigError::InvalidIpv4Addr) <==> !address
            &&& mmds_fault(devices, config) == Some(MmdsConfigError::EmptyNetworkIfaceList)
                <==> address && names.len() == 0
        }),
{
    let names = config.network_interfaces@;
    assert forall|i: int| 0 <= i < names.len() implies (net_index(devices, (#[trigger] names[i])@)
        < devices.len() <==> exists|j: int|
        0 <= j < devices.len() && (#[trigger] devices[j]).config.iface_id@ == names[i]@) by {
        lemma_net_index(devices, names[i]@);
        if net_index(devices, names[i]@) < devices.len() {
            assert(devices[net_index(devices, names[i]@)].config.iface_id@ == names[i]@);
        }
    }
    if crate::resources::all_known(devices, names) {
        assert forall|i: int| 0 <= i < names.len() implies exists|j: int|
            0 <= j < devices.len() && (#[trigger] devices[j]).config.iface_id@ == (
            #[trigger] names[i])@ by {
            assert(net_index(devices, names[i]@) < devices.len());
        }
    }
}

/// Once the metadata service is set up, exactly the interfaces that are named answer for it: at the
/// address that is given, else at 169.254.169.254.
pub proof fn law_named_interfaces_answer(
    before: VmResources,
    after: VmResources,
    config: MmdsConfig,
    instance_id: Seq<char>,
    created: Result<Mmds, MmdsConfigError>,
    i: int,
)
    requires
        mmds_set(before, after, config, instance_id, created, Ok(())),
        0 <= i < before.net_builder.devices@.len(),
    ensures
        ({
            let device = after.net_builder.devices@[i];
            let named = exists|k: int|
                0 <= k < config.network_interfaces@.len() && (
                #[trigger] config.network_interfaces@[k])@ == device.config.iface_id@;
            &&& after.net_builder.devices@.len() == before.net_builder.devices@.len()
            &&& device.config == before.net_builder.devices@[i].config
            &&& !named ==> device.mmds_ipv4 is None
            &&& named ==> device.mmds_ipv4 == Some(
                match config.ipv4_address {
                    Some(a) => a,
                    None => 0xa9fe_a9feu32,
                },
            )
        }),
        after.mmds is Some,
        after.mmds->0.version == config.version,
        after.mmds->0.imds_compat == config.imds_compat,
        after.mmds->0.aad@ == instance_id,
{
}

/// All of guest memory is mapped. It is shared through a file exactly when another process serves a
/// drive, in pages of the size that is asked for.
pub proof fn law_memory_is_shared_with_other_processes(
    resources: VmResources,
    regions: Seq<(u64, usize)>,
    plan: MemoryPlan,
    i: int,
)
    requires
        is_plan(resources, regions, plan),
        0 <= i < plan.requests@.len(),
    ensures
        i < regions.len(),
        ({
            let shared = exists|k: int|
                0 <= k < resources.block.devices@.len() && (
                #[trigger] resources.block.devices@[k]).socket is Some;
            let huge = resources.machine_config.huge_pages == HugePageConfig::Hugetlbfs2M;
            let request = plan.requests@[i];
            &&& plan.file_size is Some <==> shared
            &&& request.file_offset is Some <==> shared
            &&& request.start == regions[i].0
            &&& request.size == regions[i].1
            &&& request.track_dirty_pages == resources.machine_config.track_dirty_pages
            &&& request.flags == (if shared && huge {
                0x5404_4001i32
            } else if shared {
                0x4001
            } else if huge {
                0x5404_4022
            } else {
                0x4022
            })
        }),
{
    let flags = plan.requests@[i].flags;
    assert(0x4000i32 | (1i32 | 0i32) == 0x4001 && 0x4000i32 | (1i32 | 0x5404_0000i32)
        == 0x5404_4001 && 0x4000i32 | (2i32 | 0x20i32 | 0i32) == 0x4022 && 0x4000i32 | (2i32
        | 0x20i32 | 0x5404_0000i32) == 0x5404_4022) by (bit_vector);
    let huge = crate::vmm_config::machine_config::huge_page_flags(
        resources.machine_config.huge_pages,
    );
    let track = resources.machine_config.track_dirty_pages;
    if shares_memory(resources.block.devices@) {
        law_every_region_is_mapped(regions, 0x4000i32 | (1i32 | huge), true, track, 0, i);
    } else {
        law_every_region_is_mapped(
            regions,
            0x4000i32 | (2i32 | 0x20i32 | huge),
            false,
            track,
            0,
            i,
        );
    }
}

/// A machine that nothing is said of has one vCPU and 128 MiB of memory, and no devices.
pub proof fn law_fresh_machine(r: VmResources, limit: usize)
    requires
        is_fresh(r, limit),
    ensures
        r.machine_config.vcpu_count == 1,
        r.machine_config.mem_size_mib == 128,
        !r.machine_config.smt,
        !r.machine_config.track_dirty_pages,
        r.machine_config.cpu_template is None,
        r.block.devices@.len() == 0,
        r.net_builder.devices@.len() == 0,
        r.pmem.configs@.len() == 0,
        r.vsock is None,
        r.balloon.inner is None,
        r.entropy is None,
        r.memory_hotplug is None,
        r.mmds is None,
        r.mmds_size_limit == limit,
{
}

proof fn lemma_parts_last(
    states: Seq<VmResources>,
    items: Seq<ConfigItem>,
    instance_id: Seq<char>,
    answers: Seq<HostAnswers>,
    from: int,
    to: int,
)
    requires
        configured(states, items, instance_id, answers),
        0 <= from <= to < states.len(),
    ensures
        (forall|j: int| from <= j < to ==> !(#[trigger] items[j] is Vsock)) ==> states[to].vsock
            == states[from].vsock,
        (forall|j: int| from <= j < to ==> !(#[trigger] items[j] is Entropy)) ==> states[to].entropy
            == states[from].entropy,
        (forall|j: int| from <= j < to ==> !(#[trigger] items[j] is BootSource))
            ==> states[to].boot_source == states[from].boot_source,
        (forall|j: int| from <= j < to ==> !(#[trigger] items[j] is Serial))
            ==> states[to].serial_out_path == states[from].serial_out_path,
        (forall|j: int| from <= j < to ==> !(#[trigger] items[j] is MemoryHotplug))
            ==> states[to].memory_hotplug == states[from].memory_hotplug,
        states[to].mmds_size_limit == states[from].mmds_size_limit,
    decreases to,
{
    if from < to {
        lemma_parts_last(states, items, instance_id, answers, from, to - 1);
        assert(item_applied(
            states[to - 1],
            states[(to - 1) + 1],
            items[to - 1],
            instance_id,
            answers[to - 1],
            Ok(()),
        ));
        law_other_parts_stay(
            states[to - 1],
            states[to],
            items[to - 1],
            instance_id,
            answers[to - 1],
            Ok(()),
        );
    }
}

/// A machine that is configured from a file has what the file asks for: the last part that speaks of
/// something decides on it, and what no part speaks of is not there.
pub proof fn law_configured_machine_is_as_asked(
    states: Seq<VmResources>,
    items: Seq<ConfigItem>,
    instance_id: Seq<char>,
    answers: Seq<HostAnswers>,
    mmds_size_limit: usize,
    machine: VmResources,
    i: int,
)
    requires
        config_run(states, items, instance_id, answers, mmds_size_limit, Ok(machine)),
        0 <= i < items.len(),
    ensures
        items[i] is Vsock && (forall|j: int| i < j < items.len() ==> !(#[trigger] items[j] is Vsock))
            ==> machine.vsock == Some(items[i]->Vsock_0),
        items[i] is Entropy && (forall|j: int|
            i < j < items.len() ==> !(#[trigger] items[j] is Entropy)) ==> machine.entropy == Some(
            items[i]->Entropy_0,
        ),
        items[i] is BootSource && (forall|j: int|
            i < j < items.len() ==> !(#[trigger] items[j] is BootSource))
            ==> machine.boot_source.config == items[i]->BootSource_0
            && machine.boot_source.has_builder,
        items[i] is Serial && (forall|j: int|
            i < j < items.len() ==> !(#[trigger] items[j] is Serial)) ==> machine.serial_out_path
            == items[i]->Serial_0.serial_out_path,
        (forall|j: int| 0 <= j < items.len() ==> !(#[trigger] items[j] is Vsock)) ==> machine.vsock
            is None,
        (forall|j: int| 0 <= j < items.len() ==> !(#[trigger] items[j] is Entropy))
            ==> machine.entropy is None,
        (forall|j: int| 0 <= j < items.len() ==> !(#[trigger] items[j] is MemoryHotplug))
            ==> machine.memory_hotplug is None,
        machine.mmds_size_limit == mmds_size_limit,
{
    let n = items.len() as int;
    lemma_parts_last(states, items, instance_id, answers, 0, n);
    lemma_parts_last(states, items, instance_id, answers, i + 1, n);
    assert(item_applied(
        states[i],
        states[i + 1],
        items[i],
        instance_id,
        answers[i],
        Ok(()),
    ));
}

/// Where a part is refused, all parts before it took effect and none behind it did.
pub proof fn law_refused_part_ends_the_setup(
    states: Seq<VmResources>,
    items: Seq<ConfigItem>,
    instance_id: Seq<char>,
    answers: Seq<HostAnswers>,
    mmds_size_limit: usize,
    e: ResourcesError,
)
    requires
        config_run(states, items, instance_id, answers, mmds_size_limit, Err(e)),
    ensures
        0 < states.len() <= items.len(),
        exists|after: VmResources| #[trigger]
            item_applied(
                states.last(),
                after,
                items[states.len() - 1],
                instance_id,
                answers[states.len() - 1],
                Err(e),
            ),
{
}

} // verus!
