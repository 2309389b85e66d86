use linux_loader::cmdline::Cmdline;
use vmm::builder::{
    begin_from_snapshot, boot_entries, boot_inputs, build_microvm_for_boot,
    build_microvm_from_snapshot, continue_from_snapshot, restore_inputs, BootInputs, BootState,
    BootStep, BuildMicrovmFromSnapshotError, DeviceIds, RestoreStep, RootArg,
    StartMicrovmError,
};
use vmm::devices::virtio::balloon::device::BalloonConfig;
use vmm::devices::virtio::balloon::queues::BalloonError;
use vmm::devices::virtio::device::VirtioDeviceType;
use vmm::devices::virtio::net::device::MacAddr;
use vmm::mmds::requests::{MmdsDatastoreError, MmdsVersion};
use vmm::resources::{
    ConfigItem, CustomCpuTemplateOrPath, HostAnswers, ResourcesError, VmResources, VmmConfig,
};
use vmm::vmm_config::balloon::BalloonConfigError;
use vmm::vmm_config::boot_source::{
    append_root_device_cmdline, cmdline_text, BootSourceConfig, BootSourceConfigError,
    CmdlineError,
};
use vmm::vmm_config::drive::{BlockDeviceConfig, CacheType, DriveError};
use vmm::vmm_config::entropy::{EntropyDeviceConfig, EntropyDeviceError};
use vmm::vmm_config::instance_info::{InstanceInfo, VmState};
use vmm::vmm_config::logger::LoggerConfig;
use vmm::vmm_config::machine_config::{
    HugePageConfig, MachineConfigError, MachineConfigUpdate,
};
use vmm::vmm_config::memory_hotplug::{
    default_block_size_mib, default_slot_size_mib, MemoryHotplugConfig, MemoryHotplugConfigError,
};
use vmm::vmm_config::metrics::{MetricsConfig, MetricsConfigError};
use vmm::vmm_config::mmds::{is_link_local_valid, Mmds, MmdsConfig, MmdsConfigError};
use vmm::vmm_config::net::{NetworkInterfaceConfig, NetworkInterfaceError};
use vmm::vmm_config::pmem::{PmemConfig, PmemConfigError};
use vmm::vmm_config::rate_limit::{
    build_limiter, describe_limiter, RateLimiterConfig, TokenBucketConfig,
};
use vmm::vmm_config::serial::SerialConfig;
use vmm::vmm_config::vsock::{VsockConfigError, VsockDeviceConfig};
use vmm::vstate::resources::ResourceAllocator;

fn text(s: &str) -> String {
    String::from(s)
}

fn update(mem: Option<usize>, vcpus: Option<u8>) -> MachineConfigUpdate {
    MachineConfigUpdate {
        vcpu_count: vcpus,
        mem_size_mib: mem,
        smt: None,
        cpu_template: None,
        track_dirty_pages: None,
        huge_pages: None,
    }
}

fn balloon(amount_mib: u32) -> BalloonConfig {
    BalloonConfig {
        amount_mib,
        deflate_on_oom: false,
        stats_polling_interval_s: 0,
        free_page_hinting: false,
        free_page_reporting: false,
    }
}

fn drive(id: &str, root: bool) -> BlockDeviceConfig {
    BlockDeviceConfig {
        drive_id: text(id),
        partuuid: None,
        is_root_device: root,
        cache_type: CacheType::Unsafe,
        is_read_only: Some(false),
        path_on_host: Some(text("/d")),
        rate_limiter: None,
        file_engine_type: None,
        socket: None,
    }
}

fn pmem(id: &str, root: bool) -> PmemConfig {
    PmemConfig {
        id: text(id),
        path_on_host: text("/p"),
        root_device: root,
        read_only: true,
        rate_limiter: None,
    }
}

fn net(id: &str, last: u8) -> NetworkInterfaceConfig {
    NetworkInterfaceConfig {
        iface_id: text(id),
        host_dev_name: text("tap"),
        guest_mac: Some(MacAddr { b0: 2, b1: 0, b2: 0, b3: 0, b4: 0, b5: last }),
        mtu: None,
        rx_rate_limiter: None,
        tx_rate_limiter: None,
    }
}

fn mmds_made(limit: usize) -> Result<Mmds, MmdsConfigError> {
    Ok(Mmds { version: MmdsVersion::V1, imds_compat: false, aad: text(""), data_store_limit: limit })
}

#[test]
fn a_machine_has_defaults() {
    let r = VmResources::new(100);
    assert_eq!(r.machine_config.vcpu_count, 1);
    assert_eq!(r.machine_config.mem_size_mib, 128);
    assert!(!r.machine_config.smt);
    assert_eq!(r.mmds_size_limit, 100);
    assert!(r.mmds_config().is_none());
}

#[test]
fn the_machine_is_updated_as_a_whole_or_not_at_all() {
    let mut r = VmResources::new(100);
    assert_eq!(r.update_machine_config(&update(Some(256), Some(4))), Ok(()));
    assert_eq!(r.machine_config.vcpu_count, 4);
    assert_eq!(r.machine_config.mem_size_mib, 256);
    assert_eq!(
        r.update_machine_config(&update(Some(512), Some(33))),
        Err(MachineConfigError::InvalidVcpuCount)
    );
    assert_eq!(
        r.update_machine_config(&update(Some(0), None)),
        Err(MachineConfigError::InvalidMemorySize)
    );
    assert_eq!(r.machine_config.mem_size_mib, 256);
    let huge = MachineConfigUpdate {
        huge_pages: Some(HugePageConfig::Hugetlbfs2M),
        ..update(Some(3), None)
    };
    assert_eq!(r.update_machine_config(&huge), Err(MachineConfigError::InvalidMemorySize));
}

#[test]
fn a_balloon_fits_into_memory() {
    let mut r = VmResources::new(100);
    assert_eq!(
        r.set_balloon_device(balloon(129)),
        Err(BalloonConfigError::TooManyPagesRequested)
    );
    assert_eq!(r.set_balloon_device(balloon(128)), Ok(()));
    assert_eq!(
        r.update_machine_config(&update(Some(64), None)),
        Err(MachineConfigError::IncompatibleBalloonSize)
    );
    assert_eq!(r.machine_config.mem_size_mib, 128);
    assert_eq!(r.balloon.get_config().unwrap().amount_mib, 128);
    let none = VmResources::new(0);
    assert!(matches!(none.balloon.get_config(), Err(BalloonConfigError::DeviceNotFound)));
    assert_ne!(
        BalloonConfigError::CreateFailure(BalloonError::DeviceNotActive),
        BalloonConfigError::DeviceNotFound
    );
}

#[test]
fn there_is_one_root_device() {
    let mut r = VmResources::new(100);
    assert_eq!(r.set_block_device(drive("a", true), Ok(())), Ok(()));
    assert_eq!(
        r.set_block_device(drive("b", true), Ok(())),
        Err(DriveError::RootBlockDeviceAlreadyAdded)
    );
    assert_eq!(
        r.build_pmem_device(pmem("p", true)),
        Err(PmemConfigError::AddingSecondRootDevice)
    );
    assert_eq!(r.set_block_device(drive("a", true), Ok(())), Ok(()));
    assert_eq!(
        r.set_block_device(drive("c", false), Err(DriveError::CreateBlockDevice)),
        Err(DriveError::CreateBlockDevice)
    );
    assert_eq!(r.block.devices.len(), 1);
    let mut r = VmResources::new(100);
    assert_eq!(r.build_pmem_device(pmem("p", true)), Ok(()));
    assert_eq!(
        r.build_pmem_device(pmem("q", true)),
        Err(PmemConfigError::RootPmemDeviceAlreadyExist)
    );
    assert_eq!(
        r.set_block_device(drive("a", true), Ok(())),
        Err(DriveError::RootBlockDeviceAlreadyAdded)
    );
    assert_eq!(r.build_pmem_device(pmem("q", false)), Ok(()));
    assert_eq!(r.pmem.configs.len(), 2);
}

#[test]
fn the_root_drive_comes_first() {
    let mut r = VmResources::new(100);
    r.set_block_device(drive("a", false), Ok(())).unwrap();
    r.set_block_device(drive("b", true), Ok(())).unwrap();
    assert_eq!(r.block.devices[0].drive_id, "b");
    assert!(r.block.has_root_device());
}

#[test]
fn guest_addresses_are_used_once() {
    let mut r = VmResources::new(100);
    assert_eq!(r.build_net_device(net("a", 1), Ok(())), Ok(()));
    assert!(matches!(
        r.build_net_device(net("b", 1), Ok(())),
        Err(NetworkInterfaceError::GuestMacAddressInUse(_))
    ));
    assert_eq!(r.build_net_device(net("b", 2), Ok(())), Ok(()));
    assert_eq!(r.net_builder.find(&text("b")), Some(1));
    assert_eq!(
        r.build_net_device(net("c", 3), Err(NetworkInterfaceError::CreateNetworkDevice)),
        Err(NetworkInterfaceError::CreateNetworkDevice)
    );
    assert_eq!(r.net_builder.find(&text("c")), None);
}

#[test]
fn a_kernel_must_open() {
    let mut r = VmResources::new(100);
    let cfg = || BootSourceConfig {
        kernel_image_path: text("/k"),
        initrd_path: None,
        boot_args: Some(text("quiet")),
    };
    assert_eq!(
        r.build_boot_source(cfg(), Err(BootSourceConfigError::InvalidKernelPath)),
        Err(BootSourceConfigError::InvalidKernelPath)
    );
    assert!(!r.boot_source.has_builder);
    assert_eq!(r.build_boot_source(cfg(), Ok(())), Ok(()));
    assert!(r.boot_source.has_builder);
    assert_eq!(r.boot_source.config.kernel_image_path, "/k");
}

#[test]
fn a_socket_device_must_be_created() {
    let mut r = VmResources::new(100);
    let cfg = || VsockDeviceConfig { vsock_id: None, guest_cid: 3, uds_path: text("/v") };
    assert_eq!(
        r.set_vsock_device(cfg(), Err(VsockConfigError::CreateVsockDevice)),
        Err(VsockConfigError::CreateVsockDevice)
    );
    assert!(r.vsock.is_none());
    assert_eq!(r.set_vsock_device(cfg(), Ok(())), Ok(()));
    assert_eq!(r.vsock.as_ref().unwrap().guest_cid, 3);
    let entropy = EntropyDeviceConfig { rate_limiter: None };
    assert_eq!(
        r.build_entropy_device(entropy, Err(EntropyDeviceError::CreateDevice)),
        Err(EntropyDeviceError::CreateDevice)
    );
    assert!(r.entropy.is_none());
    assert_eq!(r.build_entropy_device(entropy, Ok(())), Ok(()));
    assert!(r.entropy.is_some());
}

#[test]
fn metadata_needs_an_interface() {
    let mut r = VmResources::new(100);
    r.build_net_device(net("a", 1), Ok(())).unwrap();
    let cfg = |ids: Vec<String>, ip: Option<u32>| MmdsConfig {
        version: MmdsVersion::V2,
        network_interfaces: ids,
        ipv4_address: ip,
        imds_compat: true,
    };
    assert_eq!(
        r.set_mmds_config(&cfg(vec![], None), "id", mmds_made(100)),
        Err(MmdsConfigError::EmptyNetworkIfaceList)
    );
    assert_eq!(
        r.set_mmds_config(&cfg(vec![text("z")], None), "id", mmds_made(100)),
        Err(MmdsConfigError::InvalidNetworkInterfaceId)
    );
    assert_eq!(
        r.set_mmds_config(&cfg(vec![text("a")], Some(0x0a00_0001)), "id", mmds_made(100)),
        Err(MmdsConfigError::InvalidIpv4Addr)
    );
    assert_eq!(
        r.set_mmds_config(&cfg(vec![text("a")], None), "id", mmds_made(100)),
        Ok(())
    );
    let c = r.mmds_config().unwrap();
    assert_eq!(c.ipv4_address, Some(0xa9fe_a9fe));
    assert_eq!(c.network_interfaces, vec![text("a")]);
    assert!(c.imds_compat);
    // A store that is there needs no other one.
    r.build_net_device(net("b", 2), Ok(())).unwrap();
    r.build_net_device(net("c", 3), Ok(())).unwrap();
    assert_eq!(
        r.set_mmds_config(
            &cfg(vec![text("c"), text("a")], Some(0xa9fe_0102)),
            "other",
            Err(MmdsConfigError::InitMmdsDatastore)
        ),
        Ok(())
    );
    let c = r.mmds_config().unwrap();
    assert_eq!(c.version, MmdsVersion::V2);
    assert_eq!(c.ipv4_address, Some(0xa9fe_0102));
    assert_eq!(c.network_interfaces, vec![text("a"), text("c")]);
    assert_eq!(
        r.mmds_or_default(Err(MmdsConfigError::InitMmdsDatastore)).unwrap().data_store_limit,
        100
    );
    let mut fresh = VmResources::new(100);
    fresh.build_net_device(net("a", 1), Ok(())).unwrap();
    assert_eq!(
        fresh.set_mmds_config(
            &cfg(vec![text("a")], None),
            "id",
            Err(MmdsConfigError::InitMmdsDatastore)
        ),
        Err(MmdsConfigError::InitMmdsDatastore)
    );
    assert!(is_link_local_valid(0xa9fe_0100));
    assert!(!is_link_local_valid(0xa9fe_00ff));
    assert!(is_link_local_valid(0xa9fe_feff));
    assert!(!is_link_local_valid(0xa9fe_ff00));
}

#[test]
fn pluggable_memory_has_aligned_sizes() {
    let c = |total: usize, block: usize, slot: usize| MemoryHotplugConfig {
        total_size_mib: total,
        block_size_mib: block,
        slot_size_mib: slot,
    };
    assert_eq!(default_block_size_mib(), 2);
    assert_eq!(default_slot_size_mib(), 128);
    assert_eq!(c(256, 2, 128).validate(), Ok(()));
    assert_eq!(c(256, 1, 128).validate(), Err(MemoryHotplugConfigError::BlockSizeTooSmall(2)));
    assert_eq!(c(256, 3, 129).validate(), Err(MemoryHotplugConfigError::BlockSizeNotPowerOfTwo));
    assert_eq!(c(256, 2, 64).validate(), Err(MemoryHotplugConfigError::SlotSizeTooSmall(128)));
    assert_eq!(
        c(256, 4, 130).validate(),
        Err(MemoryHotplugConfigError::SlotSizeNotMultipleOfBlockSize(4))
    );
    assert_eq!(c(127, 2, 128).validate(), Err(MemoryHotplugConfigError::TotalSizeTooSmall(128)));
    assert_eq!(
        c(200, 2, 128).validate(),
        Err(MemoryHotplugConfigError::TotalSizeNotMultipleOfSlotSize(128))
    );
    let mut r = VmResources::new(100);
    assert!(r.set_memory_hotplug_config(c(200, 2, 128)).is_err());
    assert!(r.memory_hotplug.is_none());
    assert_eq!(r.set_memory_hotplug_config(c(256, 2, 128)), Ok(()));
    assert!(r.memory_hotplug.is_some());
}

fn whole() -> VmmConfig {
    VmmConfig {
        balloon: Some(balloon(1)),
        drives: vec![drive("a", true), drive("b", false)],
        boot_source: BootSourceConfig {
            kernel_image_path: text("/k"),
            initrd_path: None,
            boot_args: None,
        },
        cpu_config: None,
        logger: None,
        machine_config: Some(update(Some(1), None)),
        metrics: None,
        mmds_config: None,
        network_interfaces: vec![net("n", 1)],
        vsock: None,
        entropy: None,
        pmem_devices: vec![pmem("p", false)],
        serial_config: Some(SerialConfig {
            serial_out_path: Some(text("/serial")),
            rate_limiter: Some(TokenBucketConfig {
                size: 5,
                one_time_burst: Some(2),
                refill_time: 100,
            }),
        }),
        memory_hotplug: None,
    }
}

fn fine() -> HostAnswers {
    HostAnswers {
        logger: Ok(()),
        metrics: Ok(()),
        template: Err(ResourcesError::File(2)),
        kernel: Ok(()),
        drive: Ok(()),
        net: Ok(()),
        vsock: Ok(()),
        entropy: Ok(()),
        store: mmds_made(7),
        metadata: Ok(()),
    }
}

#[test]
fn the_logger_and_the_metrics_come_first() {
    let mut config = whole();
    config.logger = Some(LoggerConfig {
        log_path: Some(text("/log")),
        level: None,
        show_level: None,
        show_log_origin: None,
        module: None,
    });
    config.metrics = Some(MetricsConfig { metrics_path: text("/metrics") });
    let items = config.into_items(false);
    assert!(matches!(&items[0], ConfigItem::Logger(c) if c.log_path.as_deref() == Some("/log")));
    assert!(matches!(&items[1], ConfigItem::Metrics(c) if c.metrics_path == "/metrics"));
    assert!(matches!(items[2], ConfigItem::MachineConfig(_)));
    let mut r = VmResources::new(7);
    for (i, item) in items.into_iter().take(2).enumerate() {
        let mut answers = fine();
        answers.logger = Err(13);
        answers.metrics = Err(MetricsConfigError::InitializationFailure);
        let e = r.apply(item, "id", answers).unwrap_err();
        let want = [
            ResourcesError::Logger(13),
            ResourcesError::Metrics(MetricsConfigError::InitializationFailure),
        ];
        assert_eq!(e, want[i]);
    }
}

#[test]
fn a_configuration_is_read_item_by_item() {
    let items = whole().into_items(true);
    assert!(matches!(items[0], ConfigItem::MachineConfig(_)));
    assert!(matches!(items[1], ConfigItem::BootSource(_)));
    assert!(matches!(&items[2], ConfigItem::Drive(d) if d.drive_id == "a"));
    assert!(matches!(&items[3], ConfigItem::Drive(d) if d.drive_id == "b"));
    assert!(matches!(items[4], ConfigItem::Net(_)));
    assert!(matches!(items[5], ConfigItem::Balloon(_)));
    assert!(matches!(items[6], ConfigItem::Metadata));
    assert!(matches!(items[7], ConfigItem::Pmem(_)));
    assert!(matches!(items[8], ConfigItem::Serial(_)));
    assert_eq!(items.len(), 9);
}

#[test]
fn a_configuration_becomes_resources() {
    let answers: Vec<HostAnswers> = (0..9).map(|_| fine()).collect();
    let r = VmResources::from_json(whole(), "id", 100, true, answers).unwrap();
    assert_eq!(r.machine_config.mem_size_mib, 1);
    assert_eq!(r.block.devices.len(), 2);
    assert_eq!(r.net_builder.devices.len(), 1);
    assert_eq!(r.balloon.get_config().unwrap().amount_mib, 1);
    assert_eq!(r.mmds.as_ref().unwrap().data_store_limit, 7);
    assert_eq!(r.pmem.configs.len(), 1);
    assert_eq!(r.serial_out_path.as_deref(), Some("/serial"));
    let bucket = r.serial_rate_limiter().unwrap();
    assert_eq!((bucket.size, bucket.one_time_burst, bucket.refill_time), (5, 2, 100));
    assert_eq!(r.mmds_size_limit, 100);
}

#[test]
fn the_first_fault_of_a_configuration_is_reported() {
    let mut answers: Vec<HostAnswers> = (0..9).map(|_| fine()).collect();
    answers[3].drive = Err(DriveError::CreateBlockDevice);
    answers[4].net = Err(NetworkInterfaceError::CreateNetworkDevice);
    assert!(matches!(
        VmResources::from_json(whole(), "id", 100, true, answers),
        Err(ResourcesError::BlockDevice(DriveError::CreateBlockDevice))
    ));
    let mut r = VmResources::new(100);
    let mut full = fine();
    full.metadata = Err(MmdsDatastoreError::DataStoreLimitExceeded);
    assert!(matches!(
        r.apply(ConfigItem::Metadata, "id", full),
        Err(ResourcesError::Mmds(MmdsDatastoreError::DataStoreLimitExceeded))
    ));
    assert!(matches!(
        r.apply(ConfigItem::CpuConfig(CustomCpuTemplateOrPath::Path(text("/t"))), "id", fine()),
        Err(ResourcesError::File(2))
    ));
    assert!(matches!(
        r.apply(ConfigItem::Balloon(balloon(500)), "id", fine()),
        Err(ResourcesError::BalloonDevice(BalloonConfigError::TooManyPagesRequested))
    ));
}

#[test]
fn resources_describe_themselves() {
    let mut r = VmResources::new(100);
    r.set_block_device(drive("a", false), Ok(())).unwrap();
    r.build_net_device(net("n", 4), Ok(())).unwrap();
    r.set_balloon_device(balloon(2)).unwrap();
    let c = r.config();
    assert_eq!(c.drives.len(), 1);
    assert_eq!(c.network_interfaces[0].iface_id, "n");
    assert_eq!(c.balloon.unwrap().amount_mib, 2);
    assert_eq!(c.machine_config.unwrap().mem_size_mib, Some(128));
}

#[test]
fn guest_memory_is_planned() {
    let mut r = VmResources::new(100);
    let plan = r.allocate_guest_memory();
    assert_eq!(plan.error, None);
    assert_eq!(plan.requests.len(), 1);
    assert_eq!(plan.requests[0].size, 128 << 20);
    assert_eq!(plan.file_size, None);
    r.update_machine_config(&MachineConfigUpdate {
        track_dirty_pages: Some(true),
        ..update(None, None)
    })
    .unwrap();
    assert!(r.allocate_memory_region(0x1000, 0x1000).requests[0].track_dirty_pages);
}

#[test]
fn limiters_are_built_from_their_configuration() {
    let none = build_limiter(None);
    assert!(none.ops.is_none() && none.bandwidth.is_none());
    let c = RateLimiterConfig {
        bandwidth: Some(TokenBucketConfig { size: 10, one_time_burst: None, refill_time: 5 }),
        ops: Some(TokenBucketConfig { size: 0, one_time_burst: None, refill_time: 5 }),
    };
    let l = build_limiter(Some(c));
    assert_eq!(l.bandwidth.unwrap().budget, 10);
    assert!(l.ops.is_none());
    let d = describe_limiter(&l).unwrap();
    assert_eq!(d.bandwidth.unwrap().size, 10);
    assert!(d.ops.is_none());
    assert!(describe_limiter(&none).is_none());
}

fn ids() -> DeviceIds {
    DeviceIds {
        balloon: text("balloon"),
        vsock: text("vsock"),
        entropy: text("rng"),
        mem: text("mem"),
    }
}

fn instance() -> InstanceInfo {
    InstanceInfo { id: text("vm1"), state: VmState::NotStarted }
}

fn bootable() -> VmResources {
    let mut r = VmResources::new(100);
    r.update_machine_config(&update(None, Some(2))).unwrap();
    let source = BootSourceConfig {
        kernel_image_path: text("/k"),
        initrd_path: None,
        boot_args: None,
    };
    r.build_boot_source(source, Ok(())).unwrap();
    r.set_balloon_device(balloon(1)).unwrap();
    r.set_block_device(drive("root", true), Ok(())).unwrap();
    r.build_net_device(net("eth0", 1), Ok(())).unwrap();
    r.boot_timer = true;
    r
}

fn boot() -> BootInputs {
    boot_inputs(&bootable(), &ids(), &vec![], true)
}

#[test]
fn devices_are_attached_in_order() {
    let kinds: Vec<VirtioDeviceType> =
        boot_entries(&boot()).iter().map(|e| e.device_type).collect();
    assert_eq!(
        kinds,
        vec![VirtioDeviceType::Balloon, VirtioDeviceType::Block, VirtioDeviceType::Net]
    );
}

#[test]
fn a_machine_boots_step_by_step() {
    let mut r = bootable();
    let plan =
        build_microvm_for_boot(&instance(), &r, &ids(), &vec![], "quiet", true).unwrap();
    assert!(plan.steps.contains(&BootStep::PciOff));
    assert!(plan.steps.contains(&BootStep::AttachBootTimer));
    assert!(plan.steps.contains(&BootStep::CreateVcpus(2)));
    assert_eq!(plan.steps.last(), Some(&BootStep::Subscribe));
    assert_eq!(plan.cmdline, "quiet");
    assert_eq!(plan.devices.len(), 3);
    let vmm = plan.vmm.unwrap();
    assert_eq!(vmm.instance_info.id, "vm1");
    assert_eq!(vmm.instance_info.state, VmState::Paused);
    assert_eq!(vmm.machine_config.vcpu_count, 2);
    assert_eq!(vmm.boot_source_config.kernel_image_path, "/k");
    let plan =
        build_microvm_for_boot(&instance(), &r, &ids(), &vec![], "quiet", false).unwrap();
    assert!(plan.steps.contains(&BootStep::FailMissingFilter));
    assert!(!plan.steps.contains(&BootStep::Subscribe));
    assert!(plan.vmm.is_none());
    r.boot_source.has_builder = false;
    assert!(matches!(
        build_microvm_for_boot(&instance(), &r, &ids(), &vec![], "quiet", true),
        Err(StartMicrovmError::MissingKernelConfig)
    ));
}

#[test]
fn the_default_command_line_stands_in_for_a_missing_one() {
    assert_eq!(cmdline_text(&None, "quiet"), "quiet");
    assert_eq!(cmdline_text(&Some(text("debug")), "quiet"), "debug");
    assert_eq!(cmdline_text(&Some(text("")), "quiet"), "");
}

#[test]
fn the_kernel_is_told_of_the_root() {
    let cmdline = Cmdline::new(4096).unwrap();
    let mut s = BootState::new(ResourceAllocator::new(), &cmdline, false);
    s.pci_off().unwrap();
    s.name_root(&RootArg::Block { partuuid: None, read_only: true }).unwrap();
    for e in boot_entries(&boot()) {
        s.attach(&e).unwrap();
    }
    let line = s.cmdline.as_cstring().unwrap();
    let line = line.to_str().unwrap();
    assert!(line.starts_with("pci=off root=/dev/vda ro"));
    assert!(line.contains("virtio_mmio.device=4K@0xc0001000:5"));
    assert_eq!(s.mmio.virtio_devices.len(), 3);
    let mut t = BootState::new(ResourceAllocator::new(), &cmdline, true);
    t.name_root(&RootArg::Pmem { index: 1, read_only: false }).unwrap();
    let line = t.cmdline.as_cstring().unwrap();
    assert_eq!(line.to_str().unwrap(), "root=/dev/pmem1 rw");
    t.attach_boot_timer();
    assert!(t.mmio.boot_timer.is_some());
}

#[test]
fn a_partition_is_named_by_its_identifier() {
    let mut c = Cmdline::new(4096).unwrap();
    assert_eq!(append_root_device_cmdline(&mut c, Some("0eaa91a0-01"), false), Ok(()));
    let line = c.as_cstring().unwrap();
    assert_eq!(line.to_str().unwrap(), "root=PARTUUID=0eaa91a0-01 rw");
    let mut small = Cmdline::new(8).unwrap();
    assert_eq!(
        append_root_device_cmdline(&mut small, None, false),
        Err(CmdlineError::TooLarge)
    );
    let mut c = Cmdline::new(4096).unwrap();
    assert!(append_root_device_cmdline(&mut c, Some("a\nb"), false).is_err());
}

#[test]
fn a_snapshot_is_resumed_step_by_step() {
    let mut r = bootable();
    let inputs = restore_inputs(&r, vec![Some(100), Some(100)], true, true);
    let steps = begin_from_snapshot(&inputs);
    assert_eq!(steps.last(), Some(&RestoreStep::CheckTscScaling(100)));
    let rest = continue_from_snapshot(&inputs, true);
    assert!(rest.contains(&RestoreStep::SetTsc(0, 100)));
    assert!(rest.contains(&RestoreStep::SetTsc(1, 100)));
    assert!(rest.contains(&RestoreStep::RestoreVmState(true)));
    let scaled = steps.len() + rest.len();
    let rest = continue_from_snapshot(&inputs, false);
    assert!(!rest.iter().any(|s| matches!(s, RestoreStep::SetTsc(..))));
    let saved = |path: &str| BootSourceConfig {
        kernel_image_path: text(path),
        initrd_path: Some(text("/i")),
        boot_args: None,
    };
    // The machine could not be created: nothing is taken over.
    assert!(matches!(
        build_microvm_from_snapshot(&instance(), &mut r, saved("/saved"), &inputs, true, 1),
        Err(BuildMicrovmFromSnapshotError::CreateMicrovmAndVcpus)
    ));
    assert_eq!(r.boot_source.config.kernel_image_path, "/k");
    // The devices could not be restored, which comes after the boot source.
    let n = scaled - 4;
    assert!(matches!(
        build_microvm_from_snapshot(&instance(), &mut r, saved("/saved"), &inputs, true, n),
        Err(BuildMicrovmFromSnapshotError::RestoreDevices)
    ));
    assert_eq!(r.boot_source.config.kernel_image_path, "/saved");
    let vmm =
        build_microvm_from_snapshot(&instance(), &mut r, saved("/other"), &inputs, true, scaled)
            .unwrap();
    assert_eq!(r.boot_source.config.kernel_image_path, "/other");
    assert!(r.boot_source.has_builder);
    assert_eq!(vmm.boot_source_config.kernel_image_path, "/other");
    assert_eq!(vmm.instance_info.state, VmState::Paused);
    assert_eq!(vmm.instance_info.id, "vm1");
    assert_eq!(vmm.machine_config.vcpu_count, r.machine_config.vcpu_count);
    let unfiltered = restore_inputs(&r, vec![None], false, false);
    assert!(matches!(
        build_microvm_from_snapshot(&instance(), &mut r, saved("/x"), &unfiltered, false, 100),
        Err(BuildMicrovmFromSnapshotError::MissingVcpuSeccompFilters)
    ));
}
