use std::collections::BTreeMap;

use vmm::cpu_config::templates::{
    get_cpu_template, CpuModel, CpuTemplateSource, CpuTemplateType, GetCpuTemplateError,
    RegisterValueFilter, StaticCpuTemplate, TemplateSupport, VendorId,
};
use vmm::cpu_config::x86_64::configuration::{
    cpuid_key, CpuConfiguration, CpuConfigurationError, CpuidEntry,
};
use vmm::cpu_config::x86_64::custom_cpu_template::{
    CpuidLeafModifier, CpuidRegister, CpuidRegisterModifier, CustomCpuTemplate, RegisterModifier,
};
use vmm::devices::virtio::block::request::{PendingRequest, RequestType};
use vmm::io_uring::{
    check_features, check_operations, setup, CQueueError, Cqe, IoUring, IoUringError, OpCode,
    Operation, RawCqe, SQueueError, SetupStep,
};
use vmm::snapshot_editor::info::{
    info_vmstate_command, InfoVmStateError, InfoVmStateSubCommand, MsrEntry, SnapshotInfo,
    UtilsError, VcpuInfo,
};
use vmm::template::verify::{verify_common, ModifierKey, VerifyError};

fn text(s: &str) -> String {
    String::from(s)
}

fn request(desc_idx: u16) -> PendingRequest {
    PendingRequest { request_type: RequestType::In, data_len: 512, status_addr: 9, desc_idx }
}

fn operation(fd: u32, desc_idx: u16) -> Operation {
    Operation {
        opcode: OpCode::Read,
        fd,
        addr: 0x1000,
        len: 512,
        offset: 1024,
        user_data: request(desc_idx),
    }
}

#[test]
fn a_ring_needs_features_and_operations() {
    assert!(check_features(2).is_ok());
    assert!(matches!(check_features(1), Err(IoUringError::UnsupportedFeature)));
    assert!(check_operations(&vec![(22, 1), (23, 1)]).is_ok());
    assert!(matches!(
        check_operations(&vec![(22, 1), (23, 0)]),
        Err(IoUringError::UnsupportedOperation(OpCode::Write))
    ));
    assert!(matches!(
        check_operations(&vec![(23, 1)]),
        Err(IoUringError::UnsupportedOperation(OpCode::Read))
    ));
    assert_eq!(setup(true, 1, 1).last(), Some(&SetupStep::Enable));
    assert!(!setup(false, 1, 1).contains(&SetupStep::RegisterEventfd));
}

#[test]
fn files_are_registered_before_use() {
    let mut ring = IoUring::new(4, 8);
    assert!(matches!(
        ring.push(operation(0, 1), Ok(())),
        Err((IoUringError::NoRegisteredFds, r)) if r.desc_idx == 1
    ));
    assert!(matches!(
        ring.check_files(0x8001),
        Err(IoUringError::RegisterFileLimitExceeded)
    ));
    assert!(ring.check_files(0x8000).is_ok());
    ring.register_files(1);
    assert!(matches!(
        ring.push(operation(1, 1), Ok(())),
        Err((IoUringError::InvalidFixedFd(1), _))
    ));
    assert!(ring.push(operation(0, 1), Ok(())).is_ok());
}

#[test]
fn completions_find_their_request() {
    let mut ring = IoUring::new(4, 2);
    ring.register_files(1);
    let a = ring.push(operation(0, 1), Ok(())).unwrap();
    let b = ring.push(operation(0, 2), Ok(())).unwrap();
    assert_ne!(a.user_data, b.user_data);
    assert_eq!((a.opcode, a.offset, a.len), (22, 1024, 512));
    assert_eq!(ring.num_ops(), 2);
    assert!(matches!(
        ring.push(operation(0, 3), Ok(())),
        Err((IoUringError::FullCQueue, r)) if r.desc_idx == 3
    ));
    let done = ring.pop(Some(RawCqe { user_data: b.user_data, res: 512 })).unwrap().unwrap();
    assert_eq!(done.user_data.desc_idx, 2);
    assert_eq!(done.result(), Ok(512));
    assert_eq!(ring.num_ops(), 1);
    assert!(matches!(
        ring.pop(Some(RawCqe { user_data: b.user_data, res: 0 })),
        Err(IoUringError::CQueue(CQueueError::UnknownOperation(_)))
    ));
    assert!(matches!(ring.pop(None), Ok(None)));
    let done = ring.pop(Some(RawCqe { user_data: a.user_data, res: 0 })).unwrap().unwrap();
    assert_eq!(done.user_data.desc_idx, 1);
    assert_eq!(ring.num_ops(), 0);
}

#[test]
fn an_entry_is_accounted_for_once_it_is_submitted() {
    let mut ring = IoUring::new(4, 8);
    ring.register_files(1);
    let a = ring.prepare(operation(0, 1)).unwrap();
    assert_eq!(ring.num_ops(), 0);
    assert!(ring.submitted(&a, Ok(())).is_ok());
    assert_eq!(ring.num_ops(), 1);
    let b = ring.prepare(operation(0, 2)).unwrap();
    match ring.submitted(&b, Err(SQueueError::FullQueue)) {
        Err((IoUringError::SQueue(SQueueError::FullQueue), Some(r))) => assert_eq!(r.desc_idx, 2),
        _ => panic!("the queue is full"),
    }
    assert_eq!(ring.num_ops(), 1);
    let done = ring.pop(Some(RawCqe { user_data: a.user_data, res: 1 })).unwrap().unwrap();
    assert_eq!(done.user_data.desc_idx, 1);
}

#[test]
fn a_full_submission_queue_gives_the_request_back() {
    let mut ring = IoUring::new(4, 8);
    ring.register_files(1);
    match ring.push(operation(0, 7), Err(SQueueError::FullQueue)) {
        Err((e, r)) => {
            assert_eq!(r.desc_idx, 7);
            assert!(e.is_throttling_err());
        }
        Ok(_) => panic!("the queue is full"),
    }
    assert_eq!(ring.num_ops(), 0);
    assert!(IoUringError::FullCQueue.is_throttling_err());
    assert!(!IoUringError::NoRegisteredFds.is_throttling_err());
    assert_eq!(Cqe { res: -5, user_data: request(1) }.result(), Err(5));
}

#[test]
fn filters_set_and_clear_bits() {
    let f = RegisterValueFilter { filter: 0b1100u32, value: 0b0100 };
    assert_eq!(f.apply(0b1011), 0b0111);
    let f = RegisterValueFilter { filter: 0xf0u64, value: 0x30 };
    assert_eq!(f.apply(0xff), 0x3f);
}

#[test]
fn registers_have_names() {
    assert_eq!(CpuidRegister::from_name("eax"), Some(CpuidRegister::Eax));
    assert_eq!(CpuidRegister::from_name("edx"), Some(CpuidRegister::Edx));
    assert_eq!(CpuidRegister::from_name("EAX"), None);
    assert_eq!(CpuidRegister::Ecx.name(), "ecx");
}

fn configuration() -> CpuConfiguration {
    let mut cpuid = BTreeMap::new();
    cpuid.insert(
        cpuid_key(7, 1),
        CpuidEntry { flags: 0, eax: 0xff, ebx: 1, ecx: 2, edx: 3 },
    );
    let mut msrs = BTreeMap::new();
    msrs.insert(0x10a, 0xff);
    CpuConfiguration { cpuid, msrs }
}

fn template() -> CustomCpuTemplate {
    CustomCpuTemplate {
        kvm_capabilities: vec![],
        cpuid_modifiers: vec![CpuidLeafModifier {
            leaf: 7,
            subleaf: 1,
            flags: 0,
            modifiers: vec![CpuidRegisterModifier {
                register: CpuidRegister::Eax,
                bitmap: RegisterValueFilter { filter: 0xf, value: 0x5 },
            }],
        }],
        msr_modifiers: vec![RegisterModifier {
            addr: 0x10a,
            bitmap: RegisterValueFilter { filter: 0xf0, value: 0 },
        }],
    }
}

#[test]
fn a_template_changes_registers() {
    let c = configuration().apply_template(&template()).unwrap();
    assert_eq!(c.cpuid[&cpuid_key(7, 1)].eax, 0xf5);
    assert_eq!(c.cpuid[&cpuid_key(7, 1)].ebx, 1);
    assert_eq!(c.msrs[&0x10a], 0x0f);
    assert_eq!(template().msr_index_iter(), vec![0x10a]);
    let mut bad = template();
    bad.cpuid_modifiers[0].leaf = 8;
    assert!(matches!(
        configuration().apply_template(&bad),
        Err(CpuConfigurationError::CpuidFeatureNotSupported(8, 1))
    ));
    let mut bad = template();
    bad.msr_modifiers[0].addr = 1;
    assert!(matches!(
        configuration().apply_template(&bad),
        Err(CpuConfigurationError::MsrNotSupported(1))
    ));
    assert_eq!(template().validate(), Ok(()));
}

#[test]
fn a_template_fits_the_host() {
    let model = CpuModel {
        extended_family: 0,
        extended_model: 6,
        family: 6,
        model: 10,
        stepping: 1,
    };
    let support = TemplateSupport {
        host_vendor: Some(VendorId::Intel),
        host_model: model,
        vendor: VendorId::Intel,
        models: vec![model],
    };
    assert!(matches!(get_cpu_template(&None, &support), Ok(CpuTemplateSource::Empty)));
    let t = Some(CpuTemplateType::Static(StaticCpuTemplate::T2));
    assert!(matches!(
        get_cpu_template(&t, &support),
        Ok(CpuTemplateSource::Static(StaticCpuTemplate::T2))
    ));
    let amd = TemplateSupport {
        host_vendor: Some(VendorId::Amd),
        models: vec![model],
        ..support
    };
    assert!(matches!(
        get_cpu_template(&t, &amd),
        Err(GetCpuTemplateError::CpuVendorMismatched)
    ));
    let unknown = TemplateSupport { host_vendor: None, ..amd };
    assert!(matches!(get_cpu_template(&t, &unknown), Err(GetCpuTemplateError::GetCpuVendor)));
    let old = TemplateSupport { host_vendor: Some(VendorId::Intel), models: vec![], ..unknown };
    assert!(matches!(get_cpu_template(&t, &old), Err(GetCpuTemplateError::InvalidCpuModel)));
    let unset = Some(CpuTemplateType::Static(StaticCpuTemplate::Unset));
    assert!(matches!(
        get_cpu_template(&unset, &old),
        Err(GetCpuTemplateError::InvalidStaticCpuTemplate(StaticCpuTemplate::Unset))
    ));
    let custom = Some(CpuTemplateType::Custom(template()));
    assert!(matches!(get_cpu_template(&custom, &old), Ok(CpuTemplateSource::Custom(_))));
}

#[test]
fn applied_changes_are_verified() {
    let key = ModifierKey::Msr { addr: 7 };
    let want = vec![(key, RegisterValueFilter { filter: 0xf0, value: 0x30 })];
    let have = vec![(key, RegisterValueFilter { filter: u64::MAX, value: 0x3c })];
    assert_eq!(verify_common(&want, &have), Ok(()));
    let wrong = vec![(key, RegisterValueFilter { filter: u64::MAX, value: 0x4c })];
    assert_eq!(
        verify_common(&want, &wrong),
        Err(VerifyError::ValueMismatched(key, 0x30, 0x40))
    );
    assert_eq!(verify_common(&want, &vec![]), Err(VerifyError::KeyNotFound(key)));
}

fn snapshot() -> SnapshotInfo {
    SnapshotInfo {
        version: text("5.0.0"),
        vcpu_states: vec![VcpuInfo {
            text: text("state"),
            saved_msrs: vec![vec![MsrEntry { index: 0x10, data: 0x20 }]],
        }],
        text: text("vm"),
    }
}

#[test]
fn a_snapshot_is_described() {
    let path = || text("/v");
    assert_eq!(
        info_vmstate_command(
            &InfoVmStateSubCommand::Version { vmstate_path: path() },
            Ok(snapshot())
        )
        .unwrap(),
        "v5.0.0\n"
    );
    let out = info_vmstate_command(
        &InfoVmStateSubCommand::VcpuStates { vmstate_path: path() },
        Ok(snapshot()),
    )
    .unwrap();
    assert_eq!(out, "vcpu 0:\nstate\n");
    let out = info_vmstate_command(
        &InfoVmStateSubCommand::MsrState { vmstate_path: path() },
        Ok(snapshot()),
    )
    .unwrap();
    assert_eq!(
        out,
        "vcpu 0:\nsaved_msrs:\n  chunk 0:\n    count: 1\n    entry 0:\n      index: 0x10\n      \
         data:  0x20\n\n"
    );
    assert_eq!(
        info_vmstate_command(
            &InfoVmStateSubCommand::VmState { vmstate_path: path() },
            Ok(snapshot())
        )
        .unwrap(),
        "vm\n"
    );
    assert!(matches!(
        info_vmstate_command(
            &InfoVmStateSubCommand::VmState { vmstate_path: path() },
            Err(UtilsError::VmStateLoad(text("e")))
        ),
        Err(InfoVmStateError::Utils(UtilsError::VmStateLoad(_)))
    ));
}
