use vmm::cpu_config::templates::KvmCapability;
use vmm::arch::x86_64::kvm::default_capability_list;
use vmm::arch::x86_64::vm::{restored_clock_flags, xsave2_size, KvmVm, KvmVmError, VmStateStep};
use vmm::builder::allocate_pvtime_region;
use vmm::utils::sm::StateMachine;
use vmm::vstate::kvm::{Kvm, KvmError};
use vmm::vstate::vcpu::{
    exit_outcome, handle_kvm_exit, skip_run, was_interrupted, ExitOutcome, FcExitCode, NotAllowed,
    Vcpu, VcpuEmulation, VcpuError, VcpuEvent, VcpuExit, VcpuInput, VcpuReply, VcpuStage,
};
use vmm::vstate::vm::{
    dump_cpu_config_states, pause_vcpus, resume_vcpus, save_vcpu_states, VcpuRequestError,
    VcpuResponse, VmCommon, VmmError,
};

#[test]
fn a_processor_starts_paused() {
    let mut v = Vcpu::new(3);
    assert_eq!(v.stage, VcpuStage::Paused);
    let out = v.run(VcpuInput::Received(VcpuEvent::Resume), true);
    assert_eq!(v.stage, VcpuStage::Running);
    assert_eq!(out.reply, Some(VcpuReply::Resumed));
    assert!(out.clear_immediate_exit);
}

#[test]
fn a_running_processor_is_interrupted_and_paused() {
    let mut v = Vcpu::new(0);
    v.stage = VcpuStage::Running;
    v.running(VcpuInput::Emulated(VcpuEmulation::Handled));
    assert_eq!(v.stage, VcpuStage::Running);
    v.running(VcpuInput::Emulated(VcpuEmulation::Interrupted));
    assert_eq!(v.stage, VcpuStage::Interrupted);
    let out = v.running(VcpuInput::Received(VcpuEvent::Pause));
    assert_eq!(v.stage, VcpuStage::Paused);
    assert_eq!(out.reply, Some(VcpuReply::Paused));
    assert!(out.kvmclock_ctrl);
}

#[test]
fn a_running_processor_does_not_save_its_state() {
    let mut v = Vcpu::new(0);
    v.stage = VcpuStage::Interrupted;
    let out = v.running(VcpuInput::Received(VcpuEvent::SaveState));
    assert_eq!(out.reply, Some(VcpuReply::NotAllowed(NotAllowed::SaveState)));
    assert_eq!(v.stage, VcpuStage::Running);
    assert!(NotAllowed::SaveState.text().contains("save"));
}

#[test]
fn a_stopped_or_failed_processor_exits() {
    let mut v = Vcpu::new(0);
    v.stage = VcpuStage::Running;
    v.running(VcpuInput::Emulated(VcpuEmulation::Stopped));
    assert_eq!(v.stage, VcpuStage::Exiting(FcExitCode::OK));
    let mut v = Vcpu::new(0);
    v.stage = VcpuStage::Running;
    v.running(VcpuInput::Failed);
    assert_eq!(v.stage, VcpuStage::Exiting(FcExitCode::GenericError));
}

#[test]
fn a_paused_processor_saves_its_state() {
    let mut v = Vcpu::new(0);
    let out = v.paused(VcpuInput::Received(VcpuEvent::SaveState), false);
    assert_eq!(out.reply, Some(VcpuReply::SavedState));
    assert_eq!(v.stage, VcpuStage::Paused);
    let out = v.paused(VcpuInput::Received(VcpuEvent::DumpCpuConfig), false);
    assert_eq!(out.reply, Some(VcpuReply::DumpedCpuConfig));
    v.paused(VcpuInput::Received(VcpuEvent::Finish), false);
    assert_eq!(v.stage, VcpuStage::Finished);
}

#[test]
fn exits_are_told_apart() {
    assert!(matches!(
        handle_kvm_exit(true, Ok(VcpuExit::MmioRead(5, 4))),
        ExitOutcome::Read { addr: 5, len: 4, bus: true }
    ));
    assert!(matches!(
        handle_kvm_exit(true, Ok(VcpuExit::MmioWrite(5, vec![1]))),
        ExitOutcome::Write { addr: 5, .. }
    ));
    assert!(matches!(
        handle_kvm_exit(true, Ok(VcpuExit::SystemEvent(1, vec![]))),
        ExitOutcome::Done(VcpuEmulation::Stopped)
    ));
    assert!(matches!(
        handle_kvm_exit(true, Ok(VcpuExit::SystemEvent(2, vec![]))),
        ExitOutcome::Done(VcpuEmulation::Stopped)
    ));
    assert!(matches!(handle_kvm_exit(true, Ok(VcpuExit::Arch)), ExitOutcome::Arch));
    assert!(matches!(
        handle_kvm_exit(true, Err(11)),
        ExitOutcome::Done(VcpuEmulation::Handled)
    ));
    match handle_kvm_exit(true, Err(22)) {
        ExitOutcome::Failed(VcpuError::FaultyKvmExit(text)) => {
            assert!(text.ends_with("(os error 22)"));
        }
        _ => panic!("an error of a run is a fault"),
    }
    match exit_outcome(true, Err(22), String::from("no such thing")) {
        ExitOutcome::Failed(VcpuError::FaultyKvmExit(text)) => assert_eq!(text, "no such thing"),
        _ => panic!("an error of a run is a fault"),
    }
    assert!(matches!(
        handle_kvm_exit(true, Err(38)),
        ExitOutcome::Failed(VcpuError::FaultyKvmExit(_))
    ));
    match handle_kvm_exit(true, Ok(VcpuExit::FailEntry(0x1f, 2))) {
        ExitOutcome::Failed(VcpuError::FaultyKvmExit(text)) => assert!(!text.is_empty()),
        _ => panic!("a failed entry is a fault"),
    }
    assert_eq!(skip_run(true), Some(VcpuEmulation::Interrupted));
    assert_eq!(skip_run(false), None);
    assert!(was_interrupted(4));
    assert!(!was_interrupted(5));
}

#[test]
fn all_processors_answer_alike() {
    let paused: Vec<Option<VcpuResponse<u8, u8>>> =
        vec![Some(VcpuResponse::Paused), Some(VcpuResponse::Paused)];
    assert_eq!(pause_vcpus(true, &paused), Ok(()));
    assert_eq!(pause_vcpus(false, &paused), Err(VmmError::VcpuMessage));
    assert_eq!(resume_vcpus(true, &paused), Err(VmmError::VcpuMessage));
    let saved: Vec<Option<VcpuResponse<u8, u8>>> =
        vec![Some(VcpuResponse::SavedState(4)), Some(VcpuResponse::SavedState(5))];
    assert_eq!(save_vcpu_states(true, saved), Ok(vec![4, 5]));
    let refused: Vec<Option<VcpuResponse<u8, u8>>> =
        vec![Some(VcpuResponse::NotAllowed(NotAllowed::SaveState))];
    assert_eq!(
        save_vcpu_states(true, refused),
        Err(VcpuRequestError::NotAllowed(NotAllowed::SaveState))
    );
    let dumped: Vec<Option<VcpuResponse<u8, u8>>> =
        vec![Some(VcpuResponse::DumpedCpuConfig(9))];
    assert_eq!(dump_cpu_config_states(true, dumped), Ok(vec![9]));
    let failed: Vec<Option<VcpuResponse<u8, u8>>> = vec![Some(VcpuResponse::Error)];
    assert_eq!(dump_cpu_config_states(true, failed), Err(VcpuRequestError::Failed));
}

#[test]
fn capabilities_are_changed_by_a_template() {
    let all = Kvm::combine_capabilities(&vec![]);
    assert_eq!(all, default_capability_list());
    assert_eq!(all.len(), 14);
    let changed =
        Kvm::combine_capabilities(&vec![KvmCapability::Add(171), KvmCapability::Remove(0)]);
    assert_eq!(changed.len(), 14);
    assert!(changed.contains(&171));
    assert!(!changed.contains(&0));
}

#[test]
fn a_missing_capability_is_named() {
    assert_eq!(Kvm::check_capabilities(&vec![5, 6], &vec![1, 0]), Err(6));
    assert_eq!(Kvm::check_capabilities(&vec![5, 6], &vec![1, 2]), Ok(()));
    assert!(matches!(Kvm::new(vec![], 11, &vec![1; 14]), Err(KvmError::ApiVersion(11))));
    let mut answers = vec![1; 14];
    answers[1] = 0;
    assert!(matches!(
        Kvm::new(vec![], 12, &answers),
        Err(KvmError::Capabilities(c)) if c == default_capability_list()[1]
    ));
    let kvm = Kvm::new(vec![KvmCapability::Add(9)], 12, &vec![1; 15]).unwrap();
    assert_eq!(kvm.save_state().kvm_cap_modifiers, vec![KvmCapability::Add(9)]);
}

#[test]
fn the_save_area_is_asked_for() {
    assert_eq!(xsave2_size(0), Ok(None));
    assert_eq!(xsave2_size(8192), Ok(Some(8192)));
    assert_eq!(xsave2_size(1), Ok(Some(1)));
    assert!(matches!(xsave2_size(-1), Err(KvmVmError::CheckCapability)));
}

#[test]
fn the_clock_is_moved_on_request() {
    assert_eq!(restored_clock_flags(4, true), Ok(4));
    assert_eq!(restored_clock_flags(4, false), Ok(0));
    assert_eq!(restored_clock_flags(0, true), Err(KvmVmError::ClockRealtimeNotInState));
    let (steps, e) = KvmVm::restore_plan(0, true);
    assert_eq!(e, Some(KvmVmError::ClockRealtimeNotInState));
    assert_eq!(steps, vec![VmStateStep::Pit2]);
    let (steps, e) = KvmVm::restore_plan(4, true);
    assert_eq!(e, None);
    assert_eq!(steps.len(), 5);
    let vm = KvmVm::new(VmCommon::create_common(1), vec![], 0).unwrap();
    assert!(vm.save_state().memory.regions.is_empty());
}

#[test]
fn addresses_that_were_handed_out_come_back() {
    let mut vm = KvmVm::new(VmCommon::create_common(1), vec![], 0).unwrap();
    let first = allocate_pvtime_region(&mut vm.common.resource_allocator, 1).unwrap();
    let state = vm.save_state();
    let mut other = KvmVm::new(VmCommon::create_common(1), vec![], 0).unwrap();
    other.restore_state(&state);
    let second = allocate_pvtime_region(&mut other.common.resource_allocator, 1).unwrap();
    assert!(second < first);
}

#[test]
fn a_state_machine_runs_to_its_end() {
    let step = |n: u32, s: u8| {
        if s == 0 {
            (n, StateMachine::finish())
        } else {
            (n + 1, StateMachine::next(s - 1))
        }
    };
    let (n, m) = StateMachine::run(0, 3u8, step, 100);
    assert_eq!(n, 3);
    assert!(m.function.is_none());
    let (n, m) = StateMachine::run(0, 3u8, step, 2);
    assert_eq!(n, 2);
    assert_eq!(m.function, Some(1));
}
