//! The life of a virtual CPU: what it answers to requests, and what it makes of exits from the
//! guest.

use vstd::prelude::*;

use crate::cpu_config::x86_64::configuration::CpuConfiguration;
use crate::utils::text::{decimal, decimal_string};

verus! {

/// System event: the guest shut down.
pub const KVM_SYSTEM_EVENT_SHUTDOWN: u32 = 1;

/// System event: the guest reset the machine.
pub const KVM_SYSTEM_EVENT_RESET: u32 = 2;

/// Error number: interrupted.
pub const EINTR: i32 = 4;

/// Error number: try again.
pub const EAGAIN: i32 = 11;

/// Error number: not implemented.
pub const ENOSYS: i32 = 38;

/// Why the process ends.
#[derive(Debug, Clone, Copy, PartialEq, Eq, Structural)]
pub enum FcExitCode {
    /// The guest stopped.
    OK,
    /// Something went wrong.
    GenericError,
}

/// The configuration of virtual CPUs.
#[derive(Debug)]
pub struct VcpuConfig {
    /// Their number.
    pub vcpu_count: u8,
    /// Whether two of them share a core.
    pub smt: bool,
    /// The configuration of each of them.
    pub cpu_config: CpuConfiguration,
}

/// A request to a virtual CPU.
#[derive(Debug, Clone, Copy, PartialEq, Eq, Structural)]
pub enum VcpuEvent {
    /// End the thread.
    Finish,
    /// Pause.
    Pause,
    /// Run on.
    Resume,
    /// Save the state.
    SaveState,
    /// Give out the configuration.
    DumpCpuConfig,
}

/// What came of running the guest for a while.
#[derive(Debug, Clone, Copy, PartialEq, Eq, Structural)]
pub enum VcpuEmulation {
    /// An exit was handled.
    Handled,
    /// The run was interrupted.
    Interrupted,
    /// The guest stopped.
    Stopped,
}

/// What a virtual CPU refuses while it runs.
#[derive(Debug, Clone, Copy, PartialEq, Eq, Structural)]
pub enum NotAllowed {
    /// To save its state.
    SaveState,
    /// To give out its configuration.
    DumpCpuConfig,
}

impl NotAllowed {
    /// What is said about it.
    pub fn text(&self) -> (r: &'static str)
        ensures
            r@ == (match *self {
                NotAllowed::SaveState => "save/restore unavailable while running"@,
                NotAllowed::DumpCpuConfig => "cpu config dump is unavailable while running"@,
            }),
    {
        match self {
            NotAllowed::SaveState => "save/restore unavailable while running",
            NotAllowed::DumpCpuConfig => "cpu config dump is unavailable while running",
        }
    }
}

/// The stage that a virtual CPU is in.
#[derive(Debug, Clone, Copy, PartialEq, Eq, Structural)]
pub enum VcpuStage {
    /// The guest runs.
    Running,
    /// The guest was interrupted, requests are looked for.
    Interrupted,
    /// The guest is paused, a request is waited for.
    Paused,
    /// The guest has ended, the request to end the thread is waited for.
    Exiting(FcExitCode),
    /// The thread ends.
    Finished,
}

/// What happens to a virtual CPU.
#[derive(Debug, Clone, Copy, PartialEq, Eq, Structural)]
pub enum VcpuInput {
    /// The guest ran for a while.
    Emulated(VcpuEmulation),
    /// The guest ran into an error.
    Failed,
    /// A request came.
    Received(VcpuEvent),
    /// No request is there.
    Empty,
    /// No request can come any more.
    Disconnected,
}

/// What is answered to a request.
#[derive(Debug, Clone, Copy, PartialEq, Eq, Structural)]
pub enum VcpuReply {
    /// The guest is paused.
    Paused,
    /// The guest runs.
    Resumed,
    /// The request is refused.
    NotAllowed(NotAllowed),
    /// The state of the CPU, or why it cannot be saved.
    SavedState,
    /// The configuration of the CPU, or why it cannot be given out.
    DumpedCpuConfig,
    /// The guest has ended.
    Exited(FcExitCode),
}

/// What a virtual CPU does.
#[derive(Debug, Clone, Copy, PartialEq, Eq, Structural)]
pub struct VcpuOutput {
    /// Whether the end of the guest is signalled.
    pub signal_exit: bool,
    /// Whether the request to leave the guest at once is taken back.
    pub clear_immediate_exit: bool,
    /// The answer.
    pub reply: Option<VcpuReply>,
    /// Whether the clock of the guest is told of the pause.
    pub kvmclock_ctrl: bool,
}

/// Nothing is done.
pub open spec fn idle() -> VcpuOutput {
    VcpuOutput {
        signal_exit: false,
        clear_immediate_exit: false,
        reply: None,
        kvmclock_ctrl: false,
    }
}

/// A request is answered.
pub open spec fn replied(reply: VcpuReply) -> VcpuOutput {
    VcpuOutput { reply: Some(reply), ..idle() }
}

/// The guest ends.
pub open spec fn ended(code: FcExitCode) -> (VcpuStage, VcpuOutput) {
    (
        VcpuStage::Exiting(code),
        VcpuOutput { signal_exit: true, ..replied(VcpuReply::Exited(code)) },
    )
}

/// What a virtual CPU does in a stage when something happens, and the stage it goes to.
pub open spec fn vcpu_step(stage: VcpuStage, input: VcpuInput, immediate_exit: bool) -> (
    VcpuStage,
    VcpuOutput,
) {
    match stage {
        VcpuStage::Running => match input {
            VcpuInput::Emulated(VcpuEmulation::Handled) => (stage, idle()),
            VcpuInput::Emulated(VcpuEmulation::Interrupted) => (VcpuStage::Interrupted, idle()),
            VcpuInput::Emulated(VcpuEmulation::Stopped) => ended(FcExitCode::OK),
            VcpuInput::Failed => ended(FcExitCode::GenericError),
            _ => (stage, idle()),
        },
        VcpuStage::Interrupted => match input {
            VcpuInput::Received(VcpuEvent::Pause) => (
                VcpuStage::Paused,
                VcpuOutput { kvmclock_ctrl: true, ..replied(VcpuReply::Paused) },
            ),
            VcpuInput::Received(VcpuEvent::Resume) => (
                VcpuStage::Running,
                replied(VcpuReply::Resumed),
            ),
            VcpuInput::Received(VcpuEvent::SaveState) => (
                VcpuStage::Running,
                replied(VcpuReply::NotAllowed(NotAllowed::SaveState)),
            ),
            VcpuInput::Received(VcpuEvent::DumpCpuConfig) => (
                VcpuStage::Running,
                replied(VcpuReply::NotAllowed(NotAllowed::DumpCpuConfig)),
            ),
            VcpuInput::Received(VcpuEvent::Finish) => (VcpuStage::Finished, idle()),
            VcpuInput::Disconnected => ended(FcExitCode::GenericError),
            VcpuInput::Empty => (VcpuStage::Running, idle()),
            _ => (stage, idle()),
        },
        VcpuStage::Paused => match input {
            VcpuInput::Received(VcpuEvent::Resume) => (
                VcpuStage::Running,
                VcpuOutput {
                    clear_immediate_exit: immediate_exit,
                    ..replied(VcpuReply::Resumed)
                },
            ),
            VcpuInput::Received(VcpuEvent::Pause) => (stage, replied(VcpuReply::Paused)),
            VcpuInput::Received(VcpuEvent::SaveState) => (stage, replied(VcpuReply::SavedState)),
            VcpuInput::Received(VcpuEvent::DumpCpuConfig) => (
                stage,
                replied(VcpuReply::DumpedCpuConfig),
            ),
            VcpuInput::Received(VcpuEvent::Finish) => (VcpuStage::Finished, idle()),
            VcpuInput::Disconnected => ended(FcExitCode::GenericError),
            _ => (stage, idle()),
        },
        VcpuStage::Exiting(code) => match input {
            VcpuInput::Received(VcpuEvent::Finish) => (VcpuStage::Finished, idle()),
            VcpuInput::Received(_) => (stage, replied(VcpuReply::Exited(code))),
            VcpuInput::Disconnected => (stage, replied(VcpuReply::Exited(code))),
            _ => (stage, idle()),
        },
        VcpuStage::Finished => (stage, idle()),
    }
}

/// A virtual CPU.
#[derive(Debug, Clone, Copy, PartialEq, Eq, Structural)]
pub struct Vcpu {
    /// Its index.
    pub index: u8,
    /// The stage that it is in.
    pub stage: VcpuStage,
}

impl Vcpu {
    /// A virtual CPU. It starts paused.
    pub fn new(index: u8) -> (r: Vcpu)
        ensures
            r.index == index,
            r.stage == VcpuStage::Paused,
    {
        Vcpu { index, stage: VcpuStage::Paused }
    }

    /// An answer.
    fn reply(reply: VcpuReply) -> (r: VcpuOutput)
        ensures
            r == replied(reply),
    {
        VcpuOutput {
            signal_exit: false,
            clear_immediate_exit: false,
            reply: Some(reply),
            kvmclock_ctrl: false,
        }
    }

    /// No answer.
    fn silence() -> (r: VcpuOutput)
        ensures
            r == idle(),
    {
        VcpuOutput {
            signal_exit: false,
            clear_immediate_exit: false,
            reply: None,
            kvmclock_ctrl: false,
        }
    }

    /// Ends the guest.
    fn exit(&mut self, exit_code: FcExitCode) -> (r: VcpuOutput)
        ensures
            final(self).index == old(self).index,
            (final(self).stage, r) == ended(exit_code),
    {
        self.stage = VcpuStage::Exiting(exit_code);
        let mut output = Vcpu::reply(VcpuReply::Exited(exit_code));
        output.signal_exit = true;
        output
    }

    /// The guest ran for a while, or was interrupted and requests were looked for.
    pub fn running(&mut self, input: VcpuInput) -> (r: VcpuOutput)
        requires
            old(self).stage is Running || old(self).stage is Interrupted,
        ensures
            final(self).index == old(self).index,
            (final(self).stage, r) == vcpu_step(old(self).stage, input, false),
    {
        if self.stage == VcpuStage::Running {
            return match input {
                VcpuInput::Emulated(VcpuEmulation::Interrupted) => {
                    self.stage = VcpuStage::Interrupted;
                    Vcpu::silence()
                },
                VcpuInput::Emulated(VcpuEmulation::Stopped) => self.exit(FcExitCode::OK),
                VcpuInput::Failed => self.exit(FcExitCode::GenericError),
                _ => Vcpu::silence(),
            };
        }
        match input {
            VcpuInput::Received(VcpuEvent::Pause) => {
                self.stage = VcpuStage::Paused;
                let mut output = Vcpu::reply(VcpuReply::Paused);
                output.kvmclock_ctrl = true;
                output
            },
            VcpuInput::Received(VcpuEvent::Resume) => {
                self.stage = VcpuStage::Running;
                Vcpu::reply(VcpuReply::Resumed)
            },
            VcpuInput::Received(VcpuEvent::SaveState) => {
                self.stage = VcpuStage::Running;
                Vcpu::reply(VcpuReply::NotAllowed(NotAllowed::SaveState))
            },
            VcpuInput::Received(VcpuEvent::DumpCpuConfig) => {
                self.stage = VcpuStage::Running;
                Vcpu::reply(VcpuReply::NotAllowed(NotAllowed::DumpCpuConfig))
            },
            VcpuInput::Received(VcpuEvent::Finish) => {
                self.stage = VcpuStage::Finished;
                Vcpu::silence()
            },
            VcpuInput::Disconnected => self.exit(FcExitCode::GenericError),
            VcpuInput::Empty => {
                self.stage = VcpuStage::Running;
                Vcpu::silence()
            },
            _ => Vcpu::silence(),
        }
    }

    /// A request came while the guest is paused.
    pub fn paused(&mut self, input: VcpuInput, immediate_exit: bool) -> (r: VcpuOutput)
        requires
            old(self).stage is Paused,
        ensures
            final(self).index == old(self).index,
            (final(self).stage, r) == vcpu_step(old(self).stage, input, immediate_exit),
    {
        match input {
            VcpuInput::Received(VcpuEvent::Resume) => {
                self.stage = VcpuStage::Running;
                let mut output = Vcpu::reply(VcpuReply::Resumed);
                output.clear_immediate_exit = immediate_exit;
                output
            },
            VcpuInput::Received(VcpuEvent::Pause) => Vcpu::reply(VcpuReply::Paused),
            VcpuInput::Received(VcpuEvent::SaveState) => Vcpu::reply(VcpuReply::SavedState),
            VcpuInput::Received(VcpuEvent::DumpCpuConfig) => Vcpu::reply(VcpuReply::DumpedCpuConfig),
            VcpuInput::Received(VcpuEvent::Finish) => {
                self.stage = VcpuStage::Finished;
                Vcpu::silence()
            },
            VcpuInput::Disconnected => self.exit(FcExitCode::GenericError),
            _ => Vcpu::silence(),
        }
    }

    /// Something happens to the CPU.
    pub fn run(&mut self, input: VcpuInput, immediate_exit: bool) -> (r: VcpuOutput)
        ensures
            final(self).index == old(self).index,
            (final(self).stage, r) == vcpu_step(old(self).stage, input, immediate_exit),
    {
        match self.stage {
            VcpuStage::Running => self.running(input),
            VcpuStage::Interrupted => self.running(input),
            VcpuStage::Paused => self.paused(input, immediate_exit),
            VcpuStage::Exiting(code) => match input {
                VcpuInput::Received(VcpuEvent::Finish) => {
                    self.stage = VcpuStage::Finished;
                    Vcpu::silence()
                },
                VcpuInput::Received(_) => Vcpu::reply(VcpuReply::Exited(code)),
                VcpuInput::Disconnected => Vcpu::reply(VcpuReply::Exited(code)),
                _ => Vcpu::silence(),
            },
            VcpuStage::Finished => Vcpu::silence(),
        }
    }
}

/// A paused guest runs only once it is resumed.
pub proof fn law_paused_until_resumed(input: VcpuInput, immediate_exit: bool)
    requires
        vcpu_step(VcpuStage::Paused, input, immediate_exit).0 == VcpuStage::Running,
    ensures
        input == VcpuInput::Received(VcpuEvent::Resume),
{
}

/// The state and the configuration are given out only while the guest is paused.
pub proof fn law_saved_only_while_paused(stage: VcpuStage, input: VcpuInput, immediate_exit: bool)
    requires
        vcpu_step(stage, input, immediate_exit).1.reply == Some(VcpuReply::SavedState) || vcpu_step(
            stage,
            input,
            immediate_exit,
        ).1.reply == Some(VcpuReply::DumpedCpuConfig),
    ensures
        stage == VcpuStage::Paused,
        vcpu_step(stage, input, immediate_exit).0 == VcpuStage::Paused,
{
}

/// Every request but the one to end the thread is answered, in every stage that takes requests.
pub proof fn law_requests_are_answered(stage: VcpuStage, event: VcpuEvent, immediate_exit: bool)
    requires
        stage is Interrupted || stage is Paused || stage is Exiting,
    ensures
        vcpu_step(stage, VcpuInput::Received(event), immediate_exit).1.reply is None
            <==> event == VcpuEvent::Finish,
        event == VcpuEvent::Finish ==> vcpu_step(
            stage,
            VcpuInput::Received(event),
            immediate_exit,
        ).0 == VcpuStage::Finished,
{
}

/// The end of the guest is signalled once, when it ends.
pub proof fn law_end_is_signalled_once(stage: VcpuStage, input: VcpuInput, immediate_exit: bool)
    ensures
        vcpu_step(stage, input, immediate_exit).1.signal_exit <==> (!(stage is Exiting)
            && vcpu_step(stage, input, immediate_exit).0 is Exiting),
{
}

/// Why the guest left the CPU.
#[derive(Debug)]
pub enum VcpuExit {
    /// It reads from an address outside of its memory: address and number of bytes.
    MmioRead(u64, usize),
    /// It writes to an address outside of its memory.
    MmioWrite(u64, Vec<u8>),
    /// The CPU could not be entered: reason and physical CPU.
    FailEntry(u64, u32),
    /// The hypervisor failed.
    InternalError,
    /// The system changes its state: type and data.
    SystemEvent(u32, Vec<u64>),
    /// A reason of the architecture.
    Arch,
}

/// Why a virtual CPU cannot go on.
#[derive(Debug)]
pub enum VcpuError {
    /// The guest left the CPU for a bad reason.
    FaultyKvmExit(String),
}

/// What is to be done about an exit.
#[derive(Debug)]
pub enum ExitOutcome {
    /// Nothing more.
    Done(VcpuEmulation),
    /// The bytes that the guest gets are all zero, unless a device on the bus gives others.
    Read {
        /// Address.
        addr: u64,
        /// Number of bytes.
        len: usize,
        /// Whether there is a bus to ask.
        bus: bool,
    },
    /// The bytes go to the bus.
    Write {
        /// Address.
        addr: u64,
        /// The bytes.
        data: Vec<u8>,
    },
    /// The architecture deals with it.
    Arch,
    /// The CPU cannot go on.
    Failed(VcpuError),
}

/// A list of numbers, with commas between them.
pub open spec fn number_list(numbers: Seq<u64>) -> Seq<char>
    decreases numbers.len(),
{
    if numbers.len() == 0 {
        seq![]
    } else if numbers.len() == 1 {
        decimal(numbers[0] as nat)
    } else {
        number_list(numbers.drop_last()) + ", "@ + decimal(numbers.last() as nat)
    }
}

/// What is said about a failed entry.
pub open spec fn fail_entry_text(reason: u64, cpu: u32) -> Seq<char> {
    "FailEntry("@ + decimal(reason as nat) + ", "@ + decimal(cpu as nat) + ")"@
}

/// What is said about a system event.
pub open spec fn system_event_text(event_type: u32, data: Seq<u64>) -> Seq<char> {
    "SystemEvent("@ + decimal(event_type as nat) + ", ["@ + number_list(data) + "])"@
}

/// A list of numbers, with commas between them.
fn list_numbers(numbers: &Vec<u64>) -> (r: String)
    ensures
        r@ == number_list(numbers@),
{
    let mut text = String::new();
    let mut i: usize = 0;
    assert(numbers@.take(0) =~= Seq::<u64>::empty());
    assert(text@ =~= Seq::<char>::empty());
    while i < numbers.len()
        invariant
            i <= numbers@.len(),
            text@ == number_list(numbers@.take(i as int)),
        decreases numbers@.len() - i,
    {
        let ghost before = text@;
        assert(numbers@.take(i + 1).drop_last() =~= numbers@.take(i as int));
        if i > 0 {
            text.append(", ");
        }
        let number = decimal_string(numbers[i]);
        text.append(number.as_str());
        proof {
            if i == 0 {
                assert(text@ =~= decimal(numbers@[0] as nat));
                assert(numbers@.take(1)[0] == numbers@[0]);
            }
        }
        i += 1;
    }
    assert(numbers@.take(i as int) =~= numbers@);
    text
}

/// What is said about a failed entry.
fn describe_fail_entry(reason: u64, cpu: u32) -> (r: String)
    ensures
        r@ == fail_entry_text(reason, cpu),
{
    let mut text = String::from_str("FailEntry(");
    text.append(decimal_string(reason).as_str());
    text.append(", ");
    text.append(decimal_string(cpu as u64).as_str());
    text.append(")");
    text
}

/// What is said about a system event.
fn describe_system_event(event_type: u32, data: &Vec<u64>) -> (r: String)
    ensures
        r@ == system_event_text(event_type, data@),
{
    let mut text = String::from_str("SystemEvent(");
    text.append(decimal_string(event_type as u64).as_str());
    text.append(", [");
    text.append(list_numbers(data).as_str());
    text.append("])");
    text
}

/// Whether a run of the guest is skipped, because it was asked to leave at once. The request is then
/// taken back and the run counts as interrupted.
pub fn skip_run(immediate_exit: bool) -> (r: Option<VcpuEmulation>)
    ensures
        r == (if immediate_exit {
            Some(VcpuEmulation::Interrupted)
        } else {
            None
        }),
{
    if immediate_exit {
        Some(VcpuEmulation::Interrupted)
    } else {
        None
    }
}

/// Whether an error says that the run was interrupted. The request to leave at once is then taken
/// back.
pub fn was_interrupted(errno: i32) -> (r: bool)
    ensures
        r == (errno == EINTR),
{
    errno == EINTR
}

/// What is to be done about an exit of the guest, or about the error of a run of which the host says
/// `error_text`.
pub open spec fn exit_handled(
    has_mmio_bus: bool,
    emulation_result: Result<VcpuExit, i32>,
    error_text: Seq<char>,
    r: ExitOutcome,
) -> bool {
    match emulation_result {
        Ok(VcpuExit::MmioRead(addr, len)) => r == (ExitOutcome::Read {
            addr,
            len,
            bus: has_mmio_bus,
        }),
        Ok(VcpuExit::MmioWrite(addr, data)) => if has_mmio_bus {
            r == (ExitOutcome::Write { addr, data })
        } else {
            r == ExitOutcome::Done(VcpuEmulation::Handled)
        },
        Ok(VcpuExit::FailEntry(reason, cpu)) => {
            &&& r matches ExitOutcome::Failed(VcpuError::FaultyKvmExit(text))
            &&& text@ == fail_entry_text(reason, cpu)
        },
        Ok(VcpuExit::InternalError) => {
            &&& r matches ExitOutcome::Failed(VcpuError::FaultyKvmExit(text))
            &&& text@ == "InternalError"@
        },
        Ok(VcpuExit::SystemEvent(event_type, data)) => if event_type == KVM_SYSTEM_EVENT_RESET
            || event_type == KVM_SYSTEM_EVENT_SHUTDOWN {
            r == ExitOutcome::Done(VcpuEmulation::Stopped)
        } else {
            &&& r matches ExitOutcome::Failed(VcpuError::FaultyKvmExit(text))
            &&& text@ == system_event_text(event_type, data@)
        },
        Ok(VcpuExit::Arch) => r == ExitOutcome::Arch,
        Err(errno) => if errno == EAGAIN {
            r == ExitOutcome::Done(VcpuEmulation::Handled)
        } else if errno == ENOSYS {
            &&& r matches ExitOutcome::Failed(VcpuError::FaultyKvmExit(text))
            &&& text@
                == "Received ENOSYS error because KVM failed to emulate an instruction."@
        } else {
            &&& r matches ExitOutcome::Failed(VcpuError::FaultyKvmExit(text))
            &&& text@ == error_text
        },
    }
}

/// The text that `vmm_sys_util::errno::Error` gives for an error number when it is displayed. It is
/// the text of the host, with the number behind it. Nothing is claimed of it, because it depends on
/// the host.
#[verifier::external_body]
fn errno_text(errno: i32) -> (r: String) {
    format!("{}", vmm_sys_util::errno::Error::new(errno))
}

/// Decides what is to be done about an exit of the guest, or about the error of a run.
pub fn handle_kvm_exit(has_mmio_bus: bool, emulation_result: Result<VcpuExit, i32>) -> (r:
    ExitOutcome)
    ensures
        exists|error_text: Seq<char>| #[trigger]
            exit_handled(has_mmio_bus, emulation_result, error_text, r),
{
    let error_text = match &emulation_result {
        Ok(_) => String::new(),
        Err(errno) => errno_text(*errno),
    };
    let ghost text = error_text@;
    let outcome = exit_outcome(has_mmio_bus, emulation_result, error_text);
    assert(exit_handled(has_mmio_bus, emulation_result, text, outcome));
    outcome
}

/// Decides what is to be done about an exit of the guest, or about the error of a run of which the
/// host says `error_text`.
pub fn exit_outcome(
    has_mmio_bus: bool,
    emulation_result: Result<VcpuExit, i32>,
    error_text: String,
) -> (r: ExitOutcome)
    ensures
        exit_handled(has_mmio_bus, emulation_result, error_text@, r),
{
    match emulation_result {
        Ok(exit) => match exit {
            VcpuExit::MmioRead(addr, len) => ExitOutcome::Read { addr, len, bus: has_mmio_bus },
            VcpuExit::MmioWrite(addr, data) => {
                if has_mmio_bus {
                    ExitOutcome::Write { addr, data }
                } else {
                    ExitOutcome::Done(VcpuEmulation::Handled)
                }
            },
            VcpuExit::FailEntry(reason, cpu) => ExitOutcome::Failed(
                VcpuError::FaultyKvmExit(describe_fail_entry(reason, cpu)),
            ),
            VcpuExit::InternalError => ExitOutcome::Failed(
                VcpuError::FaultyKvmExit(String::from_str("InternalError")),
            ),
            VcpuExit::SystemEvent(event_type, data) => {
                if event_type == KVM_SYSTEM_EVENT_RESET || event_type == KVM_SYSTEM_EVENT_SHUTDOWN {
                    ExitOutcome::Done(VcpuEmulation::Stopped)
                } else {
                    ExitOutcome::Failed(
                        VcpuError::FaultyKvmExit(describe_system_event(event_type, &data)),
                    )
                }
            },
            VcpuExit::Arch => ExitOutcome::Arch,
        },
        Err(errno) => {
            if errno == EAGAIN {
                ExitOutcome::Done(VcpuEmulation::Handled)
            } else if errno == ENOSYS {
                ExitOutcome::Failed(
                    VcpuError::FaultyKvmExit(
                        String::from_str(
                            "Received ENOSYS error because KVM failed to emulate an instruction.",
                        ),
                    ),
                )
            } else {
                ExitOutcome::Failed(VcpuError::FaultyKvmExit(error_text))
            }
        },
    }
}

/// What a request to a vCPU that runs or is paused leads to: a pause or its end come about whatever
/// it does. Its state can be saved and its configuration dumped only while it is paused, and one
/// that runs goes on after it refused.
pub proof fn law_requests_lead_to_their_stage(stage: VcpuStage, immediate_exit: bool)
    requires
        stage == VcpuStage::Interrupted || stage == VcpuStage::Paused,
    ensures
        ({
            let after = |event: VcpuEvent|
                vcpu_step(stage, VcpuInput::Received(event), immediate_exit);
            let paused = stage == VcpuStage::Paused;
            let (pause, resume) = (after(VcpuEvent::Pause), after(VcpuEvent::Resume));
            let (save, dump) = (after(VcpuEvent::SaveState), after(VcpuEvent::DumpCpuConfig));
            &&& pause.0 == VcpuStage::Paused
            &&& pause.1.reply == Some(VcpuReply::Paused)
            &&& pause.1.kvmclock_ctrl <==> !paused
            &&& resume.0 == VcpuStage::Running
            &&& resume.1.reply == Some(VcpuReply::Resumed)
            &&& resume.1.clear_immediate_exit <==> paused && immediate_exit
            &&& save.0 == (if paused {
                VcpuStage::Paused
            } else {
                VcpuStage::Running
            })
            &&& save.1.reply == Some(
                if paused {
                    VcpuReply::SavedState
                } else {
                    VcpuReply::NotAllowed(NotAllowed::SaveState)
                },
            )
            &&& dump.0 == save.0
            &&& dump.1.reply == Some(
                if paused {
                    VcpuReply::DumpedCpuConfig
                } else {
                    VcpuReply::NotAllowed(NotAllowed::DumpCpuConfig)
                },
            )
        }),
{
}

/// A vCPU that runs goes on as long as what it does is handled, looks for requests when it is
/// interrupted, and ends with success when the guest stops it and with an error when it fails. It
/// tells the same code again to whoever asks, until it is finished.
pub proof fn law_a_running_vcpu_ends_with_its_code(immediate_exit: bool, event: VcpuEvent)
    requires
        event != VcpuEvent::Finish,
    ensures
        ({
            let running = |input: VcpuInput| vcpu_step(VcpuStage::Running, input, immediate_exit);
            let stopped = running(VcpuInput::Emulated(VcpuEmulation::Stopped));
            let failed = running(VcpuInput::Failed);
            &&& running(VcpuInput::Emulated(VcpuEmulation::Handled)).0 == VcpuStage::Running
            &&& running(VcpuInput::Emulated(VcpuEmulation::Interrupted)).0
                == VcpuStage::Interrupted
            &&& stopped.0 == VcpuStage::Exiting(FcExitCode::OK)
            &&& stopped.1.reply == Some(VcpuReply::Exited(FcExitCode::OK))
            &&& stopped.1.signal_exit
            &&& failed.0 == VcpuStage::Exiting(FcExitCode::GenericError)
            &&& failed.1.reply == Some(VcpuReply::Exited(FcExitCode::GenericError))
            &&& failed.1.signal_exit
            &&& vcpu_step(stopped.0, VcpuInput::Received(event), immediate_exit).1.reply == Some(
                VcpuReply::Exited(FcExitCode::OK),
            )
            &&& vcpu_step(failed.0, VcpuInput::Received(event), immediate_exit).1.reply == Some(
                VcpuReply::Exited(FcExitCode::GenericError),
            )
        }),
{
}

/// How exits of a vCPU are dealt with. Reads and writes go to the bus at their own address, with
/// their own data, and a write without a bus is lost. The guest stops the machine by system events
/// 1 and 2, and by no other. A vCPU that was only asked to try again (11) goes on, and any other
/// error ends it.
pub proof fn law_exits_are_dealt_with(
    has_mmio_bus: bool,
    result: Result<VcpuExit, i32>,
    error_text: Seq<char>,
    r: ExitOutcome,
)
    requires
        exit_handled(has_mmio_bus, result, error_text, r),
    ensures
        result matches Ok(VcpuExit::MmioRead(addr, len)) ==> r == (ExitOutcome::Read {
            addr,
            len,
            bus: has_mmio_bus,
        }),
        result matches Ok(VcpuExit::MmioWrite(addr, data)) ==> r == (if has_mmio_bus {
            ExitOutcome::Write { addr, data }
        } else {
            ExitOutcome::Done(VcpuEmulation::Handled)
        }),
        result matches Ok(VcpuExit::SystemEvent(event, data)) ==> (r == ExitOutcome::Done(
            VcpuEmulation::Stopped,
        ) <==> event == 1 || event == 2),
        result matches Ok(VcpuExit::SystemEvent(event, data)) ==> (r is Failed <==> event != 1
            && event != 2),
        result matches Ok(VcpuExit::FailEntry(reason, cpu)) ==> r is Failed,
        result matches Ok(VcpuExit::InternalError) ==> r is Failed,
        result matches Err(errno) ==> (r == ExitOutcome::Done(VcpuEmulation::Handled) <==> errno
            == 11),
        result matches Err(errno) ==> (r is Failed <==> errno != 11),
{
}

} // verus!
