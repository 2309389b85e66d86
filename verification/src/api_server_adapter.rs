//! The life of a process that serves the API and runs a machine.

use vstd::prelude::*;

use crate::rpc_interface::VmmAction;

verus! {

/// Why the process ends without success.
#[derive(Debug, Clone, Copy, PartialEq, Eq, Structural)]
pub enum ApiServerError {
    /// The machine cannot be built from requests.
    BuildMicroVmError,
    /// The machine stopped with an exit code other than zero.
    MicroVMStoppedWithError(u8),
    /// The API socket is in use.
    FailedToBindSocket,
    /// The API server cannot be started.
    FailedToBindAndRunHttpServer,
    /// The machine cannot be built from its configuration file.
    BuildFromJson,
    /// There is no system call filter for the machine.
    MissingSeccompFilter,
    /// The system call filter for the machine cannot be installed.
    SeccompFilter,
}

/// What the process does next.
#[derive(Debug, Clone, Copy, PartialEq, Eq, Structural)]
pub enum RunStep {
    /// Bind the API socket.
    Bind,
    /// Start the thread of the API.
    StartApiThread,
    /// Build the machine from its configuration file.
    BuildFromJson,
    /// Build the machine from requests.
    BuildFromRequests,
    /// Install the system call filter for the machine.
    ApplyFilter,
    /// Wait for an event of the machine or a request.
    RunMicrovm,
    /// Tell the thread of the API to end.
    StopApiThread,
    /// Wait for the end of the thread of the API.
    JoinApiThread,
    /// End the process.
    Done,
}

/// What came of a step.
#[derive(Debug, Clone, Copy, PartialEq, Eq, Structural)]
pub enum RunEvent {
    /// The step is done.
    Finished,
    /// The step failed.
    Failed,
    /// The step failed because the socket is in use.
    AddrInUse,
    /// An event was handled, and the machine has this exit code if it stopped.
    Handled(Option<u8>),
}

/// Where a process is.
#[derive(Debug, Clone, Copy, PartialEq, Eq, Structural)]
pub struct RunState {
    /// What the process does next.
    pub step: RunStep,
    /// Whether there is a configuration file.
    pub has_config: bool,
    /// Whether there is a system call filter for the machine.
    pub has_vmm_filter: bool,
    /// Why the process will end without success.
    pub error: Option<ApiServerError>,
}

/// The way to the end, by stopping the thread of the API.
pub open spec fn stopping(s: RunState, error: Option<ApiServerError>) -> RunState {
    RunState { step: RunStep::StopApiThread, error, ..s }
}

/// Where a process is after an event. Events that a step cannot have leave it where it is.
pub open spec fn run_next(s: RunState, e: RunEvent) -> RunState {
    match (s.step, e) {
        (RunStep::Bind, RunEvent::Finished) => RunState { step: RunStep::StartApiThread, ..s },
        (RunStep::Bind, RunEvent::AddrInUse) => RunState {
            step: RunStep::Done,
            error: Some(ApiServerError::FailedToBindSocket),
            ..s
        },
        (RunStep::Bind, RunEvent::Failed) => RunState {
            step: RunStep::Done,
            error: Some(ApiServerError::FailedToBindAndRunHttpServer),
            ..s
        },
        (RunStep::StartApiThread, RunEvent::Finished) => RunState {
            step: if s.has_config {
                RunStep::BuildFromJson
            } else {
                RunStep::BuildFromRequests
            },
            ..s
        },
        (RunStep::BuildFromJson, RunEvent::Failed) => stopping(
            s,
            Some(ApiServerError::BuildFromJson),
        ),
        (RunStep::BuildFromRequests, RunEvent::Failed) => stopping(
            s,
            Some(ApiServerError::BuildMicroVmError),
        ),
        (RunStep::BuildFromJson, RunEvent::Finished) => if s.has_vmm_filter {
            RunState { step: RunStep::ApplyFilter, ..s }
        } else {
            stopping(s, Some(ApiServerError::MissingSeccompFilter))
        },
        (RunStep::BuildFromRequests, RunEvent::Finished) => if s.has_vmm_filter {
            RunState { step: RunStep::ApplyFilter, ..s }
        } else {
            stopping(s, Some(ApiServerError::MissingSeccompFilter))
        },
        (RunStep::ApplyFilter, RunEvent::Finished) => RunState { step: RunStep::RunMicrovm, ..s },
        (RunStep::ApplyFilter, RunEvent::Failed) => stopping(
            s,
            Some(ApiServerError::SeccompFilter),
        ),
        (RunStep::RunMicrovm, RunEvent::Handled(Some(code))) => if code == 0 {
            stopping(s, None)
        } else {
            stopping(s, Some(ApiServerError::MicroVMStoppedWithError(code)))
        },
        (RunStep::StopApiThread, RunEvent::Finished) => RunState {
            step: RunStep::JoinApiThread,
            ..s
        },
        (RunStep::JoinApiThread, RunEvent::Finished) => RunState { step: RunStep::Done, ..s },
        _ => s,
    }
}

impl RunState {
    /// Where a process begins.
    pub fn run_with_api(has_config: bool, has_vmm_filter: bool) -> (r: RunState)
        ensures
            r == (RunState { step: RunStep::Bind, has_config, has_vmm_filter, error: None }),
    {
        RunState { step: RunStep::Bind, has_config, has_vmm_filter, error: None }
    }

    fn built(self) -> (r: RunState)
        ensures
            r == (if self.has_vmm_filter {
                RunState { step: RunStep::ApplyFilter, ..self }
            } else {
                stopping(self, Some(ApiServerError::MissingSeccompFilter))
            }),
    {
        if self.has_vmm_filter {
            RunState { step: RunStep::ApplyFilter, ..self }
        } else {
            self.stop(Some(ApiServerError::MissingSeccompFilter))
        }
    }

    fn stop(self, error: Option<ApiServerError>) -> (r: RunState)
        ensures
            r == stopping(self, error),
    {
        RunState { step: RunStep::StopApiThread, error, ..self }
    }

    /// Goes on after an event.
    pub fn next(self, e: RunEvent) -> (r: RunState)
        ensures
            r == run_next(self, e),
    {
        match (self.step, e) {
            (RunStep::Bind, RunEvent::Finished) => RunState {
                step: RunStep::StartApiThread,
                ..self
            },
            (RunStep::Bind, RunEvent::AddrInUse) => RunState {
                step: RunStep::Done,
                error: Some(ApiServerError::FailedToBindSocket),
                ..self
            },
            (RunStep::Bind, RunEvent::Failed) => RunState {
                step: RunStep::Done,
                error: Some(ApiServerError::FailedToBindAndRunHttpServer),
                ..self
            },
            (RunStep::StartApiThread, RunEvent::Finished) => RunState {
                step: if self.has_config {
                    RunStep::BuildFromJson
                } else {
                    RunStep::BuildFromRequests
                },
                ..self
            },
            (RunStep::BuildFromJson, RunEvent::Failed) => self.stop(
                Some(ApiServerError::BuildFromJson),
            ),
            (RunStep::BuildFromRequests, RunEvent::Failed) => self.stop(
                Some(ApiServerError::BuildMicroVmError),
            ),
            (RunStep::BuildFromJson, RunEvent::Finished) => self.built(),
            (RunStep::BuildFromRequests, RunEvent::Finished) => self.built(),
            // The filter is installed before the first event of the machine is handled.
            (RunStep::ApplyFilter, RunEvent::Finished) => RunState {
                step: RunStep::RunMicrovm,
                ..self
            },
            (RunStep::ApplyFilter, RunEvent::Failed) => self.stop(
                Some(ApiServerError::SeccompFilter),
            ),
            (RunStep::RunMicrovm, RunEvent::Handled(Some(code))) => if code == 0 {
                self.stop(None)
            } else {
                self.stop(Some(ApiServerError::MicroVMStoppedWithError(code)))
            },
            (RunStep::StopApiThread, RunEvent::Finished) => RunState {
                step: RunStep::JoinApiThread,
                ..self
            },
            (RunStep::JoinApiThread, RunEvent::Finished) => RunState {
                step: RunStep::Done,
                ..self
            },
            _ => self,
        }
    }

    /// With what the process ends, once it does.
    pub fn result(self) -> (r: Option<Result<(), ApiServerError>>)
        ensures
            r == (if self.step == RunStep::Done {
                Some(
                    match self.error {
                        Some(e) => Err(e),
                        None => Ok(()),
                    },
                )
            } else {
                None
            }),
    {
        if self.step == RunStep::Done {
            match self.error {
                Some(e) => Some(Err(e)),
                None => Some(Ok(())),
            }
        } else {
            None
        }
    }
}

/// The machine runs only after the system call filter is installed.
pub proof fn law_filter_before_machine(s: RunState, e: RunEvent)
    requires
        s.step != RunStep::RunMicrovm,
        run_next(s, e).step == RunStep::RunMicrovm,
    ensures
        s.step == RunStep::ApplyFilter,
        e == RunEvent::Finished,
{
}

/// A filter is installed only where there is one.
pub proof fn law_no_machine_without_filter(s: RunState, e: RunEvent)
    requires
        s.step == RunStep::ApplyFilter || s.step == RunStep::RunMicrovm ==> s.has_vmm_filter,
    ensures
        run_next(s, e).step == RunStep::ApplyFilter || run_next(s, e).step == RunStep::RunMicrovm
            ==> run_next(s, e).has_vmm_filter,
{
}

/// Once the thread of the API is started, the process ends only after it waited for that thread.
pub proof fn law_api_thread_is_joined(s: RunState, e: RunEvent)
    requires
        s.step != RunStep::Bind,
        s.step != RunStep::Done,
        run_next(s, e).step == RunStep::Done,
    ensures
        s.step == RunStep::JoinApiThread,
{
}

/// The process succeeds only if the machine stopped with exit code zero.
pub proof fn law_success_means_exit_code_zero(s: RunState, e: RunEvent)
    requires
        s.step != RunStep::StopApiThread,
        run_next(s, e).step == RunStep::StopApiThread,
        run_next(s, e).error is None,
    ensures
        s.step == RunStep::RunMicrovm,
        e == RunEvent::Handled(Some(0)),
{
}

/// What is received when there is notice of a request.
#[derive(Debug)]
pub enum Received {
    /// A request.
    Request(Box<VmmAction>),
    /// Nothing.
    Nothing,
}

/// The side of the machine of the exchange with the thread of the API.
#[derive(Debug)]
pub struct ApiServerAdapter {
    /// A request that waits.
    pub request: Option<Box<VmmAction>>,
    /// Whether only requests are handled, because the machine is paused.
    pub paused: bool,
}

/// What is to be done for a request.
#[derive(Debug)]
pub enum AdapterStep {
    /// Nothing waits.
    Idle,
    /// Hand the request to the machine and send its answer back.
    Handle(Box<VmmAction>),
}

impl ApiServerAdapter {
    /// Nothing waits, and the machine runs.
    pub fn new() -> (r: ApiServerAdapter)
        ensures
            r.request is None,
            !r.paused,
    {
        ApiServerAdapter { request: None, paused: false }
    }

    /// Takes notice of an event. It counts only if it comes from the thread of the API and something
    /// can be read.
    pub fn process(&mut self, from_api: bool, readable: bool, received: Received)
        ensures
            final(self).paused == old(self).paused,
            final(self).request == (if from_api && readable {
                match received {
                    Received::Request(action) => Some(action),
                    Received::Nothing => old(self).request,
                }
            } else {
                old(self).request
            }),
    {
        if from_api && readable {
            match received {
                Received::Request(action) => {
                    self.request = Some(action);
                },
                Received::Nothing => {},
            }
        }
    }

    /// Takes the request that waits. A request to pause lets only requests be handled from then on,
    /// until there is one to resume.
    pub fn handle_request(&mut self) -> (r: AdapterStep)
        ensures
            final(self).request is None,
            match old(self).request {
                None => r is Idle && final(self).paused == old(self).paused,
                Some(action) => {
                    &&& r == AdapterStep::Handle(action)
                    &&& final(self).paused == next_paused(old(self).paused, *action)
                },
            },
    {
        match self.request.take() {
            None => AdapterStep::Idle,
            Some(action) => {
                let is_pause: bool = match *action {
                    VmmAction::Pause => true,
                    _ => false,
                };
                let is_resume: bool = match *action {
                    VmmAction::Resume => true,
                    _ => false,
                };
                if self.paused {
                    self.paused = !is_resume;
                } else {
                    self.paused = is_pause;
                }
                AdapterStep::Handle(action)
            },
        }
    }
}

/// Whether only requests are handled after a request.
pub open spec fn next_paused(paused: bool, action: VmmAction) -> bool {
    if paused {
        !(action is Resume)
    } else {
        action is Pause
    }
}

/// Only a request to resume ends the time in which only requests are handled.
pub proof fn law_only_resume_ends_pause(action: VmmAction)
    ensures
        !next_paused(true, action) <==> action is Resume,
        next_paused(false, action) <==> action is Pause,
{
}

/// How a machine is brought up and down: the socket is bound, the API thread is started, the machine
/// is built from its configuration or from requests, the filter is applied and the machine runs.
/// When it stops, the API thread is stopped and joined.
pub proof fn law_order_of_a_run(s: RunState)
    requires
        s.has_vmm_filter,
    ensures
        ({
            let next = run_next(s, RunEvent::Finished).step;
            &&& s.step == RunStep::Bind ==> next == RunStep::StartApiThread
            &&& s.step == RunStep::StartApiThread ==> next == (if s.has_config {
                RunStep::BuildFromJson
            } else {
                RunStep::BuildFromRequests
            })
            &&& s.step == RunStep::BuildFromJson ==> next == RunStep::ApplyFilter
            &&& s.step == RunStep::BuildFromRequests ==> next == RunStep::ApplyFilter
            &&& s.step == RunStep::ApplyFilter ==> next == RunStep::RunMicrovm
            &&& s.step == RunStep::StopApiThread ==> next == RunStep::JoinApiThread
            &&& s.step == RunStep::JoinApiThread ==> next == RunStep::Done
        }),
        s.step == RunStep::RunMicrovm ==> run_next(s, RunEvent::Handled(None)) == s,
        s.step == RunStep::RunMicrovm ==> run_next(s, RunEvent::Handled(Some(0))).step
            == RunStep::StopApiThread,
{
}

/// What goes wrong is told in the end: a run that fails at a step ends with the error of that step,
/// and a machine that stops with a code other than zero ends the run with that code.
pub proof fn law_failures_are_told(s: RunState, code: u8)
    requires
        code != 0,
    ensures
        ({
            let failed = run_next(s, RunEvent::Failed);
            &&& s.step == RunStep::Bind ==> failed.error == Some(
                ApiServerError::FailedToBindAndRunHttpServer,
            ) && failed.step == RunStep::Done
            &&& s.step == RunStep::Bind ==> run_next(s, RunEvent::AddrInUse).error == Some(
                ApiServerError::FailedToBindSocket,
            )
            &&& s.step == RunStep::BuildFromJson ==> failed.error == Some(
                ApiServerError::BuildFromJson,
            ) && failed.step == RunStep::StopApiThread
            &&& s.step == RunStep::BuildFromRequests ==> failed.error == Some(
                ApiServerError::BuildMicroVmError,
            ) && failed.step == RunStep::StopApiThread
            &&& s.step == RunStep::ApplyFilter ==> failed.error == Some(
                ApiServerError::SeccompFilter,
            ) && failed.step == RunStep::StopApiThread
            &&& s.step == RunStep::RunMicrovm ==> run_next(
                s,
                RunEvent::Handled(Some(code)),
            ).error == Some(ApiServerError::MicroVMStoppedWithError(code))
        }),
{
}

} // verus!
