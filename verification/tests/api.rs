use vmm::api_server::parsed_request::{
    bodyless_action, checked_id, json_fault_message, method_to_error, resource_id, route,
    BodyFormat, ParsedRequest, ParsingInfo, RequestAction, RequestError, Route,
};
use vmm::api_server::request::balloon::{
    parse_put_balloon, start_hinting, update_balloon, update_balloon_statistics,
};
use vmm::api_server::request::hotplug::memory::{
    parse_get_memory_hotplug, parse_patch_memory_hotplug, parse_put_memory_hotplug,
};
use vmm::api_server::request::logger::parse_put_logger;
use vmm::api_server::request::snapshot::{
    parse_patch_vm_state, parse_put_snapshot, parse_put_snapshot_create, parse_put_snapshot_load,
};
use vmm::api_server::server::{answer, refuse};
use vmm::api_server_adapter::{
    AdapterStep, ApiServerAdapter, ApiServerError, Received, RunEvent, RunState, RunStep,
};
use vmm::devices::virtio::balloon::device::{BalloonConfig, StartHintingCmd};
use vmm::http::{Method, StatusCode};
use vmm::rpc_interface::{
    BalloonUpdateConfig, BalloonUpdateStatsConfig, VmmAction, VmmActionError, VmmData,
};
use vmm::vmm_config::logger::{LevelFilter, LoggerConfig};
use vmm::vmm_config::memory_hotplug::{MemoryHotplugConfig, MemoryHotplugSizeUpdate};
use vmm::vmm_config::snapshot::{
    CreateSnapshotParams, LoadSnapshotConfig, MemBackendConfig, MemBackendType, SnapshotType,
    VmState,
};

fn text(s: &str) -> String {
    String::from(s)
}

fn action(r: ParsedRequest) -> VmmAction {
    let (RequestAction::Sync(a), _) = r.into_parts();
    *a
}

#[test]
fn requests_without_a_body_are_routed() {
    assert!(matches!(route(Method::Get, "/", None), Ok(Route::GetInstanceInfo)));
    assert!(matches!(route(Method::Get, "/version", None), Ok(Route::GetVersion)));
    assert!(matches!(route(Method::Get, "/version/", None), Ok(Route::GetVersion)));
    assert!(matches!(route(Method::Get, "/balloon/", None), Ok(Route::GetBalloonConfig)));
    assert!(route(Method::Get, "/balloon//", None).is_err());
    assert!(route(Method::Patch, "/drives/a", None).is_err());
    assert!(route(Method::Patch, "/balloon", None).is_err());
    assert!(matches!(
        route(Method::Patch, "/balloon/hinting/stop", None),
        Ok(Route::StopHinting)
    ));
    assert!(matches!(route(Method::Get, "/vm/config", None), Ok(Route::GetFullVmConfig)));
    assert!(matches!(route(Method::Get, "/machine-config", None), Ok(Route::GetMachineConfig)));
    assert!(matches!(route(Method::Get, "/mmds", None), Ok(Route::GetMmds)));
    assert!(matches!(route(Method::Get, "/balloon", None), Ok(Route::GetBalloonConfig)));
    assert!(matches!(route(Method::Get, "/balloon/statistics", None), Ok(Route::GetBalloonStats)));
    assert!(matches!(route(Method::Get, "/hotplug/memory", None), Ok(Route::GetMemoryHotplug)));
}

#[test]
fn requests_with_a_body_are_routed() {
    assert!(matches!(
        route(Method::Put, "/actions", Some(3)),
        Ok(Route::Body(BodyFormat::Actions))
    ));
    assert!(matches!(
        route(Method::Put, "/drives/root", Some(3)),
        Ok(Route::Body(BodyFormat::Drive))
    ));
    assert!(matches!(
        route(Method::Patch, "/drives/root", Some(3)),
        Ok(Route::Body(BodyFormat::DriveUpdate))
    ));
    assert!(matches!(
        route(Method::Put, "/snapshot/create", Some(3)),
        Ok(Route::Body(BodyFormat::SnapshotCreate))
    ));
    assert!(matches!(
        route(Method::Patch, "/balloon/statistics", Some(3)),
        Ok(Route::Body(BodyFormat::BalloonStatistics))
    ));
    assert!(matches!(
        route(Method::Put, "/network-interfaces/eth0", Some(3)),
        Ok(Route::Body(BodyFormat::Net))
    ));
}

#[test]
fn wrong_requests_are_refused() {
    assert!(matches!(
        route(Method::Get, "/nothing", None),
        Err(RequestError::InvalidPathMethod(p, Method::Get)) if p == "nothing"
    ));
    assert!(matches!(
        route(Method::Get, "/version", Some(2)),
        Err(RequestError::Generic(StatusCode::BadRequest, _))
    ));
    assert!(matches!(
        route(Method::Put, "/actions", None),
        Err(RequestError::Generic(StatusCode::BadRequest, _))
    ));
    assert!(matches!(
        method_to_error(Method::Patch),
        RequestError::Generic(StatusCode::BadRequest, _)
    ));
}

#[test]
fn identifiers_are_checked() {
    assert!(matches!(checked_id("root_1"), Ok("root_1")));
    assert!(matches!(checked_id(""), Err(RequestError::EmptyID)));
    assert!(matches!(checked_id("a-b"), Err(RequestError::InvalidID)));
    assert!(checked_id("\u{e9}9").is_ok());
    assert_eq!(resource_id("/drives/root"), Some(text("root")));
}

#[test]
fn errors_are_spelled_out() {
    assert_eq!(RequestError::EmptyID.message(), "The ID cannot be empty.");
    assert_eq!(
        RequestError::InvalidID.message(),
        "API Resource IDs can only contain alphanumeric characters and underscores."
    );
    assert_eq!(
        RequestError::InvalidPathMethod(text("foo"), Method::Put).message(),
        "Invalid request method and/or path: PUT foo."
    );
    assert_eq!(
        RequestError::SerdeJson(text("x")).message(),
        "An error occurred when deserializing the json body of a request: x."
    );
    assert_eq!(
        json_fault_message("a \"b\""),
        "{\"fault_message\":\"a \\\"b\\\"\"}"
    );
    let r = refuse(RequestError::EmptyID);
    assert_eq!(r.status, StatusCode::BadRequest);
    assert_eq!(
        r.body,
        Some(text("{\"fault_message\":\"The ID cannot be empty.\"}"))
    );
}

#[test]
fn outcomes_become_responses() {
    let r = ParsedRequest::convert_to_response(&Ok(VmmData::Empty));
    assert_eq!(r.status, StatusCode::NoContent);
    assert_eq!(r.body, None);
    let r = ParsedRequest::convert_to_response(&Ok(VmmData::VmmVersion(text("1.0"))));
    assert_eq!(r.status, StatusCode::OK);
    assert_eq!(r.body, Some(text("{\"firecracker_version\":\"1.0\"}")));
    let r = ParsedRequest::convert_to_response(&Err(VmmActionError::MmdsLimitExceeded(text("x"))));
    assert_eq!(r.status, StatusCode::PayloadTooLarge);
    let r = ParsedRequest::convert_to_response(&Err(VmmActionError::Refused(text("x"))));
    assert_eq!(r.status, StatusCode::BadRequest);
    let r = ParsedRequest::convert_to_response(&Ok(VmmData::MmdsValue(None)));
    assert_eq!(r.status, StatusCode::OK);
    assert_eq!(r.body, Some(text("{}")));
}

#[test]
fn deprecations_are_marked() {
    let mut info = ParsingInfo { deprecation_message: None };
    info.append_deprecation_message("old");
    info.append_deprecation_message("older");
    let (r, log) = answer(info, &Ok(VmmData::Empty));
    assert!(r.deprecation);
    assert!(log.unwrap().contains("older"));
    let (r, log) = answer(ParsingInfo { deprecation_message: None }, &Ok(VmmData::Empty));
    assert!(!r.deprecation);
    assert_eq!(log, None);
}

#[test]
fn bodies_become_actions() {
    assert!(matches!(
        action(parse_put_balloon(BalloonConfig {
            amount_mib: 1,
            deflate_on_oom: false,
            stats_polling_interval_s: 0,
            free_page_hinting: false,
            free_page_reporting: false,
        })),
        VmmAction::SetBalloonDevice(c) if c.amount_mib == 1
    ));
    assert!(matches!(
        action(update_balloon(BalloonUpdateConfig { amount_mib: 4 })),
        VmmAction::UpdateBalloon(c) if c.amount_mib == 4
    ));
    assert!(matches!(
        action(update_balloon_statistics(BalloonUpdateStatsConfig {
            stats_polling_interval_s: 2
        })),
        VmmAction::UpdateBalloonStatistics(c) if c.stats_polling_interval_s == 2
    ));
    assert!(matches!(
        action(start_hinting(None)),
        VmmAction::StartFreePageHinting(StartHintingCmd { acknowledge_on_stop: true })
    ));
    assert!(matches!(
        action(start_hinting(Some(StartHintingCmd { acknowledge_on_stop: false }))),
        VmmAction::StartFreePageHinting(StartHintingCmd { acknowledge_on_stop: false })
    ));
    assert!(matches!(action(parse_get_memory_hotplug()), VmmAction::GetMemoryHotplugStatus));
    assert!(matches!(
        action(parse_put_memory_hotplug(MemoryHotplugConfig {
            total_size_mib: 1,
            block_size_mib: 2,
            slot_size_mib: 3,
        })),
        VmmAction::SetMemoryHotplugDevice(_)
    ));
    assert!(matches!(
        action(parse_patch_memory_hotplug(MemoryHotplugSizeUpdate { requested_size_mib: 5 })),
        VmmAction::UpdateMemoryHotplugSize(_)
    ));
    assert!(matches!(action(parse_patch_vm_state(VmState::Paused)), VmmAction::Pause));
    assert!(matches!(action(parse_patch_vm_state(VmState::Resumed)), VmmAction::Resume));
    assert!(matches!(
        action(bodyless_action(Route::GetVersion).unwrap()),
        VmmAction::GetVmmVersion
    ));
    assert!(bodyless_action(Route::Body(BodyFormat::Vsock)).is_none());
}

fn load(file: Option<&str>, backend: bool) -> LoadSnapshotConfig {
    LoadSnapshotConfig {
        snapshot_path: text("/s"),
        mem_backend: if backend {
            Some(MemBackendConfig {
                backend_path: text("/m"),
                backend_type: MemBackendType::Uffd,
            })
        } else {
            None
        },
        mem_file_path: file.map(text),
        enable_diff_snapshots: false,
        track_dirty_pages: false,
        resume_vm: true,
        network_overrides: Vec::new(),
        vsock_override: None,
        clock_realtime: false,
    }
}

#[test]
fn a_snapshot_has_one_backend() {
    let mut r = parse_put_snapshot_load(load(Some("/f"), false)).unwrap();
    assert!(r.parsing_info().take_deprecation_message().is_some());
    match action(r) {
        VmmAction::LoadSnapshot(p) => {
            assert_eq!(p.mem_backend.backend_path, "/f");
            assert_eq!(p.mem_backend.backend_type, MemBackendType::File);
            assert!(p.resume_vm);
        }
        _ => panic!("a snapshot is loaded"),
    }
    let mut r = parse_put_snapshot_load(load(None, true)).unwrap();
    assert!(r.parsing_info().take_deprecation_message().is_none());
    assert!(matches!(
        parse_put_snapshot_load(load(None, false)),
        Err(RequestError::SerdeJson(_))
    ));
    assert!(matches!(
        parse_put_snapshot_load(load(Some("/f"), true)),
        Err(RequestError::SerdeJson(_))
    ));
    assert!(matches!(
        action(parse_put_snapshot_create(CreateSnapshotParams {
            snapshot_type: SnapshotType::Full,
            snapshot_path: text("/s"),
            mem_file_path: text("/m"),
        })),
        VmmAction::CreateSnapshot(_)
    ));
    assert!(matches!(
        parse_put_snapshot(Some("load")),
        Ok(Route::Body(BodyFormat::SnapshotLoad))
    ));
    assert!(matches!(
        parse_put_snapshot(Some("x")),
        Err(RequestError::InvalidPathMethod(_, Method::Put))
    ));
    assert!(matches!(
        parse_put_snapshot(None),
        Err(RequestError::Generic(StatusCode::BadRequest, _))
    ));
}

#[test]
fn the_server_runs_and_stops() {
    let mut s = RunState::run_with_api(false, true);
    assert_eq!(s.step, RunStep::Bind);
    for _ in 0..20 {
        if s.step == RunStep::RunMicrovm || s.step == RunStep::Done {
            break;
        }
        s = s.next(RunEvent::Finished);
    }
    assert_eq!(s.step, RunStep::RunMicrovm);
    s = s.next(RunEvent::Handled(None));
    assert_eq!(s.step, RunStep::RunMicrovm);
    s = s.next(RunEvent::Handled(Some(0)));
    for _ in 0..20 {
        s = s.next(RunEvent::Finished);
    }
    assert!(matches!(s.result(), Some(Ok(()))));
    let s = RunState::run_with_api(false, true).next(RunEvent::AddrInUse);
    assert!(matches!(s.result(), Some(Err(ApiServerError::FailedToBindSocket))));
}

#[test]
fn one_request_is_handled_at_a_time() {
    let mut a = ApiServerAdapter::new();
    assert!(matches!(a.handle_request(), AdapterStep::Idle));
    a.process(true, true, Received::Request(Box::new(VmmAction::GetVmmVersion)));
    match a.handle_request() {
        AdapterStep::Handle(action) => assert!(matches!(*action, VmmAction::GetVmmVersion)),
        AdapterStep::Idle => panic!("there is a request"),
    }
    a.process(false, true, Received::Nothing);
    assert!(matches!(a.handle_request(), AdapterStep::Idle));
}

#[test]
fn the_logger_is_configured() {
    let config = LoggerConfig {
        log_path: Some(text("/log")),
        level: Some(LevelFilter::Warn),
        show_level: Some(true),
        show_log_origin: None,
        module: None,
    };
    assert!(matches!(
        action(parse_put_logger(config)),
        VmmAction::ConfigureLogger(c)
            if c.log_path.as_deref() == Some("/log") && c.level == Some(LevelFilter::Warn)
    ));
}
