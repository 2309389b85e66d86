//! Requests that save, restore, pause and resume the machine.

use vstd::prelude::*;

use crate::api_server::parsed_request::{
    BodyFormat, ParsedRequest, RequestAction, RequestError, RequestErrorView, Route,
};
use crate::http::{Method, StatusCode};
use crate::rpc_interface::VmmAction;
use crate::utils::text::{join2, same};
use crate::vmm_config::snapshot::{
    CreateSnapshotParams, LoadSnapshotConfig, LoadSnapshotParams, MemBackendConfig, MemBackendType,
    VmState,
};

verus! {

/// Said when a machine is restored by way of deprecated fields.
pub open spec fn load_deprecation_message() -> Seq<char> {
    "PUT /snapshot/load: mem_file_path and enable_diff_snapshots fields are deprecated."@
}

/// Said when it is not told where the memory is given back from.
pub open spec fn missing_field() -> Seq<char> {
    "missing field: either `mem_backend` or `mem_file_path` is required"@
}

/// Said when it is told twice where the memory is given back from.
pub open spec fn too_many_fields() -> Seq<char> {
    "too many fields: either `mem_backend` or `mem_file_path` exclusively is required"@
}

/// Where a request on a saved machine leads, by what follows in the path.
pub open spec fn put_snapshot_route(operation: Option<Seq<char>>) -> Result<
    Route,
    RequestErrorView,
> {
    match operation {
        Some(op) => if op == "create"@ {
            Ok(Route::Body(BodyFormat::SnapshotCreate))
        } else if op == "load"@ {
            Ok(Route::Body(BodyFormat::SnapshotLoad))
        } else {
            Err(RequestErrorView::InvalidPathMethod("/snapshot/"@ + op, Method::Put))
        },
        None => Err(
            RequestErrorView::Generic(
                StatusCode::BadRequest,
                "Missing snapshot operation type."@,
            ),
        ),
    }
}

/// Tells where a request on a saved machine leads, by what follows in the path.
pub fn parse_put_snapshot(request_type_from_path: Option<&str>) -> (r: Result<Route, RequestError>)
    ensures
        ({
            let operation = match request_type_from_path {
                Some(op) => Some(op@),
                None => None,
            };
            match r {
                Ok(route) => put_snapshot_route(operation) == Ok::<Route, RequestErrorView>(route),
                Err(e) => put_snapshot_route(operation) == Err::<Route, RequestErrorView>(e@),
            }
        }),
{
    match request_type_from_path {
        Some(request_type) => {
            if same(request_type, "create") {
                return Ok(Route::Body(BodyFormat::SnapshotCreate));
            }
            if same(request_type, "load") {
                return Ok(Route::Body(BodyFormat::SnapshotLoad));
            }
            Err(RequestError::InvalidPathMethod(join2("/snapshot/", request_type), Method::Put))
        },
        None => Err(
            RequestError::Generic(
                StatusCode::BadRequest,
                String::from_str("Missing snapshot operation type."),
            ),
        ),
    }
}

/// The request that pauses or resumes the machine.
pub fn parse_patch_vm_state(state: VmState) -> (r: ParsedRequest)
    ensures
        state == VmState::Paused ==> r.is_plain(VmmAction::Pause),
        state == VmState::Resumed ==> r.is_plain(VmmAction::Resume),
{
    match state {
        VmState::Paused => ParsedRequest::new_sync(VmmAction::Pause),
        VmState::Resumed => ParsedRequest::new_sync(VmmAction::Resume),
    }
}

/// The request that saves the machine.
pub fn parse_put_snapshot_create(config: CreateSnapshotParams) -> (r: ParsedRequest)
    ensures
        r.is_plain(VmmAction::CreateSnapshot(config)),
{
    ParsedRequest::new_sync(VmmAction::CreateSnapshot(config))
}

/// Where the memory is given back from, if the request says so exactly once.
pub open spec fn backend_of(config: LoadSnapshotConfig) -> MemBackendConfig {
    match config.mem_backend {
        Some(backend) => backend,
        None => MemBackendConfig {
            backend_path: config.mem_file_path->Some_0,
            backend_type: MemBackendType::File,
        },
    }
}

/// What is asked for by a request to restore a machine.
pub open spec fn load_params(config: LoadSnapshotConfig) -> LoadSnapshotParams {
    LoadSnapshotParams {
        snapshot_path: config.snapshot_path,
        mem_backend: backend_of(config),
        track_dirty_pages: config.enable_diff_snapshots || config.track_dirty_pages,
        resume_vm: config.resume_vm,
        network_overrides: config.network_overrides,
        vsock_override: config.vsock_override,
        clock_realtime: config.clock_realtime,
    }
}

/// The request that restores the machine. Exactly one field says where the memory is given back
/// from.
pub fn parse_put_snapshot_load(config: LoadSnapshotConfig) -> (r: Result<
    ParsedRequest,
    RequestError,
>)
    ensures
        config.mem_backend is Some && config.mem_file_path is Some ==> r is Err && r->Err_0@
            == RequestErrorView::SerdeJson(too_many_fields()),
        config.mem_backend is None && config.mem_file_path is None ==> r is Err && r->Err_0@
            == RequestErrorView::SerdeJson(missing_field()),
        config.mem_backend is Some != config.mem_file_path is Some ==> {
            &&& r is Ok
            &&& r->Ok_0.action == RequestAction::Sync(
                Box::new(VmmAction::LoadSnapshot(load_params(config))),
            )
            &&& r->Ok_0.parsing_info.message() == (if config.mem_file_path is Some
                || config.enable_diff_snapshots {
                Some(load_deprecation_message())
            } else {
                None
            })
        },
{
    if config.mem_backend.is_some() && config.mem_file_path.is_some() {
        return Err(
            RequestError::SerdeJson(
                String::from_str(
                    "too many fields: either `mem_backend` or `mem_file_path` exclusively is required",
                ),
            ),
        );
    }
    if config.mem_backend.is_none() && config.mem_file_path.is_none() {
        return Err(
            RequestError::SerdeJson(
                String::from_str(
                    "missing field: either `mem_backend` or `mem_file_path` is required",
                ),
            ),
        );
    }
    let deprecated: bool = config.mem_file_path.is_some() || config.enable_diff_snapshots;
    let mem_backend = match config.mem_backend {
        Some(backend) => backend,
        None => MemBackendConfig {
            backend_path: config.mem_file_path.unwrap(),
            backend_type: MemBackendType::File,
        },
    };
    let params = LoadSnapshotParams {
        snapshot_path: config.snapshot_path,
        mem_backend,
        track_dirty_pages: config.enable_diff_snapshots || config.track_dirty_pages,
        resume_vm: config.resume_vm,
        network_overrides: config.network_overrides,
        vsock_override: config.vsock_override,
        clock_realtime: config.clock_realtime,
    };
    let mut parsed = ParsedRequest::new_sync(VmmAction::LoadSnapshot(params));
    if deprecated {
        parsed.parsing_info.append_deprecation_message(
            "PUT /snapshot/load: mem_file_path and enable_diff_snapshots fields are deprecated.",
        );
    }
    Ok(parsed)
}

/// What is restored is what the request names. Memory comes from the backend that it gives, or from
/// the file that it gives in place of one. Pages are noted if either of the two fields for it says so.
pub proof fn law_requests_to_restore(config: LoadSnapshotConfig)
    requires
        config.mem_backend is Some || config.mem_file_path is Some,
    ensures
        ({
            let params = load_params(config);
            &&& params.snapshot_path == config.snapshot_path
            &&& config.mem_backend matches Some(backend) ==> params.mem_backend == backend
            &&& config.mem_backend is None ==> params.mem_backend.backend_type
                == MemBackendType::File && Some(params.mem_backend.backend_path)
                == config.mem_file_path
            &&& params.track_dirty_pages <==> config.track_dirty_pages
                || config.enable_diff_snapshots
            &&& params.resume_vm == config.resume_vm
            &&& params.network_overrides == config.network_overrides
            &&& params.vsock_override == config.vsock_override
            &&& params.clock_realtime == config.clock_realtime
        }),
{
}

} // verus!
