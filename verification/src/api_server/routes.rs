//! Which method and path lead where.

use vstd::prelude::*;

use crate::api_server::parsed_request::{
    bodyless, routed_uri, BodyFormat, ParsedRequest, RequestAction, RequestErrorView, Route,
};
use crate::devices::virtio::balloon::device::StartHintingCmd;
use crate::devices::virtio::device::VirtioDeviceType;
use crate::http::{Method, StatusCode};
use crate::rpc_interface::VmmAction;
use crate::utils::text::{after_slashes, pieces};

verus! {

/// A piece of a path, or nothing if there are not so many.
pub open spec fn piece(uri: Seq<char>, i: int) -> Option<Seq<char>> {
    let all = pieces(after_slashes(uri));
    if 0 <= i < all.len() {
        Some(all[i])
    } else {
        None
    }
}

/// Whether a path has a given piece at some place.
pub open spec fn has_piece(uri: Seq<char>, i: int, text: Seq<char>) -> bool {
    piece(uri, i) == Some(text)
}

/// Whether a request leads to a route.
pub open spec fn leads_to(method: Method, uri: Seq<char>, body: Option<usize>, route: Route) -> bool {
    routed_uri(method, uri, body) == Ok::<Route, RequestErrorView>(route)
}

/// The lengths and the first letters of the first pieces of paths that lead somewhere, which no two
/// of them share.
proof fn lemma_first_pieces()
    ensures
        "actions"@.len() == 7 && "actions"@[0] == 'a',
        "balloon"@.len() == 7 && "balloon"@[0] == 'b',
        "boot-source"@.len() == 11 && "boot-source"@[0] == 'b',
        "cpu-config"@.len() == 10 && "cpu-config"@[0] == 'c',
        "drives"@.len() == 6 && "drives"@[0] == 'd',
        "pmem"@.len() == 4 && "pmem"@[0] == 'p',
        "logger"@.len() == 6 && "logger"@[0] == 'l',
        "serial"@.len() == 6 && "serial"@[0] == 's',
        "machine-config"@.len() == 14 && "machine-config"@[0] == 'm',
        "metrics"@.len() == 7 && "metrics"@[0] == 'm',
        "mmds"@.len() == 4 && "mmds"@[0] == 'm',
        "network-interfaces"@.len() == 18 && "network-interfaces"@[0] == 'n',
        "vsock"@.len() == 5 && "vsock"@[0] == 'v',
        "entropy"@.len() == 7 && "entropy"@[0] == 'e',
        "snapshot"@.len() == 8 && "snapshot"@[0] == 's',
        "hotplug"@.len() == 7 && "hotplug"@[0] == 'h',
        "vm"@.len() == 2 && "vm"@[0] == 'v',
        "version"@.len() == 7 && "version"@[0] == 'v',
        ""@.len() == 0,
{
    reveal_strlit("actions");
    reveal_strlit("balloon");
    reveal_strlit("boot-source");
    reveal_strlit("cpu-config");
    reveal_strlit("drives");
    reveal_strlit("pmem");
    reveal_strlit("logger");
    reveal_strlit("serial");
    reveal_strlit("machine-config");
    reveal_strlit("metrics");
    reveal_strlit("mmds");
    reveal_strlit("network-interfaces");
    reveal_strlit("vsock");
    reveal_strlit("entropy");
    reveal_strlit("snapshot");
    reveal_strlit("hotplug");
    reveal_strlit("vm");
    reveal_strlit("version");
    reveal_strlit("");
}

/// The lengths of further pieces of paths.
proof fn lemma_second_pieces()
    ensures
        "statistics"@.len() == 10,
        "hinting"@.len() == 7,
        "create"@.len() == 6,
        "load"@.len() == 4,
        "start"@.len() == 5,
        "stop"@.len() == 4,
{
    reveal_strlit("statistics");
    reveal_strlit("hinting");
    reveal_strlit("create");
    reveal_strlit("load");
    reveal_strlit("start");
    reveal_strlit("stop");
}

/// A path is its pieces with slashes before them, as long as they are not empty and hold none.
pub proof fn law_paths_are_made_of_pieces(a: Seq<char>, b: Seq<char>)
    requires
        a.len() > 0,
        b.len() > 0,
        !a.contains('/'),
        !b.contains('/'),
    ensures
        has_piece(seq!['/'] + a, 0, a),
        piece(seq!['/'] + a, 1) is None,
        has_piece(seq!['/'] + a + seq!['/'] + b, 0, a),
        has_piece(seq!['/'] + a + seq!['/'] + b, 1, b),
        piece(seq!['/'] + a + seq!['/'] + b, 2) is None,
        piece(seq!['/'], 0) is None,
{
    crate::utils::text::law_pieces_stand_between_slashes(a, b);
    crate::utils::text::law_leading_slashes_do_not_count(a);
    crate::utils::text::law_leading_slashes_do_not_count(a + seq!['/'] + b);
    assert(seq!['/'] + a + seq!['/'] + b =~= seq!['/'] + (a + seq!['/'] + b));
    let nothing = Seq::<char>::empty();
    crate::utils::text::law_leading_slashes_do_not_count(nothing);
    assert(seq!['/'] + nothing =~= seq!['/']);
    assert(after_slashes(nothing) == nothing);
}

/// Each thing that can be set has a path of its own: the body of a request that sets something is
/// read in a format exactly when its path begins as stated here.
pub proof fn law_each_setting_has_its_path(uri: Seq<char>, n: usize)
    ensures
        leads_to(Method::Put, uri, Some(n), Route::Body(BodyFormat::Actions)) <==> has_piece(uri, 0, "actions"@),
        leads_to(Method::Put, uri, Some(n), Route::Body(BodyFormat::Balloon)) <==> has_piece(uri, 0, "balloon"@),
        leads_to(Method::Put, uri, Some(n), Route::Body(BodyFormat::BootSource)) <==> has_piece(uri, 0, "boot-source"@),
        leads_to(Method::Put, uri, Some(n), Route::Body(BodyFormat::CpuConfig)) <==> has_piece(uri, 0, "cpu-config"@),
        leads_to(Method::Put, uri, Some(n), Route::Body(BodyFormat::Drive)) <==> has_piece(uri, 0, "drives"@),
        leads_to(Method::Put, uri, Some(n), Route::Body(BodyFormat::Pmem)) <==> has_piece(uri, 0, "pmem"@),
        leads_to(Method::Put, uri, Some(n), Route::Body(BodyFormat::Logger)) <==> has_piece(uri, 0, "logger"@),
        leads_to(Method::Put, uri, Some(n), Route::Body(BodyFormat::Serial)) <==> has_piece(uri, 0, "serial"@),
        leads_to(Method::Put, uri, Some(n), Route::Body(BodyFormat::MachineConfig)) <==> has_piece(uri, 0, "machine-config"@),
        leads_to(Method::Put, uri, Some(n), Route::Body(BodyFormat::Metrics)) <==> has_piece(uri, 0, "metrics"@),
        leads_to(Method::Put, uri, Some(n), Route::Body(BodyFormat::Mmds)) <==> has_piece(uri, 0, "mmds"@),
        leads_to(Method::Put, uri, Some(n), Route::Body(BodyFormat::Net)) <==> has_piece(uri, 0, "network-interfaces"@),
        leads_to(Method::Put, uri, Some(n), Route::Body(BodyFormat::Vsock)) <==> has_piece(uri, 0, "vsock"@),
        leads_to(Method::Put, uri, Some(n), Route::Body(BodyFormat::Entropy)) <==> has_piece(uri, 0, "entropy"@),
        leads_to(Method::Put, uri, Some(n), Route::Body(BodyFormat::SnapshotCreate)) <==> has_piece(uri, 0, "snapshot"@) && has_piece(uri, 1, "create"@),
        leads_to(Method::Put, uri, Some(n), Route::Body(BodyFormat::SnapshotLoad)) <==> has_piece(uri, 0, "snapshot"@) && has_piece(uri, 1, "load"@),
        leads_to(Method::Put, uri, Some(n), Route::Body(BodyFormat::MemoryHotplug)) <==> has_piece(uri, 0, "hotplug"@) && has_piece(uri, 1, "memory"@),
{
    lemma_first_pieces();
    lemma_second_pieces();
}

/// No two paths of requests that set something with different beginnings are read in the same
/// format.
pub proof fn law_formats_are_not_shared(uri: Seq<char>, other: Seq<char>, n: usize, m: usize)
    requires
        routed_uri(Method::Put, uri, Some(n)) is Ok,
        routed_uri(Method::Put, uri, Some(n)) == routed_uri(Method::Put, other, Some(m)),
    ensures
        piece(uri, 0) is Some,
        piece(uri, 0) == piece(other, 0),
{
    lemma_first_pieces();
    lemma_second_pieces();
}

/// Each thing that can be changed has a path of its own. A hinting run is started with the default
/// command where the body is empty, and stopped whatever the body.
pub proof fn law_each_change_has_its_path(uri: Seq<char>, n: usize)
    ensures
        leads_to(Method::Patch, uri, Some(n), Route::Body(BodyFormat::DriveUpdate)) <==> has_piece(uri, 0, "drives"@),
        leads_to(Method::Patch, uri, Some(n), Route::Body(BodyFormat::MachineConfigUpdate)) <==> has_piece(uri, 0, "machine-config"@),
        leads_to(Method::Patch, uri, Some(n), Route::Body(BodyFormat::MmdsUpdate)) <==> has_piece(uri, 0, "mmds"@),
        leads_to(Method::Patch, uri, Some(n), Route::Body(BodyFormat::NetUpdate)) <==> has_piece(uri, 0, "network-interfaces"@),
        leads_to(Method::Patch, uri, Some(n), Route::Body(BodyFormat::PmemUpdate)) <==> has_piece(uri, 0, "pmem"@),
        leads_to(Method::Patch, uri, Some(n), Route::Body(BodyFormat::VmState)) <==> has_piece(uri, 0, "vm"@),
        leads_to(Method::Patch, uri, Some(n), Route::Body(BodyFormat::MemoryHotplugUpdate)) <==> has_piece(uri, 0, "hotplug"@) && has_piece(uri, 1, "memory"@),
        leads_to(Method::Patch, uri, Some(n), Route::Body(BodyFormat::BalloonStatistics)) <==> has_piece(uri, 0, "balloon"@) && has_piece(uri, 1, "statistics"@),
        leads_to(Method::Patch, uri, Some(n), Route::Body(BodyFormat::BalloonUpdate)) <==> has_piece(uri, 0, "balloon"@) && !has_piece(uri, 1, "statistics"@) && !has_piece(uri, 1, "hinting"@),
        leads_to(Method::Patch, uri, Some(n), Route::Body(BodyFormat::StartHinting)) <==> has_piece(uri, 0, "balloon"@) && has_piece(uri, 1, "hinting"@) && has_piece(uri, 2, "start"@) && n > 0,
        leads_to(Method::Patch, uri, Some(n), Route::StartHinting) <==> has_piece(uri, 0, "balloon"@) && has_piece(uri, 1, "hinting"@) && has_piece(uri, 2, "start"@) && n == 0,
        leads_to(Method::Patch, uri, None, Route::StartHinting) <==> has_piece(uri, 0, "balloon"@) && has_piece(uri, 1, "hinting"@) && has_piece(uri, 2, "start"@),
        leads_to(Method::Patch, uri, Some(n), Route::StopHinting) <==> has_piece(uri, 0, "balloon"@) && has_piece(uri, 1, "hinting"@) && has_piece(uri, 2, "stop"@),
        leads_to(Method::Patch, uri, None, Route::StopHinting) <==> has_piece(uri, 0, "balloon"@) && has_piece(uri, 1, "hinting"@) && has_piece(uri, 2, "stop"@),
{
    lemma_first_pieces();
    lemma_second_pieces();
}

/// Each thing that can be asked for has a path of its own.
pub proof fn law_each_question_has_its_path(uri: Seq<char>)
    ensures
        leads_to(Method::Get, uri, None, Route::GetInstanceInfo) <==> piece(uri, 0) is None
            || has_piece(uri, 0, Seq::empty()),
        leads_to(Method::Get, uri, None, Route::GetVersion) <==> has_piece(uri, 0, "version"@),
        leads_to(Method::Get, uri, None, Route::GetFullVmConfig) <==> has_piece(uri, 0, "vm"@) && has_piece(uri, 1, "config"@),
        leads_to(Method::Get, uri, None, Route::GetMachineConfig) <==> has_piece(uri, 0, "machine-config"@),
        leads_to(Method::Get, uri, None, Route::GetMmds) <==> has_piece(uri, 0, "mmds"@),
        leads_to(Method::Get, uri, None, Route::GetMemoryHotplug) <==> has_piece(uri, 0, "hotplug"@) && has_piece(uri, 1, "memory"@),
        leads_to(Method::Get, uri, None, Route::GetBalloonConfig) <==> has_piece(uri, 0, "balloon"@) && piece(uri, 1) is None,
        leads_to(Method::Get, uri, None, Route::GetBalloonStats) <==> has_piece(uri, 0, "balloon"@) && has_piece(uri, 1, "statistics"@),
        leads_to(Method::Get, uri, None, Route::GetHintingStatus) <==> has_piece(uri, 0, "balloon"@) && has_piece(uri, 1, "hinting"@) && has_piece(uri, 2, "status"@),
{
    lemma_first_pieces();
    lemma_second_pieces();
    reveal_strlit("");
    assert(""@ =~= Seq::<char>::empty());
}

/// Only drives, persistent memory devices and network interfaces can be removed, each by its path.
pub proof fn law_what_can_be_removed(uri: Seq<char>)
    ensures
        leads_to(Method::Delete, uri, None, Route::Unplug(VirtioDeviceType::Block)) <==> has_piece(uri, 0, "drives"@),
        leads_to(Method::Delete, uri, None, Route::Unplug(VirtioDeviceType::Pmem)) <==> has_piece(uri, 0, "pmem"@),
        leads_to(Method::Delete, uri, None, Route::Unplug(VirtioDeviceType::Net)) <==> has_piece(uri, 0, "network-interfaces"@),
        routed_uri(Method::Delete, uri, None) is Ok ==> has_piece(uri, 0, "drives"@) || has_piece(
            uri,
            0,
            "pmem"@,
        ) || has_piece(uri, 0, "network-interfaces"@),
{
    lemma_first_pieces();
}

/// A request is answered with status 400 and told why where it has a body that it must not have,
/// or lacks one that it must have.
pub proof fn law_requests_with_a_wrong_body_are_told_so(uri: Seq<char>, n: usize)
    ensures
        routed_uri(Method::Get, uri, Some(n)) == Err::<Route, RequestErrorView>(
            RequestErrorView::Generic(StatusCode::BadRequest, "GET request cannot have a body."@),
        ),
        routed_uri(Method::Put, uri, None) == Err::<Route, RequestErrorView>(
            RequestErrorView::Generic(StatusCode::BadRequest, "Empty PUT request."@),
        ),
        routed_uri(Method::Delete, uri, Some(n)) == Err::<Route, RequestErrorView>(
            RequestErrorView::Generic(StatusCode::BadRequest, "Empty Delete request."@),
        ),
        !has_piece(uri, 0, "balloon"@) ==> routed_uri(Method::Patch, uri, None) == Err::<
            Route,
            RequestErrorView,
        >(RequestErrorView::Generic(StatusCode::BadRequest, "Empty PATCH request."@)),
{
    lemma_first_pieces();
}

/// What a request without a body asks the machine for, by its path.
pub proof fn law_paths_ask_for_their_action(
    uri: Seq<char>,
    route: Route,
    r: Option<ParsedRequest>,
)
    requires
        leads_to(Method::Get, uri, None, route),
        bodyless(route, r),
    ensures
        r is Some,
        ({
            let asks = |action: VmmAction| r->0.action == RequestAction::Sync(Box::new(action));
            &&& piece(uri, 0) is None ==> asks(VmmAction::GetVmInstanceInfo)
            &&& has_piece(uri, 0, "version"@) ==> asks(VmmAction::GetVmmVersion)
            &&& has_piece(uri, 0, "vm"@) ==> asks(VmmAction::GetFullVmConfig)
            &&& has_piece(uri, 0, "machine-config"@) ==> asks(VmmAction::GetVmMachineConfig)
            &&& has_piece(uri, 0, "mmds"@) ==> asks(VmmAction::GetMMDS)
            &&& has_piece(uri, 0, "hotplug"@) ==> asks(VmmAction::GetMemoryHotplugStatus)
            &&& has_piece(uri, 0, "balloon"@) && piece(uri, 1) is None ==> asks(
                VmmAction::GetBalloonConfig,
            )
            &&& has_piece(uri, 0, "balloon"@) && has_piece(uri, 1, "statistics"@) ==> asks(
                VmmAction::GetBalloonStats,
            )
            &&& has_piece(uri, 0, "balloon"@) && has_piece(uri, 1, "hinting"@) ==> asks(
                VmmAction::GetFreePageHintingStatus,
            )
        }),
{
    lemma_first_pieces();
    lemma_second_pieces();
}

/// A hinting run is started and stopped by its path alone. A run that is started without a body
/// acknowledges that it stopped.
pub proof fn law_hinting_is_started_and_stopped(
    uri: Seq<char>,
    route: Route,
    r: Option<ParsedRequest>,
)
    requires
        leads_to(Method::Patch, uri, None, route),
        bodyless(route, r),
    ensures
        r is Some,
        has_piece(uri, 2, "start"@) ==> r->0.action == RequestAction::Sync(
            Box::new(
                VmmAction::StartFreePageHinting(StartHintingCmd { acknowledge_on_stop: true }),
            ),
        ),
        has_piece(uri, 2, "stop"@) ==> r->0.action == RequestAction::Sync(
            Box::new(VmmAction::StopFreePageHinting),
        ),
{
    lemma_first_pieces();
    lemma_second_pieces();
}

} // verus!
