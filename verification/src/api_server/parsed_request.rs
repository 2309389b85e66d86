//! From the method, the path and the body of a request to what it asks for.

use vstd::prelude::*;

use crate::api_server::request::balloon::{
    get_balloon_route, parse_get_balloon, parse_patch_balloon, patch_balloon_route,
};
use crate::api_server::request::snapshot::{parse_put_snapshot, put_snapshot_route};
use crate::devices::virtio::device::VirtioDeviceType;
use crate::http::{Method, Response, StatusCode};
use crate::rpc_interface::{VmmAction, VmmActionError, VmmData};
use crate::utils::text::{
    after_slashes, alphanumeric, ascii_alphanumeric, is_alphanumeric, join3, json_string,
    json_text, pieces, same, split_path, texts,
};

verus! {

/// What is done about a request.
#[derive(Debug)]
pub enum RequestAction {
    /// The machine answers while the request waits.
    Sync(Box<VmmAction>),
}

/// What was noted while a request was parsed.
#[derive(Debug)]
pub struct ParsingInfo {
    /// What is said of deprecated parts of the request.
    pub deprecation_message: Option<String>,
}

impl ParsingInfo {
    /// What is said of deprecated parts of the request.
    pub open spec fn message(self) -> Option<Seq<char>> {
        match self.deprecation_message {
            Some(s) => Some(s@),
            None => None,
        }
    }

    /// Adds to what is said of deprecated parts.
    pub fn append_deprecation_message(&mut self, message: &str)
        ensures
            final(self).message() == Some(
                match old(self).message() {
                    Some(s) => s + message@,
                    None => message@,
                },
            ),
    {
        match self.deprecation_message.take() {
            None => {
                self.deprecation_message = Some(String::from_str(message));
            },
            Some(mut s) => {
                s.append(message);
                self.deprecation_message = Some(s);
            },
        }
    }

    /// Takes what is said of deprecated parts.
    pub fn take_deprecation_message(&mut self) -> (r: Option<String>)
        ensures
            r == old(self).deprecation_message,
            final(self).deprecation_message is None,
    {
        self.deprecation_message.take()
    }
}

/// A parsed request.
#[derive(Debug)]
pub struct ParsedRequest {
    /// What is done about the request.
    pub action: RequestAction,
    /// What was noted while the request was parsed.
    pub parsing_info: ParsingInfo,
}

impl ParsedRequest {
    /// Whether the request asks for an action and nothing was noted.
    pub open spec fn is_plain(self, action: VmmAction) -> bool {
        self.action == RequestAction::Sync(Box::new(action)) && self.parsing_info.message() is None
    }

    /// A request without notes.
    pub fn new(action: RequestAction) -> (r: ParsedRequest)
        ensures
            r.action == action,
            r.parsing_info.deprecation_message is None,
    {
        ParsedRequest { action, parsing_info: ParsingInfo { deprecation_message: None } }
    }

    /// The parts of the request.
    pub fn into_parts(self) -> (r: (RequestAction, ParsingInfo))
        ensures
            r.0 == self.action,
            r.1 == self.parsing_info,
    {
        (self.action, self.parsing_info)
    }

    /// What was noted while the request was parsed.
    pub fn parsing_info(&mut self) -> (r: &mut ParsingInfo)
        ensures
            *r == old(self).parsing_info,
            *final(self) == (ParsedRequest { parsing_info: *final(r), ..*old(self) }),
    {
        &mut self.parsing_info
    }

    /// A request that the machine answers, without notes.
    pub fn new_sync(vmm_action: VmmAction) -> (r: ParsedRequest)
        ensures
            r.is_plain(vmm_action),
    {
        ParsedRequest::new(RequestAction::Sync(Box::new(vmm_action)))
    }
}

/// Why a request is refused.
#[derive(Debug)]
pub enum RequestError {
    /// An identifier is empty.
    EmptyID,
    /// Another reason, with a status and a message.
    Generic(StatusCode, String),
    /// An identifier holds a character that it may not hold.
    InvalidID,
    /// There is no such method on such a path.
    InvalidPathMethod(String, Method),
    /// The body cannot be read, with a message.
    SerdeJson(String),
}

/// Why a request is refused, with text in place of strings.
pub enum RequestErrorView {
    /// An identifier is empty.
    EmptyID,
    /// Another reason, with a status and a message.
    Generic(StatusCode, Seq<char>),
    /// An identifier holds a character that it may not hold.
    InvalidID,
    /// There is no such method on such a path.
    InvalidPathMethod(Seq<char>, Method),
    /// The body cannot be read, with a message.
    SerdeJson(Seq<char>),
}

impl View for RequestError {
    type V = RequestErrorView;

    open spec fn view(&self) -> RequestErrorView {
        match *self {
            RequestError::EmptyID => RequestErrorView::EmptyID,
            RequestError::Generic(status, s) => RequestErrorView::Generic(status, s@),
            RequestError::InvalidID => RequestErrorView::InvalidID,
            RequestError::InvalidPathMethod(s, method) => RequestErrorView::InvalidPathMethod(
                s@,
                method,
            ),
            RequestError::SerdeJson(s) => RequestErrorView::SerdeJson(s@),
        }
    }
}

impl RequestErrorView {
    /// What is said about the refusal.
    pub open spec fn message(self) -> Seq<char> {
        match self {
            RequestErrorView::EmptyID => "The ID cannot be empty."@,
            RequestErrorView::Generic(_, s) => s,
            RequestErrorView::InvalidID =>
                "API Resource IDs can only contain alphanumeric characters and underscores."@,
            RequestErrorView::InvalidPathMethod(s, method) =>
                "Invalid request method and/or path: "@ + (method.text() + " "@ + s) + "."@,
            RequestErrorView::SerdeJson(s) =>
                "An error occurred when deserializing the json body of a request: "@ + s + "."@,
        }
    }

    /// The status of the response.
    pub open spec fn status(self) -> StatusCode {
        match self {
            RequestErrorView::Generic(status, _) => status,
            _ => StatusCode::BadRequest,
        }
    }
}

impl RequestError {
    /// What is said about the refusal.
    pub fn message(&self) -> (r: String)
        ensures
            r@ == self@.message(),
    {
        match self {
            RequestError::EmptyID => String::from_str("The ID cannot be empty."),
            RequestError::Generic(_, s) => s.clone(),
            RequestError::InvalidID => String::from_str(
                "API Resource IDs can only contain alphanumeric characters and underscores.",
            ),
            RequestError::InvalidPathMethod(s, method) => {
                let what = join3(method.to_str(), " ", s.as_str());
                join3("Invalid request method and/or path: ", what.as_str(), ".")
            },
            RequestError::SerdeJson(s) => join3(
                "An error occurred when deserializing the json body of a request: ",
                s.as_str(),
                ".",
            ),
        }
    }

    /// The response to the refused request.
    pub fn into_response(self) -> (r: Response)
        ensures
            r.status == self@.status(),
            r.body is Some,
            r.body->Some_0@ == fault_text(self@.message()),
            !r.deprecation,
    {
        let msg = json_fault_message(self.message().as_str());
        let status = match self {
            RequestError::Generic(status, _) => status,
            _ => StatusCode::BadRequest,
        };
        json_response(status, msg)
    }
}

/// The text of a response that says why something went wrong.
pub open spec fn fault_text(message: Seq<char>) -> Seq<char> {
    "{\"fault_message\":"@ + json_string(message) + "}"@
}

/// The text of a response that says why something went wrong.
pub fn json_fault_message(msg: &str) -> (r: String)
    ensures
        r@ == fault_text(msg@),
{
    let text = json_text(msg);
    join3("{\"fault_message\":", text.as_str(), "}")
}

/// A response with a body.
pub fn json_response(status: StatusCode, body: String) -> (r: Response)
    ensures
        r == (Response { status, body: Some(body), deprecation: false }),
{
    Response { status, body: Some(body), deprecation: false }
}

/// How the body of a request is to be read.
#[derive(Debug, Clone, Copy, PartialEq, Eq, Structural)]
pub enum BodyFormat {
    /// An action.
    Actions,
    /// Configuration of the balloon.
    Balloon,
    /// A change to the statistics of the balloon.
    BalloonStatistics,
    /// A change to the size of the balloon.
    BalloonUpdate,
    /// A request to start a hinting run.
    StartHinting,
    /// Configuration of the kernel.
    BootSource,
    /// A CPU template.
    CpuConfig,
    /// Configuration of the drive that the path names.
    Drive,
    /// A change to the drive that the path names.
    DriveUpdate,
    /// Configuration of the persistent memory device that the path names.
    Pmem,
    /// A change to the persistent memory device that the path names.
    PmemUpdate,
    /// Configuration of the logger.
    Logger,
    /// Configuration of the serial device.
    Serial,
    /// Configuration of vCPUs and memory.
    MachineConfig,
    /// A change to the configuration of vCPUs and memory.
    MachineConfigUpdate,
    /// Configuration of metrics.
    Metrics,
    /// Contents, or configuration by what the path names, of the metadata store.
    Mmds,
    /// A change to the contents of the metadata store.
    MmdsUpdate,
    /// Configuration of the network interface that the path names.
    Net,
    /// A change to the network interface that the path names.
    NetUpdate,
    /// A request to save the machine.
    SnapshotCreate,
    /// A request to restore the machine.
    SnapshotLoad,
    /// Configuration of the socket device.
    Vsock,
    /// Configuration of the source of entropy.
    Entropy,
    /// Configuration of hotpluggable memory.
    MemoryHotplug,
    /// A request to plug or unplug memory.
    MemoryHotplugUpdate,
    /// A requested state of the machine.
    VmState,
}

/// Where a request leads.
#[derive(Debug, Clone, Copy, PartialEq, Eq, Structural)]
pub enum Route {
    /// Tell about the instance.
    GetInstanceInfo,
    /// Tell the version.
    GetVersion,
    /// Tell the whole configuration.
    GetFullVmConfig,
    /// Tell the configuration of vCPUs and memory.
    GetMachineConfig,
    /// Tell the contents of the metadata store.
    GetMmds,
    /// Tell the state of hotpluggable memory.
    GetMemoryHotplug,
    /// Tell the configuration of the balloon.
    GetBalloonConfig,
    /// Tell the statistics of the balloon.
    GetBalloonStats,
    /// Tell the commands of the hinting run.
    GetHintingStatus,
    /// Start a hinting run with the default command.
    StartHinting,
    /// End the hinting run.
    StopHinting,
    /// Read the body.
    Body(BodyFormat),
    /// Unplug the device that the path names.
    Unplug(VirtioDeviceType),
}

/// The refusal of a request whose body is missing or too much.
pub open spec fn method_error(method: Method) -> RequestErrorView {
    RequestErrorView::Generic(
        StatusCode::BadRequest,
        match method {
            Method::Get => "GET request cannot have a body."@,
            Method::Put => "Empty PUT request."@,
            Method::Patch => "Empty PATCH request."@,
            Method::Delete => "Empty Delete request."@,
        },
    )
}

/// The refusal of a request whose body is missing or too much.
pub fn method_to_error(method: Method) -> (r: RequestError)
    ensures
        r@ == method_error(method),
{
    RequestError::Generic(
        StatusCode::BadRequest,
        String::from_str(
            match method {
                Method::Get => "GET request cannot have a body.",
                Method::Put => "Empty PUT request.",
                Method::Patch => "Empty PATCH request.",
                Method::Delete => "Empty Delete request.",
            },
        ),
    )
}

/// The refusal of a path.
pub open spec fn no_such(path: Seq<char>, method: Method) -> Result<Route, RequestErrorView> {
    Err(RequestErrorView::InvalidPathMethod(path, method))
}

/// Whether the path goes on with a given piece.
pub open spec fn goes_on_with(rest: Seq<Seq<char>>, piece: Seq<char>) -> bool {
    rest.len() > 0 && rest[0] == piece
}

/// Where a request without a body that asks for something leads.
pub open spec fn get_route(path: Seq<char>, rest: Seq<Seq<char>>) -> Result<
    Route,
    RequestErrorView,
> {
    if path == ""@ {
        Ok(Route::GetInstanceInfo)
    } else if path == "balloon"@ {
        get_balloon_route(rest)
    } else if path == "version"@ {
        Ok(Route::GetVersion)
    } else if path == "vm"@ && goes_on_with(rest, "config"@) {
        Ok(Route::GetFullVmConfig)
    } else if path == "machine-config"@ {
        Ok(Route::GetMachineConfig)
    } else if path == "mmds"@ {
        Ok(Route::GetMmds)
    } else if path == "hotplug"@ && goes_on_with(rest, "memory"@) {
        Ok(Route::GetMemoryHotplug)
    } else {
        no_such(path, Method::Get)
    }
}

/// Where a request with a body that sets something leads.
pub open spec fn put_route(path: Seq<char>, rest: Seq<Seq<char>>) -> Result<
    Route,
    RequestErrorView,
> {
    if path == "actions"@ {
        Ok(Route::Body(BodyFormat::Actions))
    } else if path == "balloon"@ {
        Ok(Route::Body(BodyFormat::Balloon))
    } else if path == "boot-source"@ {
        Ok(Route::Body(BodyFormat::BootSource))
    } else if path == "cpu-config"@ {
        Ok(Route::Body(BodyFormat::CpuConfig))
    } else if path == "drives"@ {
        Ok(Route::Body(BodyFormat::Drive))
    } else if path == "pmem"@ {
        Ok(Route::Body(BodyFormat::Pmem))
    } else if path == "logger"@ {
        Ok(Route::Body(BodyFormat::Logger))
    } else if path == "serial"@ {
        Ok(Route::Body(BodyFormat::Serial))
    } else if path == "machine-config"@ {
        Ok(Route::Body(BodyFormat::MachineConfig))
    } else if path == "metrics"@ {
        Ok(Route::Body(BodyFormat::Metrics))
    } else if path == "mmds"@ {
        Ok(Route::Body(BodyFormat::Mmds))
    } else if path == "network-interfaces"@ {
        Ok(Route::Body(BodyFormat::Net))
    } else if path == "snapshot"@ {
        put_snapshot_route(
            if rest.len() > 0 {
                Some(rest[0])
            } else {
                None
            },
        )
    } else if path == "vsock"@ {
        Ok(Route::Body(BodyFormat::Vsock))
    } else if path == "entropy"@ {
        Ok(Route::Body(BodyFormat::Entropy))
    } else if path == "hotplug"@ && goes_on_with(rest, "memory"@) {
        Ok(Route::Body(BodyFormat::MemoryHotplug))
    } else {
        no_such(path, Method::Put)
    }
}

/// Where a request with a body that changes something other than the balloon leads.
pub open spec fn patch_route(path: Seq<char>, rest: Seq<Seq<char>>) -> Result<
    Route,
    RequestErrorView,
> {
    if path == "drives"@ {
        Ok(Route::Body(BodyFormat::DriveUpdate))
    } else if path == "machine-config"@ {
        Ok(Route::Body(BodyFormat::MachineConfigUpdate))
    } else if path == "mmds"@ {
        Ok(Route::Body(BodyFormat::MmdsUpdate))
    } else if path == "network-interfaces"@ {
        Ok(Route::Body(BodyFormat::NetUpdate))
    } else if path == "pmem"@ {
        Ok(Route::Body(BodyFormat::PmemUpdate))
    } else if path == "vm"@ {
        Ok(Route::Body(BodyFormat::VmState))
    } else if path == "hotplug"@ && goes_on_with(rest, "memory"@) {
        Ok(Route::Body(BodyFormat::MemoryHotplugUpdate))
    } else {
        no_such(path, Method::Patch)
    }
}

/// Where a request without a body that removes something leads.
pub open spec fn delete_route(path: Seq<char>) -> Result<Route, RequestErrorView> {
    if path == "drives"@ {
        Ok(Route::Unplug(VirtioDeviceType::Block))
    } else if path == "pmem"@ {
        Ok(Route::Unplug(VirtioDeviceType::Pmem))
    } else if path == "network-interfaces"@ {
        Ok(Route::Unplug(VirtioDeviceType::Net))
    } else {
        no_such(path, Method::Delete)
    }
}

/// Where a request leads, by its method, the first piece and the further pieces of its path, and
/// the length of its body.
pub open spec fn routed(
    method: Method,
    path: Seq<char>,
    rest: Seq<Seq<char>>,
    body: Option<usize>,
) -> Result<Route, RequestErrorView> {
    match method {
        Method::Get => if body is Some {
            Err(method_error(Method::Get))
        } else {
            get_route(path, rest)
        },
        Method::Put => if body is None {
            Err(method_error(Method::Put))
        } else {
            put_route(path, rest)
        },
        Method::Patch => if path == "balloon"@ {
            patch_balloon_route(rest, body)
        } else if body is None {
            Err(method_error(Method::Patch))
        } else {
            patch_route(path, rest)
        },
        Method::Delete => if body is Some {
            Err(method_error(Method::Delete))
        } else {
            delete_route(path)
        },
    }
}

/// Where a request leads, by its method, its path and the length of its body.
pub open spec fn routed_uri(method: Method, uri: Seq<char>, body: Option<usize>) -> Result<
    Route,
    RequestErrorView,
> {
    let tokens = pieces(after_slashes(uri));
    if tokens.len() == 0 {
        routed(method, ""@, seq![], body)
    } else {
        routed(method, tokens[0], tokens.skip(1), body)
    }
}

// Whether a list begins with a given piece.
fn begins_with(rest: &[String], piece: &str) -> (r: bool)
    ensures
        r == goes_on_with(texts(rest@), piece@),
{
    rest.len() > 0 && same(rest[0].as_str(), piece)
}

fn invalid(path: &str, method: Method) -> (r: RequestError)
    ensures
        r@ == RequestErrorView::InvalidPathMethod(path@, method),
{
    RequestError::InvalidPathMethod(String::from_str(path), method)
}

fn route_get(path: &str, rest: &[String]) -> (r: Result<Route, RequestError>)
    ensures
        match r {
            Ok(route) => get_route(path@, texts(rest@)) == Ok::<Route, RequestErrorView>(route),
            Err(e) => get_route(path@, texts(rest@)) == Err::<Route, RequestErrorView>(e@),
        },
{
    if same(path, "") {
        return Ok(Route::GetInstanceInfo);
    }
    if same(path, "balloon") {
        return parse_get_balloon(rest);
    }
    if same(path, "version") {
        return Ok(Route::GetVersion);
    }
    if same(path, "vm") && begins_with(rest, "config") {
        return Ok(Route::GetFullVmConfig);
    }
    if same(path, "machine-config") {
        return Ok(Route::GetMachineConfig);
    }
    if same(path, "mmds") {
        return Ok(Route::GetMmds);
    }
    if same(path, "hotplug") && begins_with(rest, "memory") {
        return Ok(Route::GetMemoryHotplug);
    }
    Err(invalid(path, Method::Get))
}

fn route_put(path: &str, rest: &[String]) -> (r: Result<Route, RequestError>)
    ensures
        match r {
            Ok(route) => put_route(path@, texts(rest@)) == Ok::<Route, RequestErrorView>(route),
            Err(e) => put_route(path@, texts(rest@)) == Err::<Route, RequestErrorView>(e@),
        },
{
    if same(path, "actions") {
        return Ok(Route::Body(BodyFormat::Actions));
    }
    if same(path, "balloon") {
        return Ok(Route::Body(BodyFormat::Balloon));
    }
    if same(path, "boot-source") {
        return Ok(Route::Body(BodyFormat::BootSource));
    }
    if same(path, "cpu-config") {
        return Ok(Route::Body(BodyFormat::CpuConfig));
    }
    if same(path, "drives") {
        return Ok(Route::Body(BodyFormat::Drive));
    }
    if same(path, "pmem") {
        return Ok(Route::Body(BodyFormat::Pmem));
    }
    if same(path, "logger") {
        return Ok(Route::Body(BodyFormat::Logger));
    }
    if same(path, "serial") {
        return Ok(Route::Body(BodyFormat::Serial));
    }
    if same(path, "machine-config") {
        return Ok(Route::Body(BodyFormat::MachineConfig));
    }
    if same(path, "metrics") {
        return Ok(Route::Body(BodyFormat::Metrics));
    }
    if same(path, "mmds") {
        return Ok(Route::Body(BodyFormat::Mmds));
    }
    if same(path, "network-interfaces") {
        return Ok(Route::Body(BodyFormat::Net));
    }
    if same(path, "snapshot") {
        return if rest.len() > 0 {
            parse_put_snapshot(Some(rest[0].as_str()))
        } else {
            parse_put_snapshot(None)
        };
    }
    if same(path, "vsock") {
        return Ok(Route::Body(BodyFormat::Vsock));
    }
    if same(path, "entropy") {
        return Ok(Route::Body(BodyFormat::Entropy));
    }
    if same(path, "hotplug") && begins_with(rest, "memory") {
        return Ok(Route::Body(BodyFormat::MemoryHotplug));
    }
    Err(invalid(path, Method::Put))
}

fn route_patch(path: &str, rest: &[String]) -> (r: Result<Route, RequestError>)
    ensures
        match r {
            Ok(route) => patch_route(path@, texts(rest@)) == Ok::<Route, RequestErrorView>(route),
            Err(e) => patch_route(path@, texts(rest@)) == Err::<Route, RequestErrorView>(e@),
        },
{
    if same(path, "drives") {
        return Ok(Route::Body(BodyFormat::DriveUpdate));
    }
    if same(path, "machine-config") {
        return Ok(Route::Body(BodyFormat::MachineConfigUpdate));
    }
    if same(path, "mmds") {
        return Ok(Route::Body(BodyFormat::MmdsUpdate));
    }
    if same(path, "network-interfaces") {
        return Ok(Route::Body(BodyFormat::NetUpdate));
    }
    if same(path, "pmem") {
        return Ok(Route::Body(BodyFormat::PmemUpdate));
    }
    if same(path, "vm") {
        return Ok(Route::Body(BodyFormat::VmState));
    }
    if same(path, "hotplug") && begins_with(rest, "memory") {
        return Ok(Route::Body(BodyFormat::MemoryHotplugUpdate));
    }
    Err(invalid(path, Method::Patch))
}

fn route_delete(path: &str) -> (r: Result<Route, RequestError>)
    ensures
        match r {
            Ok(route) => delete_route(path@) == Ok::<Route, RequestErrorView>(route),
            Err(e) => delete_route(path@) == Err::<Route, RequestErrorView>(e@),
        },
{
    if same(path, "drives") {
        return Ok(Route::Unplug(VirtioDeviceType::Block));
    }
    if same(path, "pmem") {
        return Ok(Route::Unplug(VirtioDeviceType::Pmem));
    }
    if same(path, "network-interfaces") {
        return Ok(Route::Unplug(VirtioDeviceType::Net));
    }
    Err(invalid(path, Method::Delete))
}

/// Tells where a request leads, by its method, its path and the length of its body.
pub fn route(method: Method, uri: &str, body: Option<usize>) -> (r: Result<Route, RequestError>)
    ensures
        match r {
            Ok(route) => routed_uri(method, uri@, body) == Ok::<Route, RequestErrorView>(route),
            Err(e) => routed_uri(method, uri@, body) == Err::<Route, RequestErrorView>(e@),
        },
{
    let tokens = split_path(uri);
    let empty = String::from_str("");
    let path: &str = if tokens.len() > 0 {
        tokens[0].as_str()
    } else {
        empty.as_str()
    };
    let rest = if tokens.len() > 0 {
        vstd::slice::slice_subrange(tokens.as_slice(), 1, tokens.len())
    } else {
        tokens.as_slice()
    };
    proof {
        let all = pieces(after_slashes(uri@));
        assert(texts(tokens@) == all);
        if all.len() > 0 {
            assert(texts(rest@) =~= all.skip(1));
        } else {
            assert(texts(rest@) =~= Seq::<Seq<char>>::empty());
        }
    }
    match method {
        Method::Get => if body.is_some() {
            Err(method_to_error(Method::Get))
        } else {
            route_get(path, rest)
        },
        Method::Put => if body.is_none() {
            Err(method_to_error(Method::Put))
        } else {
            route_put(path, rest)
        },
        Method::Patch => if same(path, "balloon") {
            parse_patch_balloon(rest, body)
        } else if body.is_none() {
            Err(method_to_error(Method::Patch))
        } else {
            route_patch(path, rest)
        },
        Method::Delete => if body.is_some() {
            Err(method_to_error(Method::Delete))
        } else {
            route_delete(path)
        },
    }
}

/// The piece of the path behind the first one, if there is any.
pub fn resource_id(uri: &str) -> (r: Option<String>)
    ensures
        ({
            let tokens = pieces(after_slashes(uri@));
            &&& r is Some == (tokens.len() > 1)
            &&& r matches Some(id) ==> id@ == tokens[1]
        }),
{
    let tokens = split_path(uri);
    assert(texts(tokens@).len() == tokens@.len());
    if tokens.len() > 1 {
        Some(tokens[1].clone())
    } else {
        None
    }
}

/// Whether a path leads to the hinting runs of the balloon.
pub open spec fn is_hinting_path(uri: Seq<char>) -> bool {
    let tokens = pieces(after_slashes(uri));
    tokens.len() > 1 && tokens[0] == "balloon"@ && tokens[1] == "hinting"@
}

/// A request that asks for something or removes it is refused if it has a body, and one that sets
/// something if it has none, whatever the path. So is one that changes something, but for a hinting
/// run of the balloon, which needs no body.
pub proof fn law_bodies_where_they_belong(uri: Seq<char>, body: Option<usize>)
    ensures
        body is Some ==> routed_uri(Method::Get, uri, body) == Err::<Route, RequestErrorView>(
            method_error(Method::Get),
        ),
        body is None ==> routed_uri(Method::Put, uri, body) == Err::<Route, RequestErrorView>(
            method_error(Method::Put),
        ),
        body is Some ==> routed_uri(Method::Delete, uri, body) == Err::<Route, RequestErrorView>(
            method_error(Method::Delete),
        ),
        body is None && !is_hinting_path(uri) ==> routed_uri(Method::Patch, uri, body) == Err::<
            Route,
            RequestErrorView,
        >(method_error(Method::Patch)),
{
}

/// What the body of a request holds makes no difference to where it leads, but for whether a request
/// to start a hinting run has any.
pub proof fn law_route_depends_on_presence_of_body(method: Method, uri: Seq<char>, a: usize, b: usize)
    requires
        a > 0,
        b > 0,
    ensures
        routed_uri(method, uri, Some(a)) == routed_uri(method, uri, Some(b)),
{
}

/// Slashes at the front of the path make no difference to where a request leads.
pub proof fn law_leading_slashes_do_not_route(method: Method, uri: Seq<char>, body: Option<usize>)
    ensures
        routed_uri(method, seq!['/'] + uri, body) == routed_uri(method, uri, body),
{
    crate::utils::text::law_leading_slashes_do_not_count(uri);
}

/// One slash at the end of the path makes no difference to where a request leads.
pub proof fn law_one_trailing_slash_does_not_route(
    method: Method,
    uri: Seq<char>,
    body: Option<usize>,
)
    requires
        after_slashes(uri).len() > 0 ==> uri.last() != '/',
    ensures
        routed_uri(method, uri.push('/'), body) == routed_uri(method, uri, body),
{
    crate::utils::text::law_one_trailing_slash_does_not_count(uri);
}

/// Whether a request is the one that a route without a body leads to.
pub open spec fn bodyless(route: Route, r: Option<ParsedRequest>) -> bool {
    match route {
        Route::GetInstanceInfo => r is Some && r->Some_0.is_plain(VmmAction::GetVmInstanceInfo),
        Route::GetVersion => r is Some && r->Some_0.is_plain(VmmAction::GetVmmVersion),
        Route::GetFullVmConfig => r is Some && r->Some_0.is_plain(VmmAction::GetFullVmConfig),
        Route::GetMachineConfig => r is Some && r->Some_0.is_plain(
            VmmAction::GetVmMachineConfig,
        ),
        Route::GetMmds => r is Some && r->Some_0.is_plain(VmmAction::GetMMDS),
        Route::GetMemoryHotplug => r is Some && r->Some_0.is_plain(
            VmmAction::GetMemoryHotplugStatus,
        ),
        Route::GetBalloonConfig => r is Some && r->Some_0.is_plain(VmmAction::GetBalloonConfig),
        Route::GetBalloonStats => r is Some && r->Some_0.is_plain(VmmAction::GetBalloonStats),
        Route::GetHintingStatus => r is Some && r->Some_0.is_plain(
            VmmAction::GetFreePageHintingStatus,
        ),
        Route::StartHinting => r is Some && r->Some_0.is_plain(
            VmmAction::StartFreePageHinting(
                crate::devices::virtio::balloon::device::StartHintingCmd {
                    acknowledge_on_stop: true,
                },
            ),
        ),
        Route::StopHinting => r is Some && r->Some_0.is_plain(VmmAction::StopFreePageHinting),
        Route::Body(_) => r is None,
        Route::Unplug(_) => r is None,
    }
}

/// The action of a request that needs no body.
pub fn bodyless_action(route: Route) -> (r: Option<ParsedRequest>)
    ensures
        bodyless(route, r),
{
    match route {
        Route::GetInstanceInfo => Some(ParsedRequest::new_sync(VmmAction::GetVmInstanceInfo)),
        Route::GetVersion => Some(ParsedRequest::new_sync(VmmAction::GetVmmVersion)),
        Route::GetFullVmConfig => Some(ParsedRequest::new_sync(VmmAction::GetFullVmConfig)),
        Route::GetMachineConfig => Some(ParsedRequest::new_sync(VmmAction::GetVmMachineConfig)),
        Route::GetMmds => Some(ParsedRequest::new_sync(VmmAction::GetMMDS)),
        Route::GetMemoryHotplug => Some(
            crate::api_server::request::hotplug::memory::parse_get_memory_hotplug(),
        ),
        Route::GetBalloonConfig => Some(ParsedRequest::new_sync(VmmAction::GetBalloonConfig)),
        Route::GetBalloonStats => Some(ParsedRequest::new_sync(VmmAction::GetBalloonStats)),
        Route::GetHintingStatus => Some(
            ParsedRequest::new_sync(VmmAction::GetFreePageHintingStatus),
        ),
        Route::StartHinting => Some(crate::api_server::request::balloon::start_hinting(None)),
        Route::StopHinting => Some(ParsedRequest::new_sync(VmmAction::StopFreePageHinting)),
        Route::Body(_) => None,
        Route::Unplug(_) => None,
    }
}

/// Whether text can identify a resource.
pub open spec fn valid_id(id: Seq<char>) -> bool {
    forall|i: int| 0 <= i < id.len() ==> #[trigger] id[i] == '_' || alphanumeric(id[i])
}

/// Checks the identifier of a resource.
pub fn checked_id(id: &str) -> (r: Result<&str, RequestError>)
    ensures
        match r {
            Ok(same) => same@ == id@ && id@.len() > 0 && valid_id(id@),
            Err(e) => if id@.len() == 0 {
                e@ == RequestErrorView::EmptyID
            } else {
                e@ == RequestErrorView::InvalidID && !valid_id(id@)
            },
        },
        (forall|i: int|
            0 <= i < id@.len() ==> #[trigger] id@[i] == '_' || ascii_alphanumeric(id@[i]))
            && id@.len() > 0 ==> r is Ok,
{
    let len: usize = id.unicode_len();
    if len == 0 {
        return Err(RequestError::EmptyID);
    }
    let mut i: usize = 0;
    while i < len
        invariant
            i <= len,
            len == id@.len(),
            len > 0,
            forall|k: int| 0 <= k < i ==> #[trigger] id@[k] == '_' || alphanumeric(id@[k]),
        decreases len - i,
    {
        let c = id.get_char(i);
        if c != '_' && !is_alphanumeric(c) {
            assert(id@[i as int] == c);
            return Err(RequestError::InvalidID);
        }
        i = i + 1;
    }
    Ok(id)
}

/// What the response to an outcome holds.
pub open spec fn response_text(outcome: Result<VmmData, VmmActionError>) -> Option<Seq<char>> {
    match outcome {
        Ok(VmmData::Empty) => None,
        Ok(VmmData::Json(s)) => Some(s@),
        Ok(VmmData::MmdsValue(Some(s))) => Some(s@),
        Ok(VmmData::MmdsValue(None)) => Some("{}"@),
        Ok(VmmData::VmmVersion(s)) => Some(
            "{\"firecracker_version\":"@ + json_string(s@) + "}"@,
        ),
        Err(VmmActionError::MmdsLimitExceeded(s)) => Some(fault_text(s@)),
        Err(VmmActionError::Refused(s)) => Some(fault_text(s@)),
    }
}

/// The status of the response to an outcome.
pub open spec fn response_status(outcome: Result<VmmData, VmmActionError>) -> StatusCode {
    match outcome {
        Ok(VmmData::Empty) => StatusCode::NoContent,
        Ok(_) => StatusCode::OK,
        Err(VmmActionError::MmdsLimitExceeded(_)) => StatusCode::PayloadTooLarge,
        Err(VmmActionError::Refused(_)) => StatusCode::BadRequest,
    }
}

impl ParsedRequest {
    /// The response to an outcome.
    pub fn convert_to_response(outcome: &Result<VmmData, VmmActionError>) -> (r: Response)
        ensures
            r.status == response_status(*outcome),
            !r.deprecation,
            match response_text(*outcome) {
                None => r.body is None,
                Some(s) => r.body is Some && r.body->Some_0@ == s,
            },
    {
        match outcome {
            Ok(VmmData::Empty) => Response {
                status: StatusCode::NoContent,
                body: None,
                deprecation: false,
            },
            Ok(VmmData::Json(s)) => json_response(StatusCode::OK, s.clone()),
            Ok(VmmData::MmdsValue(Some(s))) => json_response(StatusCode::OK, s.clone()),
            Ok(VmmData::MmdsValue(None)) => json_response(StatusCode::OK, String::from_str("{}")),
            Ok(VmmData::VmmVersion(s)) => {
                let text = json_text(s.as_str());
                json_response(
                    StatusCode::OK,
                    join3("{\"firecracker_version\":", text.as_str(), "}"),
                )
            },
            Err(VmmActionError::MmdsLimitExceeded(s)) => json_response(
                StatusCode::PayloadTooLarge,
                json_fault_message(s.as_str()),
            ),
            Err(VmmActionError::Refused(s)) => json_response(
                StatusCode::BadRequest,
                json_fault_message(s.as_str()),
            ),
        }
    }
}

/// A refused request is never answered with success, and an accepted one never with a fault.
pub proof fn law_outcome_shows_in_status(outcome: Result<VmmData, VmmActionError>)
    ensures
        outcome is Ok <==> response_status(outcome) == StatusCode::OK || response_status(outcome)
            == StatusCode::NoContent,
        response_status(outcome) == StatusCode::NoContent <==> response_text(outcome) is None,
{
}

/// What outcomes are answered with: 204 and nothing for success without data, 200 and the data for
/// success with data, 413 where the metadata would get too large, and 400 for any other refusal. A
/// refusal says why.
pub proof fn law_answers_to_outcomes(text: String)
    ensures
        response_status(Ok(VmmData::Empty)) == StatusCode::NoContent,
        response_text(Ok(VmmData::Empty)) is None,
        response_status(Ok(VmmData::Json(text))) == StatusCode::OK,
        response_text(Ok(VmmData::Json(text))) == Some(text@),
        response_status(Ok(VmmData::MmdsValue(Some(text)))) == StatusCode::OK,
        response_text(Ok(VmmData::MmdsValue(Some(text)))) == Some(text@),
        response_text(Ok(VmmData::MmdsValue(None))) == Some("{}"@),
        response_text(Ok(VmmData::VmmVersion(text))) == Some(
            "{\"firecracker_version\":"@ + json_string(text@) + "}"@,
        ),
        response_status(Err(VmmActionError::MmdsLimitExceeded(text)))
            == StatusCode::PayloadTooLarge,
        response_status(Err(VmmActionError::Refused(text))) == StatusCode::BadRequest,
        response_text(Err(VmmActionError::MmdsLimitExceeded(text))) == Some(
            "{\"fault_message\":"@ + json_string(text@) + "}"@,
        ),
        response_text(Err(VmmActionError::Refused(text))) == Some(
            "{\"fault_message\":"@ + json_string(text@) + "}"@,
        ),
{
}

/// Text made of two can identify a resource exactly when each of the two can; an underscore can.
pub proof fn law_identifiers_are_judged_by_character(a: Seq<char>, b: Seq<char>, c: char)
    ensures
        valid_id(a + b) <==> valid_id(a) && valid_id(b),
        valid_id(seq!['_']),
        valid_id(seq![c]) <==> c == '_' || alphanumeric(c),
{
    if valid_id(a + b) {
        assert forall|i: int| 0 <= i < a.len() implies #[trigger] a[i] == '_' || alphanumeric(
            a[i],
        ) by {
            assert((a + b)[i] == a[i]);
        }
        assert forall|i: int| 0 <= i < b.len() implies #[trigger] b[i] == '_' || alphanumeric(
            b[i],
        ) by {
            assert((a + b)[a.len() + i] == b[i]);
        }
    }
    assert(seq![c][0] == c);
}

} // verus!
