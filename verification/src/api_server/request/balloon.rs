//! Requests on the balloon.

use vstd::prelude::*;

use crate::api_server::parsed_request::{
    method_error, BodyFormat, ParsedRequest, RequestError, RequestErrorView, Route,
};
use crate::devices::virtio::balloon::device::{BalloonConfig, StartHintingCmd};
use crate::http::{Method, StatusCode};
use crate::rpc_interface::{BalloonUpdateConfig, BalloonUpdateStatsConfig, VmmAction};
use crate::utils::text::{join3, same, texts};

verus! {

/// The refusal of a path under the balloon.
pub open spec fn unrecognized(prefix: Seq<char>, rest: Seq<char>) -> RequestErrorView {
    RequestErrorView::Generic(StatusCode::BadRequest, prefix + rest + "`."@)
}

fn unrecognized_error(prefix: &str, rest: &str) -> (r: RequestError)
    ensures
        r@ == unrecognized(prefix@, rest@),
{
    RequestError::Generic(StatusCode::BadRequest, join3(prefix, rest, "`."))
}

/// Where a request for the hinting run leads, by what follows in the path.
pub open spec fn get_hinting_route(rest: Seq<Seq<char>>) -> Result<Route, RequestErrorView> {
    if rest.len() == 0 {
        Err(unrecognized("Unrecognized GET request path `/hinting/"@, seq![]))
    } else if rest[0] == "status"@ {
        Ok(Route::GetHintingStatus)
    } else {
        Err(unrecognized("Unrecognized GET request path `/hinting/"@, rest[0]))
    }
}

fn parse_get_hinting(rest: &[String]) -> (r: Result<Route, RequestError>)
    ensures
        match r {
            Ok(route) => get_hinting_route(texts(rest@)) == Ok::<Route, RequestErrorView>(route),
            Err(e) => get_hinting_route(texts(rest@)) == Err::<Route, RequestErrorView>(e@),
        },
{
    if rest.len() == 0 {
        proof {
            reveal_strlit("");
            assert(""@ =~= Seq::<char>::empty());
        }
        return Err(unrecognized_error("Unrecognized GET request path `/hinting/", ""));
    }
    if same(rest[0].as_str(), "status") {
        return Ok(Route::GetHintingStatus);
    }
    Err(unrecognized_error("Unrecognized GET request path `/hinting/", rest[0].as_str()))
}

/// Where a request for the balloon leads, by what follows in the path.
pub open spec fn get_balloon_route(rest: Seq<Seq<char>>) -> Result<Route, RequestErrorView> {
    if rest.len() == 0 {
        Ok(Route::GetBalloonConfig)
    } else if rest[0] == "statistics"@ {
        Ok(Route::GetBalloonStats)
    } else if rest[0] == "hinting"@ {
        get_hinting_route(rest.skip(1))
    } else {
        Err(unrecognized("Unrecognized GET request path `"@, rest[0]))
    }
}

/// Tells where a request for the balloon leads, by what follows in the path.
pub fn parse_get_balloon(rest: &[String]) -> (r: Result<Route, RequestError>)
    ensures
        match r {
            Ok(route) => get_balloon_route(texts(rest@)) == Ok::<Route, RequestErrorView>(route),
            Err(e) => get_balloon_route(texts(rest@)) == Err::<Route, RequestErrorView>(e@),
        },
{
    if rest.len() == 0 {
        return Ok(Route::GetBalloonConfig);
    }
    if same(rest[0].as_str(), "statistics") {
        return Ok(Route::GetBalloonStats);
    }
    if same(rest[0].as_str(), "hinting") {
        let further = vstd::slice::slice_subrange(rest, 1, rest.len());
        assert(texts(further@) =~= texts(rest@).skip(1));
        return parse_get_hinting(further);
    }
    Err(unrecognized_error("Unrecognized GET request path `", rest[0].as_str()))
}

/// The request that configures the balloon.
pub fn parse_put_balloon(config: BalloonConfig) -> (r: ParsedRequest)
    ensures
        r.is_plain(VmmAction::SetBalloonDevice(config)),
{
    ParsedRequest::new_sync(VmmAction::SetBalloonDevice(config))
}

/// Where a change to the hinting run leads, by what follows in the path and the length of the body.
pub open spec fn patch_hinting_route(rest: Seq<Seq<char>>, body: Option<usize>) -> Result<
    Route,
    RequestErrorView,
> {
    if rest.len() == 0 {
        Err(unrecognized("Unrecognized PATCH request path `/hinting/"@, seq![]))
    } else if rest[0] == "start"@ {
        if body is None || body == Some(0usize) {
            Ok(Route::StartHinting)
        } else {
            Ok(Route::Body(BodyFormat::StartHinting))
        }
    } else if rest[0] == "stop"@ {
        Ok(Route::StopHinting)
    } else {
        Err(unrecognized("Unrecognized PATCH request path `/hinting/"@, rest[0]))
    }
}

fn parse_patch_hinting(rest: &[String], body: Option<usize>) -> (r: Result<Route, RequestError>)
    ensures
        match r {
            Ok(route) => patch_hinting_route(texts(rest@), body) == Ok::<Route, RequestErrorView>(
                route,
            ),
            Err(e) => patch_hinting_route(texts(rest@), body) == Err::<Route, RequestErrorView>(
                e@,
            ),
        },
{
    if rest.len() == 0 {
        proof {
            reveal_strlit("");
            assert(""@ =~= Seq::<char>::empty());
        }
        return Err(unrecognized_error("Unrecognized PATCH request path `/hinting/", ""));
    }
    if same(rest[0].as_str(), "start") {
        return match body {
            None => Ok(Route::StartHinting),
            Some(len) => if len == 0 {
                Ok(Route::StartHinting)
            } else {
                Ok(Route::Body(BodyFormat::StartHinting))
            },
        };
    }
    if same(rest[0].as_str(), "stop") {
        return Ok(Route::StopHinting);
    }
    Err(unrecognized_error("Unrecognized PATCH request path `/hinting/", rest[0].as_str()))
}

/// Where a change to the balloon leads, by what follows in the path and the length of the body.
pub open spec fn patch_balloon_route(rest: Seq<Seq<char>>, body: Option<usize>) -> Result<
    Route,
    RequestErrorView,
> {
    if rest.len() > 0 && rest[0] == "statistics"@ && body is Some {
        Ok(Route::Body(BodyFormat::BalloonStatistics))
    } else if rest.len() > 0 && rest[0] == "hinting"@ {
        patch_hinting_route(rest.skip(1), body)
    } else if body is Some {
        Ok(Route::Body(BodyFormat::BalloonUpdate))
    } else {
        Err(method_error(Method::Patch))
    }
}

/// Tells where a change to the balloon leads, by what follows in the path and the length of the
/// body.
pub fn parse_patch_balloon(rest: &[String], body: Option<usize>) -> (r: Result<Route, RequestError>)
    ensures
        match r {
            Ok(route) => patch_balloon_route(texts(rest@), body) == Ok::<Route, RequestErrorView>(
                route,
            ),
            Err(e) => patch_balloon_route(texts(rest@), body) == Err::<Route, RequestErrorView>(
                e@,
            ),
        },
{
    if rest.len() > 0 && same(rest[0].as_str(), "statistics") && body.is_some() {
        return Ok(Route::Body(BodyFormat::BalloonStatistics));
    }
    if rest.len() > 0 && same(rest[0].as_str(), "hinting") {
        let further = vstd::slice::slice_subrange(rest, 1, rest.len());
        assert(texts(further@) =~= texts(rest@).skip(1));
        return parse_patch_hinting(further, body);
    }
    if body.is_some() {
        return Ok(Route::Body(BodyFormat::BalloonUpdate));
    }
    Err(crate::api_server::parsed_request::method_to_error(Method::Patch))
}

/// The request that starts a hinting run, with the command of its body or the default one.
pub fn start_hinting(cmd: Option<StartHintingCmd>) -> (r: ParsedRequest)
    ensures
        cmd matches Some(c) ==> r.is_plain(VmmAction::StartFreePageHinting(c)),
        cmd is None ==> r.is_plain(
            VmmAction::StartFreePageHinting(StartHintingCmd { acknowledge_on_stop: true }),
        ),
{
    let cmd = match cmd {
        Some(cmd) => cmd,
        None => StartHintingCmd::default(),
    };
    ParsedRequest::new_sync(VmmAction::StartFreePageHinting(cmd))
}

/// The request that changes the statistics of the balloon.
pub fn update_balloon_statistics(config: BalloonUpdateStatsConfig) -> (r: ParsedRequest)
    ensures
        r.is_plain(VmmAction::UpdateBalloonStatistics(config)),
{
    ParsedRequest::new_sync(VmmAction::UpdateBalloonStatistics(config))
}

/// The request that changes the size of the balloon.
pub fn update_balloon(config: BalloonUpdateConfig) -> (r: ParsedRequest)
    ensures
        r.is_plain(VmmAction::UpdateBalloon(config)),
{
    ParsedRequest::new_sync(VmmAction::UpdateBalloon(config))
}

} // verus!
