//! What the JSON-RPC interface does with a request.

use vstd::prelude::*;

verus! {

/// What a request is answered with.
#[derive(Clone, Copy, Debug, PartialEq, Eq, Structural)]
pub enum Route {
    /// The parameters are no list: the request is refused as invalid.
    InvalidRequest,
    /// The answer to a ping.
    Pong,
    /// What is known of the network.
    GetInfo,
    /// No such method.
    MethodNotFound,
}

/// The route that a method's name and the shape of its parameters lead to.
pub open spec fn route_of(method: Option<Seq<char>>, params_are_list: bool) -> Route {
    if !params_are_list {
        Route::InvalidRequest
    } else {
        match method {
            Some(name) => if name == "ping"@ {
                Route::Pong
            } else if name == "get_info"@ {
                Route::GetInfo
            } else {
                Route::MethodNotFound
            },
            None => Route::MethodNotFound,
        }
    }
}

/// The text that may stand for a method.
pub open spec fn method_text(method: Option<&str>) -> Option<Seq<char>> {
    match method {
        Some(name) => Some(name@),
        None => None,
    }
}

/// Finds the route of a request: parameters that are no list are refused
/// before the method is looked at, `ping` and `get_info` have their
/// answers, and every other method, or none, is not found.
pub fn handle_request(method: Option<&str>, params_are_list: bool) -> (r: Route)
    ensures
        r == route_of(method_text(method), params_are_list),
{
    if !params_are_list {
        return Route::InvalidRequest;
    }
    match method {
        Some(name) => {
            let name = name.to_owned();
            if name == "ping".to_owned() {
                Route::Pong
            } else if name == "get_info".to_owned() {
                Route::GetInfo
            } else {
                Route::MethodNotFound
            }
        },
        None => Route::MethodNotFound,
    }
}

} // verus!
