//! The HTTP surface as data: which method and path reach which operation.
//!
//! The web framework at the edge walks this table to mount its handlers, and
//! the request-shaped parameter types live here so the edge and the core
//! agree on what a request carries.

use vstd::prelude::*;

verus! {

/// The request methods the broker serves.
#[derive(Clone, Copy, PartialEq, Eq, Structural, Debug)]
pub enum HttpMethod {
    Get,
    Post,
}

/// The operations reachable over HTTP.
#[derive(Clone, Copy, PartialEq, Eq, Structural, Debug)]
pub enum Endpoint {
    About,
    Index,
    CreateTopic,
    PushByGet,
    PushByPost,
    Subscribe,
    GetConfig,
    SetConfig,
}

/// One mounted route: a method, a path pattern (`:name` marks the topic-name
/// segment), and the operation it reaches.
pub struct Route {
    pub method: HttpMethod,
    pub path: String,
    pub endpoint: Endpoint,
}

/// Query parameters of a push by GET: the message, as raw JSON text.
pub struct PushParams {
    pub message: String,
}

/// Body or query parameters of the config endpoints.
pub struct TopicConfig {
    pub retention_millis: Option<u64>,
    pub compaction: Option<bool>,
    pub commit: Option<bool>,
}

/// The full routing table, in mounting order.
pub fn router() -> (r: Vec<Route>)
    ensures
        r@.len() == 8,
        r@[0].method == HttpMethod::Get && r@[0].path@ == "/about"@ && r@[0].endpoint
            == Endpoint::About,
        r@[1].method == HttpMethod::Get && r@[1].path@ == "/"@ && r@[1].endpoint == Endpoint::Index,
        r@[2].method == HttpMethod::Get && r@[2].path@ == "/topic/:name/create"@ && r@[2].endpoint
            == Endpoint::CreateTopic,
        r@[3].method == HttpMethod::Get && r@[3].path@ == "/topic/:name/push"@ && r@[3].endpoint
            == Endpoint::PushByGet,
        r@[4].method == HttpMethod::Post && r@[4].path@ == "/topic/:name/push"@ && r@[4].endpoint
            == Endpoint::PushByPost,
        r@[5].method == HttpMethod::Get && r@[5].path@ == "/topic/:name/subscribe"@
            && r@[5].endpoint == Endpoint::Subscribe,
        r@[6].method == HttpMethod::Get && r@[6].path@ == "/topic/:name/config"@ && r@[6].endpoint
            == Endpoint::GetConfig,
        r@[7].method == HttpMethod::Post && r@[7].path@ == "/topic/:name/config"@ && r@[7].endpoint
            == Endpoint::SetConfig,
{
    let mut r: Vec<Route> = Vec::new();
    r.push(Route { method: HttpMethod::Get, path: "/about".to_owned(), endpoint: Endpoint::About });
    r.push(Route { method: HttpMethod::Get, path: "/".to_owned(), endpoint: Endpoint::Index });
    r.push(
        Route {
            method: HttpMethod::Get,
            path: "/topic/:name/create".to_owned(),
            endpoint: Endpoint::CreateTopic,
        },
    );
    r.push(
        Route {
            method: HttpMethod::Get,
            path: "/topic/:name/push".to_owned(),
            endpoint: Endpoint::PushByGet,
        },
    );
    r.push(
        Route {
            method: HttpMethod::Post,
            path: "/topic/:name/push".to_owned(),
            endpoint: Endpoint::PushByPost,
        },
    );
    r.push(
        Route {
            method: HttpMethod::Get,
            path: "/topic/:name/subscribe".to_owned(),
            endpoint: Endpoint::Subscribe,
        },
    );
    r.push(
        Route {
            method: HttpMethod::Get,
            path: "/topic/:name/config".to_owned(),
            endpoint: Endpoint::GetConfig,
        },
    );
    r.push(
        Route {
            method: HttpMethod::Post,
            path: "/topic/:name/config".to_owned(),
            endpoint: Endpoint::SetConfig,
        },
    );
    r
}

} // verus!
