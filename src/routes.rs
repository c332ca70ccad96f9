//! The fixed route table, and the response that each route gives.
use vstd::prelude::*;

use crate::address::{address_of, client_address};
use crate::classify::{is_tool_like, tool_like};
use crate::decode::{
    all_text, decode_headers, decode_user_agent, decoded, raw_user_agent, user_agent_is_text,
    RawHeader,
};
use crate::headers::{lemma_missing_user_agent_is_unknown, names_match, user_agent_of, HeaderSet};
use crate::json::{
    combined_object, header_object, json_address, json_combined, json_headers, json_object_text,
    json_user_agent,
};
use crate::plain::{
    as_line, combined_dump, combined_text, header_dump, header_lines, landing, landing_text, line_of,
};
use crate::text::same_text;

verus! {

/// What a route renders.
#[derive(PartialEq, Eq, Structural, Clone, Copy, Debug)]
pub enum Route {
    /// `/`: the address for tools, else the address and the route list.
    Landing,
    /// `/ip`, `/raw/ip`.
    PlainAddress,
    /// `/ua`, `/raw/useragent`.
    PlainUserAgent,
    /// `/raw/headers`.
    PlainHeaders,
    /// `/all`, `/raw/all`.
    PlainCombined,
    /// `/json/ip`.
    JsonAddress,
    /// `/json/useragent`.
    JsonUserAgent,
    /// `/json/headers`.
    JsonHeaders,
    /// `/json/all`.
    JsonCombined,
}

/// The two kinds of body.
#[derive(PartialEq, Eq, Structural, Clone, Copy, Debug)]
pub enum ContentType {
    PlainText,
    Json,
}

/// A rendered response.
pub struct Response {
    pub status: u16,
    pub content_type: ContentType,
    pub body: String,
}

/// The route served at `path`, if any.
pub open spec fn route_of(path: Seq<char>) -> Option<Route> {
    if path == "/"@ {
        Some(Route::Landing)
    } else if path == "/ip"@ || path == "/raw/ip"@ {
        Some(Route::PlainAddress)
    } else if path == "/ua"@ || path == "/raw/useragent"@ {
        Some(Route::PlainUserAgent)
    } else if path == "/raw/headers"@ {
        Some(Route::PlainHeaders)
    } else if path == "/all"@ || path == "/raw/all"@ {
        Some(Route::PlainCombined)
    } else if path == "/json/ip"@ {
        Some(Route::JsonAddress)
    } else if path == "/json/useragent"@ {
        Some(Route::JsonUserAgent)
    } else if path == "/json/headers"@ {
        Some(Route::JsonHeaders)
    } else if path == "/json/all"@ {
        Some(Route::JsonCombined)
    } else {
        None
    }
}

/// The content type of a route's body.
pub open spec fn content_type_of(route: Route) -> ContentType {
    match route {
        Route::JsonAddress | Route::JsonUserAgent | Route::JsonHeaders | Route::JsonCombined => {
            ContentType::Json
        },
        _ => ContentType::PlainText,
    }
}

/// Whether a route reads every header value.
pub open spec fn reads_all_headers(route: Route) -> bool {
    route == Route::PlainHeaders || route == Route::PlainCombined || route == Route::JsonHeaders
        || route == Route::JsonCombined
}

/// Whether a route reads the `User-Agent` value and no other.
pub open spec fn reads_user_agent(route: Route) -> bool {
    route == Route::Landing || route == Route::PlainUserAgent || route == Route::JsonUserAgent
}

/// The body of a route that reads only the user agent, for a caller at
/// `addr` whose user agent is `ua`.
pub open spec fn user_agent_body(route: Route, addr: Seq<char>, ua: Seq<char>) -> Seq<char> {
    match route {
        Route::Landing => if tool_like(ua) {
            line_of(addr)
        } else {
            landing_text(addr)
        },
        Route::JsonUserAgent => json_object_text(seq![("user-agent"@, ua)]),
        _ => line_of(ua),
    }
}

/// The body of a route for a caller at `addr` that sent the headers `hs`.
pub open spec fn body_of(route: Route, addr: Seq<char>, hs: Seq<(Seq<char>, Seq<char>)>) -> Seq<char> {
    match route {
        Route::Landing | Route::PlainUserAgent | Route::JsonUserAgent => user_agent_body(
            route,
            addr,
            user_agent_of(hs),
        ),
        Route::PlainAddress => line_of(addr),
        Route::PlainHeaders => header_lines(hs),
        Route::PlainCombined => combined_text(addr, hs),
        Route::JsonAddress => json_object_text(seq![("ip"@, addr)]),
        Route::JsonHeaders => json_object_text(header_object(hs)),
        Route::JsonCombined => json_object_text(combined_object(addr, hs)),
    }
}

/// The answer to a request that a header value it reads is not text.
pub open spec fn is_failure(resp: Response) -> bool {
    &&& resp.status == 500
    &&& resp.content_type == ContentType::PlainText
    &&& resp.body@.len() == 0
}

/// A 200 answer of the route's content type with this body.
pub open spec fn is_rendering(resp: Response, route: Route, body: Seq<char>) -> bool {
    &&& resp.status == 200
    &&& resp.content_type == content_type_of(route)
    &&& resp.body@ == body
}

/// The caller's address from the transport's connection info, if it gave any.
pub open spec fn peer_address(peer: Option<Seq<char>>) -> Seq<char> {
    match peer {
        Some(s) => address_of(s),
        None => Seq::empty(),
    }
}

impl ContentType {
    /// The `Content-Type` header value, charset included.
    pub fn as_str(&self) -> (r: &'static str)
        ensures
            r@ == match self {
                ContentType::PlainText => "text/plain; charset=utf-8"@,
                ContentType::Json => "application/json; charset=utf-8"@,
            },
    {
        match self {
            ContentType::PlainText => "text/plain; charset=utf-8",
            ContentType::Json => "application/json; charset=utf-8",
        }
    }
}

/// Without a `User-Agent` header, in any case, the user-agent route answers
/// `Unknown` on a line.
pub proof fn lemma_user_agent_route_unknown(addr: Seq<char>, hs: Seq<(Seq<char>, Seq<char>)>)
    requires
        forall|i: int| 0 <= i < hs.len() ==> !names_match(#[trigger] hs[i].0, "User-Agent"@),
    ensures
        body_of(Route::PlainUserAgent, addr, hs) == "Unknown\n"@,
{
    lemma_missing_user_agent_is_unknown(hs);
    reveal_strlit("Unknown");
    reveal_strlit("\n");
    reveal_strlit("Unknown\n");
    assert(line_of("Unknown"@) =~= "Unknown\n"@);
}

/// Rendering keeps no state from one call to the next: equal requests get
/// equal responses, byte for byte.
pub proof fn lemma_render_repeatable(
    route: Route,
    addr1: Seq<char>,
    hs1: Seq<(Seq<char>, Seq<char>)>,
    addr2: Seq<char>,
    hs2: Seq<(Seq<char>, Seq<char>)>,
)
    requires
        addr1 == addr2,
        hs1 == hs2,
    ensures
        body_of(route, addr1, hs1) == body_of(route, addr2, hs2),
{
}

/// The route served at `path`, if any: an exact match on the path.
pub fn route_for(path: &str) -> (r: Option<Route>)
    ensures
        r == route_of(path@),
{
    if same_text(path, "/") {
        Some(Route::Landing)
    } else if same_text(path, "/ip") || same_text(path, "/raw/ip") {
        Some(Route::PlainAddress)
    } else if same_text(path, "/ua") || same_text(path, "/raw/useragent") {
        Some(Route::PlainUserAgent)
    } else if same_text(path, "/raw/headers") {
        Some(Route::PlainHeaders)
    } else if same_text(path, "/all") || same_text(path, "/raw/all") {
        Some(Route::PlainCombined)
    } else if same_text(path, "/json/ip") {
        Some(Route::JsonAddress)
    } else if same_text(path, "/json/useragent") {
        Some(Route::JsonUserAgent)
    } else if same_text(path, "/json/headers") {
        Some(Route::JsonHeaders)
    } else if same_text(path, "/json/all") {
        Some(Route::JsonCombined)
    } else {
        None
    }
}

/// Renders a route that reads only the user agent, for a caller at `addr`
/// whose user agent is `ua`: status 200, the route's content type and body.
pub fn render_user_agent(route: Route, addr: &str, ua: &str) -> (r: Response)
    requires
        reads_user_agent(route),
    ensures
        is_rendering(r, route, user_agent_body(route, addr@, ua@)),
{
    match route {
        Route::Landing => {
            let body = if is_tool_like(ua) {
                as_line(addr)
            } else {
                landing(addr)
            };
            Response { status: 200, content_type: ContentType::PlainText, body }
        },
        Route::JsonUserAgent => Response {
            status: 200,
            content_type: ContentType::Json,
            body: json_user_agent(ua),
        },
        _ => Response { status: 200, content_type: ContentType::PlainText, body: as_line(ua) },
    }
}

/// Renders `route` for a caller at `addr` that sent `headers`: status 200,
/// the route's content type and body.
pub fn render(route: Route, addr: &str, headers: &HeaderSet) -> (r: Response)
    ensures
        r.status == 200,
        r.content_type == content_type_of(route),
        r.body@ == body_of(route, addr@, headers@),
{
    if route == Route::Landing || route == Route::PlainUserAgent || route == Route::JsonUserAgent {
        let ua = headers.user_agent();
        return render_user_agent(route, addr, ua.as_str());
    }
    let body = match route {
        Route::PlainAddress => as_line(addr),
        Route::PlainHeaders => header_dump(headers),
        Route::PlainCombined => combined_dump(addr, headers),
        Route::JsonAddress => json_address(addr),
        Route::JsonHeaders => json_headers(headers),
        _ => json_combined(addr, headers),
    };
    let content_type = match route {
        Route::JsonAddress | Route::JsonUserAgent | Route::JsonHeaders | Route::JsonCombined => {
            ContentType::Json
        },
        _ => ContentType::PlainText,
    };
    Response { status: 200, content_type, body }
}

/// The response to a request for `path` from the caller whose connection
/// info is `peer`, with the headers `raw`. `None` where no route serves the
/// path. A route answers 500 with an empty body when a header value that it
/// reads is not text: any value for the routes that dump the headers, the
/// `User-Agent` value for the routes that read only that. Every other answer
/// is the route's rendering.
pub fn handle(path: &str, peer: Option<&str>, raw: &Vec<RawHeader>) -> (r: Option<Response>)
    ensures
        r is None <==> route_of(path@) is None,
        r matches Some(resp) ==> {
            let route = route_of(path@)->Some_0;
            let addr = peer_address(
                match peer {
                    Some(s) => Some(s@),
                    None => None,
                },
            );
            if reads_all_headers(route) {
                if all_text(raw@) {
                    is_rendering(resp, route, body_of(route, addr, decoded(raw@)))
                } else {
                    is_failure(resp)
                }
            } else if reads_user_agent(route) {
                if user_agent_is_text(raw@) {
                    is_rendering(resp, route, user_agent_body(route, addr, raw_user_agent(raw@)))
                } else {
                    is_failure(resp)
                }
            } else {
                is_rendering(resp, route, body_of(route, addr, Seq::empty()))
            }
        },
{
    let route = match route_for(path) {
        Some(route) => route,
        None => {
            return None;
        },
    };
    let addr = client_address(peer);
    let failure = Response { status: 500, content_type: ContentType::PlainText, body: String::new() };
    if route == Route::PlainAddress || route == Route::JsonAddress {
        let none = HeaderSet { entries: Vec::new() };
        assert(none@ =~= Seq::<(Seq<char>, Seq<char>)>::empty());
        return Some(render(route, addr.as_str(), &none));
    }
    if route == Route::Landing || route == Route::PlainUserAgent || route == Route::JsonUserAgent {
        return match decode_user_agent(raw) {
            Some(ua) => Some(render_user_agent(route, addr.as_str(), ua.as_str())),
            None => Some(failure),
        };
    }
    match decode_headers(raw) {
        Some(headers) => Some(render(route, addr.as_str(), &headers)),
        None => Some(failure),
    }
}

} // verus!
