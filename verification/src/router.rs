//! The route table: which body a request is answered with, and under which
//! status. Routing decides and loads nothing; the caller carries the decision
//! out and hands the result to [`respond`].

use crate::http::headers::Headers;
use crate::http::request::{parse_request_line, ParseError, RequestHeader, Version};
use crate::http::response::Response;
use crate::http::status::{reason_text, StatusCode};
use vstd::prelude::*;

verus! {

/// The two bodies that are served.
#[derive(Clone, Copy, Debug, PartialEq, Eq, Structural)]
pub enum Resource {
    /// The body of the routes that are found.
    Primary,
    /// The body of every other route.
    NotFound,
}

/// A resource could not be loaded: it is missing or cannot be read.
#[derive(Clone, Copy, Debug, PartialEq, Eq, Structural)]
pub struct ResourceUnavailable;

/// What is to be done for a request.
#[derive(Clone, Copy, Debug, PartialEq, Eq, Structural)]
pub enum ResponseDecision {
    /// Serve the primary resource.
    Primary,
    /// Wait, then serve the primary resource.
    DelayedPrimary,
    /// Serve the not-found resource.
    NotFound,
}

/// How long the delayed route waits, in seconds.
pub const SLEEP_SECONDS: u64 = 5;

/// The route table, first match first: `/`, then `/sleep`, then the rest.
/// Paths are compared character by character.
pub open spec fn decide(path: Seq<char>) -> ResponseDecision {
    if path == "/"@ {
        ResponseDecision::Primary
    } else if path == "/sleep"@ {
        ResponseDecision::DelayedPrimary
    } else {
        ResponseDecision::NotFound
    }
}

/// The resource that a decision serves.
pub open spec fn resource_of(decision: ResponseDecision) -> Resource {
    match decision {
        ResponseDecision::Primary => Resource::Primary,
        ResponseDecision::DelayedPrimary => Resource::Primary,
        ResponseDecision::NotFound => Resource::NotFound,
    }
}

/// The status code that a decision answers with.
pub open spec fn status_of(decision: ResponseDecision) -> u16 {
    match decision {
        ResponseDecision::Primary => 200,
        ResponseDecision::DelayedPrimary => 200,
        ResponseDecision::NotFound => 404,
    }
}

/// The seconds that a decision waits before it loads its resource.
pub open spec fn delay_of(decision: ResponseDecision) -> u64 {
    match decision {
        ResponseDecision::DelayedPrimary => SLEEP_SECONDS,
        _ => 0,
    }
}

/// Every path gets exactly one of the three decisions, by the first row of
/// the table that matches it.
pub proof fn lemma_route_first_match(path: Seq<char>)
    ensures
        decide(path) == ResponseDecision::Primary <==> path == "/"@,
        decide(path) == ResponseDecision::DelayedPrimary <==> path == "/sleep"@,
        decide(path) == ResponseDecision::NotFound <==> path != "/"@ && path != "/sleep"@,
{
    reveal_strlit("/");
    reveal_strlit("/sleep");
    assert("/"@.len() != "/sleep"@.len());
}

impl Resource {
    /// The name under which the resource is loaded.
    pub fn name(&self) -> (name: &'static str)
        ensures
            name@ == match *self {
                Resource::Primary => "index.html"@,
                Resource::NotFound => "404.html"@,
            },
    {
        match self {
            Resource::Primary => "index.html",
            Resource::NotFound => "404.html",
        }
    }
}

impl ResponseDecision {
    /// The resource to load.
    pub fn resource(&self) -> (resource: Resource)
        ensures
            resource == resource_of(*self),
    {
        match self {
            ResponseDecision::Primary => Resource::Primary,
            ResponseDecision::DelayedPrimary => Resource::Primary,
            ResponseDecision::NotFound => Resource::NotFound,
        }
    }

    /// The status to answer with.
    pub fn status(&self) -> (status: StatusCode)
        ensures
            status.0 == status_of(*self),
    {
        match self {
            ResponseDecision::Primary => StatusCode(200),
            ResponseDecision::DelayedPrimary => StatusCode(200),
            ResponseDecision::NotFound => StatusCode(404),
        }
    }

    /// The seconds to wait before the resource is loaded.
    pub fn delay_seconds(&self) -> (seconds: u64)
        ensures
            seconds == delay_of(*self),
    {
        match self {
            ResponseDecision::DelayedPrimary => SLEEP_SECONDS,
            _ => 0,
        }
    }
}

/// Routes a request by its path.
pub fn route(request: &RequestHeader) -> (decision: ResponseDecision)
    ensures
        decision == decide(request.path@),
{
    let path = request.path.as_str();
    if crate::text::same_text(path, "/") {
        ResponseDecision::Primary
    } else if crate::text::same_text(path, "/sleep") {
        ResponseDecision::DelayedPrimary
    } else {
        ResponseDecision::NotFound
    }
}

/// Parses a request line and routes it.
pub fn plan(line: &str) -> (planned: Result<ResponseDecision, ParseError>)
    ensures
        planned == match parse_request_line(line@) {
            Ok(request) => Ok::<ResponseDecision, ParseError>(decide(request.path)),
            Err(error) => Err(error),
        },
{
    match RequestHeader::try_from(line) {
        Ok(request) => Ok(route(&request)),
        Err(error) => Err(error),
    }
}

/// The response to a decision once its resource was asked for. A resource
/// that was loaded is the body, under the status of the decision; one that
/// could not be loaded gives status 500 with its reason phrase as the body.
/// Either way the version is HTTP/1.1 and no header is set.
pub fn respond(decision: ResponseDecision, loaded: Result<String, ResourceUnavailable>) -> (response:
    Response)
    ensures
        response.version == Version::H1,
        response.headers@ == Seq::<(Seq<char>, Seq<char>)>::empty(),
        match loaded {
            Ok(body) => response.status.0 == status_of(decision) && response.body@ == body@,
            Err(_) => response.status.0 == 500 && response.body@ == reason_text(500),
        },
{
    match loaded {
        Ok(body) => Response {
            version: Version::H1,
            status: decision.status(),
            headers: Headers::new(),
            body,
        },
        Err(_) => {
            let status = StatusCode(500);
            Response {
                version: Version::H1,
                status,
                headers: Headers::new(),
                body: String::from(status),
            }
        },
    }
}

} // verus!
