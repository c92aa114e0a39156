use hello::http::{Method, ParseError, RequestHeader, StatusCode, Version};
use hello::router::{
    plan, respond, route, Resource, ResourceUnavailable, ResponseDecision, SLEEP_SECONDS,
};

fn request(path: &str) -> RequestHeader {
    RequestHeader { method: Method::Get, path: path.to_string(), version: Version::H1 }
}

#[test]
fn the_root_is_served_the_primary_resource() {
    let decision = route(&request("/"));
    assert_eq!(decision, ResponseDecision::Primary);
    assert_eq!(decision.resource(), Resource::Primary);
    assert_eq!(decision.status(), StatusCode(200));
    assert_eq!(decision.delay_seconds(), 0);
}

#[test]
fn the_slow_route_waits_five_seconds() {
    let decision = route(&request("/sleep"));
    assert_eq!(decision, ResponseDecision::DelayedPrimary);
    assert_eq!(decision.resource(), Resource::Primary);
    assert_eq!(decision.status(), StatusCode(200));
    assert_eq!(decision.delay_seconds(), 5);
    assert_eq!(SLEEP_SECONDS, 5);
}

#[test]
fn every_other_path_is_not_found() {
    for path in ["/missing", "", "//", "/sleep/", "/Sleep", "/sleep?x", " /", "/index.html"] {
        let decision = route(&request(path));
        assert_eq!(decision, ResponseDecision::NotFound, "{path:?}");
        assert_eq!(decision.resource(), Resource::NotFound);
        assert_eq!(decision.status(), StatusCode(404));
        assert_eq!(decision.delay_seconds(), 0);
    }
}

#[test]
fn routing_looks_at_the_path_only() {
    let mut second = request("/");
    second.version = Version::H2;
    assert_eq!(route(&second), ResponseDecision::Primary);
}

#[test]
fn resources_have_their_names() {
    assert_eq!(Resource::Primary.name(), "index.html");
    assert_eq!(Resource::NotFound.name(), "404.html");
}

#[test]
fn a_line_is_parsed_and_routed() {
    assert_eq!(plan("GET / HTTP/1.1"), Ok(ResponseDecision::Primary));
    assert_eq!(plan("GET /sleep HTTP/2.0\r\n"), Ok(ResponseDecision::DelayedPrimary));
    assert_eq!(plan("GET /missing HTTP/1.1"), Ok(ResponseDecision::NotFound));
    assert_eq!(plan("GET /"), Err(ParseError::MalformedRequest));
    assert_eq!(plan("GET / HTTP/1.1 extra"), Err(ParseError::MalformedRequest));
    assert_eq!(plan("PUT / HTTP/1.1"), Err(ParseError::UnsupportedMethod));
    assert_eq!(plan("GET / HTTP/0.9"), Err(ParseError::UnsupportedVersion));
}

#[test]
fn a_loaded_resource_is_the_body() {
    let response = respond(ResponseDecision::Primary, Ok("<h1>Hello!</h1>".to_string()));
    assert_eq!(response.version, Version::H1);
    assert_eq!(response.status, StatusCode(200));
    assert!(response.headers.is_empty());
    assert_eq!(response.body, "<h1>Hello!</h1>");

    let response = respond(ResponseDecision::DelayedPrimary, Ok(String::new()));
    assert_eq!(response.status, StatusCode(200));
    assert_eq!(response.body, "");

    let response = respond(ResponseDecision::NotFound, Ok("Oops!".to_string()));
    assert_eq!(response.status, StatusCode(404));
    assert_eq!(response.body, "Oops!");
}

#[test]
fn a_resource_that_cannot_be_loaded_gives_a_server_error() {
    for decision in
        [ResponseDecision::Primary, ResponseDecision::DelayedPrimary, ResponseDecision::NotFound]
    {
        let response = respond(decision, Err(ResourceUnavailable));
        assert_eq!(response.version, Version::H1);
        assert_eq!(response.status, StatusCode(500));
        assert!(response.headers.is_empty());
        assert_eq!(response.body, "Internal Server Error");
        assert_eq!(
            String::from(response),
            "HTTP/1.1 500 Internal Server Error\r\nContent-Length: 21\r\n\r\nInternal Server Error"
        );
    }
}

fn answer(line: &str, primary: &str, not_found: &str) -> Result<String, ParseError> {
    let decision = plan(line)?;
    let body = match decision.resource() {
        Resource::Primary => primary,
        Resource::NotFound => not_found,
    };
    Ok(String::from(respond(decision, Ok(body.to_string()))))
}

#[test]
fn the_root_is_answered_with_the_primary_resource() {
    let framed = answer("GET / HTTP/1.1", "OK", "missing").unwrap();
    assert!(framed.starts_with("HTTP/1.1 200 OK\r\n"));
    assert!(framed.contains("Content-Length: 2\r\n"));
    assert!(framed.ends_with("\r\n\r\nOK"));
    assert_eq!(framed, "HTTP/1.1 200 OK\r\nContent-Length: 2\r\n\r\nOK");
}

#[test]
fn a_missing_path_is_answered_with_not_found() {
    let framed = answer("GET /missing HTTP/1.1", "OK", "nothing here").unwrap();
    assert!(framed.starts_with("HTTP/1.1 404 Not Found\r\n"));
    assert_eq!(framed, "HTTP/1.1 404 Not Found\r\nContent-Length: 12\r\n\r\nnothing here");
}

#[test]
fn a_line_that_does_not_parse_is_not_answered() {
    assert_eq!(answer("", "OK", "missing"), Err(ParseError::MalformedRequest));
    assert_eq!(answer("DELETE / HTTP/1.1", "OK", "missing"), Err(ParseError::UnsupportedMethod));
    assert_eq!(answer("GET / HTTP/1.0", "OK", "missing"), Err(ParseError::UnsupportedVersion));
}
