use hello::http::{Method, ParseError, RequestHeader, Version};

fn parsed(line: &str) -> RequestHeader {
    match RequestHeader::try_from(line) {
        Ok(request) => request,
        Err(error) => panic!("{line:?} was rejected: {error:?}"),
    }
}

#[test]
fn parses_a_well_formed_line() {
    let request = parsed("GET /x HTTP/1.1");
    assert_eq!(request.method, Method::Get);
    assert_eq!(request.path, "/x");
    assert_eq!(request.version, Version::H1);
}

#[test]
fn parses_the_second_version() {
    let request = parsed("GET / HTTP/2.0");
    assert_eq!(
        request,
        RequestHeader { method: Method::Get, path: String::from("/"), version: Version::H2 }
    );
}

#[test]
fn well_formed_lines_give_back_their_path() {
    for path in ["/", "/sleep", "/missing", "/a/b/c.html", "*", "/caf\u{e9}", "x"] {
        for (text, version) in [("HTTP/1.1", Version::H1), ("HTTP/2.0", Version::H2)] {
            let request = parsed(&format!("GET {path} {text}"));
            assert_eq!(request.method, Method::Get);
            assert_eq!(request.path, path);
            assert_eq!(request.version, version);
        }
    }
}

#[test]
fn takes_the_path_as_it_stands() {
    assert_eq!(parsed("GET /a%20b/../c?x=1&y=%2F#top HTTP/1.1").path, "/a%20b/../c?x=1&y=%2F#top");
    assert_eq!(parsed("GET //double//slash/ HTTP/1.1").path, "//double//slash/");
    assert_eq!(parsed("GET /UPPER HTTP/1.1").path, "/UPPER");
}

#[test]
fn splits_on_any_run_of_whitespace() {
    let expected =
        RequestHeader { method: Method::Get, path: String::from("/x"), version: Version::H1 };
    assert_eq!(parsed("GET /x HTTP/1.1\r\n"), expected);
    assert_eq!(parsed("  GET   /x \t HTTP/1.1  "), expected);
    assert_eq!(parsed("\tGET\t/x\tHTTP/1.1\n"), expected);
    assert_eq!(parsed("GET\u{a0}/x\u{3000}HTTP/1.1\u{2028}"), expected);
    assert_eq!(parsed("GET\u{b}/x\u{c}HTTP/1.1\u{85}"), expected);
}

#[test]
fn rejects_more_than_three_tokens() {
    assert_eq!(RequestHeader::try_from("GET /x HTTP/1.1 extra"), Err(ParseError::MalformedRequest));
    assert_eq!(
        RequestHeader::try_from("GET /x HTTP/1.1 and more\r\n"),
        Err(ParseError::MalformedRequest)
    );
    assert_eq!(RequestHeader::try_from("GET / /x HTTP/1.1"), Err(ParseError::MalformedRequest));
    assert_eq!(
        RequestHeader::try_from("GET /x HTTP/1.1\r\nHost: localhost"),
        Err(ParseError::MalformedRequest)
    );
    assert_eq!(RequestHeader::try_from("GET /x HTTP/1.1 x"), Err(ParseError::MalformedRequest));
}

#[test]
fn rejects_an_empty_line() {
    assert_eq!(RequestHeader::try_from(""), Err(ParseError::MalformedRequest));
    assert_eq!(RequestHeader::try_from("   \t\r\n"), Err(ParseError::MalformedRequest));
}

#[test]
fn rejects_fewer_than_three_tokens() {
    assert_eq!(RequestHeader::try_from("GET"), Err(ParseError::MalformedRequest));
    assert_eq!(RequestHeader::try_from("GET /x"), Err(ParseError::MalformedRequest));
    assert_eq!(RequestHeader::try_from("GET /x\r\n"), Err(ParseError::MalformedRequest));
    assert_eq!(RequestHeader::try_from("/x HTTP/1.1"), Err(ParseError::MalformedRequest));
}

#[test]
fn counts_the_tokens_before_it_reads_them() {
    assert_eq!(RequestHeader::try_from("POST"), Err(ParseError::MalformedRequest));
    assert_eq!(RequestHeader::try_from("POST /x"), Err(ParseError::MalformedRequest));
    assert_eq!(RequestHeader::try_from("GET HTTP/9"), Err(ParseError::MalformedRequest));
    assert_eq!(RequestHeader::try_from("POST /x HTTP/1.1 extra"), Err(ParseError::MalformedRequest));
    assert_eq!(RequestHeader::try_from("GET /x HTTP/9 extra"), Err(ParseError::MalformedRequest));
}

#[test]
fn rejects_an_unknown_method() {
    for method in ["POST", "PUT", "HEAD", "get", "Get", "GETS", "GE", "G\u{45}T!"] {
        assert_eq!(
            RequestHeader::try_from(format!("{method} /x HTTP/1.1").as_str()),
            Err(ParseError::UnsupportedMethod),
            "{method}"
        );
    }
}

#[test]
fn rejects_an_unknown_version() {
    for version in ["HTTP/1.0", "HTTP/2", "HTTP/3.0", "http/1.1", "HTTP/1.1x", "HTTP/1.", "1.1"] {
        assert_eq!(
            RequestHeader::try_from(format!("GET /x {version}").as_str()),
            Err(ParseError::UnsupportedVersion),
            "{version}"
        );
    }
}

#[test]
fn reads_the_method_before_the_version() {
    assert_eq!(RequestHeader::try_from("POST /x HTTP/1.0"), Err(ParseError::UnsupportedMethod));
}

#[test]
fn a_no_break_space_inside_a_token_splits_it() {
    assert_eq!(RequestHeader::try_from("GET /a\u{a0}b HTTP/1.1"), Err(ParseError::MalformedRequest));
    assert_eq!(RequestHeader::try_from("GET /a\u{a0}HTTP/1.1"), Ok(parsed("GET /a HTTP/1.1")));
}

#[test]
fn a_zero_width_space_is_part_of_a_token() {
    assert_eq!(parsed("GET /a\u{200b}b HTTP/1.1").path, "/a\u{200b}b");
    assert_eq!(
        RequestHeader::try_from("GET\u{200b} /x HTTP/1.1"),
        Err(ParseError::UnsupportedMethod)
    );
}

#[test]
fn reads_a_method_token() {
    assert_eq!(Method::try_from("GET"), Ok(Method::Get));
    assert_eq!(Method::try_from("POST"), Err(ParseError::UnsupportedMethod));
    assert_eq!(Method::try_from("get"), Err(ParseError::UnsupportedMethod));
    assert_eq!(Method::try_from(""), Err(ParseError::UnsupportedMethod));
    assert_eq!(Method::try_from(" GET"), Err(ParseError::UnsupportedMethod));
    assert_eq!(Method::try_from("GET "), Err(ParseError::UnsupportedMethod));
}

#[test]
fn reads_a_version_token() {
    assert_eq!(Version::try_from("HTTP/1.1"), Ok(Version::H1));
    assert_eq!(Version::try_from("HTTP/2.0"), Ok(Version::H2));
    assert_eq!(Version::try_from("HTTP/1.0"), Err(ParseError::UnsupportedVersion));
    assert_eq!(Version::try_from("HTTP/2"), Err(ParseError::UnsupportedVersion));
    assert_eq!(Version::try_from(""), Err(ParseError::UnsupportedVersion));
    assert_eq!(Version::try_from("HTTP/1.1 "), Err(ParseError::UnsupportedVersion));
}

#[test]
fn converts_through_try_into() {
    let method: Result<Method, ParseError> = "GET".try_into();
    assert_eq!(method, Ok(Method::Get));
    let request: Result<RequestHeader, ParseError> = "GET / HTTP/1.1".try_into();
    assert_eq!(request.map(|r| r.path), Ok(String::from("/")));
}

#[test]
fn writes_a_version_as_it_reads_it() {
    assert_eq!(Version::H1.to_string(), "HTTP/1.1");
    assert_eq!(Version::H2.to_string(), "HTTP/2.0");
    assert_eq!(Version::H1.as_str(), "HTTP/1.1");
    assert_eq!(Version::H2.as_str(), "HTTP/2.0");
    for version in [Version::H1, Version::H2] {
        assert_eq!(Version::try_from(version.as_str()), Ok(version));
    }
}

#[test]
fn requests_are_compared_field_by_field() {
    let first = parsed("GET /x HTTP/1.1");
    assert_eq!(first, first.clone());
    assert_eq!(first, parsed("  GET\t/x   HTTP/1.1\r\n"));
    assert_ne!(first, parsed("GET /y HTTP/1.1"));
    assert_ne!(first, parsed("GET /x HTTP/2.0"));
}
