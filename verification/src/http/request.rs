//! The request line: `<METHOD> <PATH> <VERSION>`.

use crate::text::{
    chars_of, is_word, lemma_tokens_are_words, lemma_tokens_from_step, lemma_tokens_space,
    lemma_tokens_word, same_text, scan_spaces, scan_word, tokens, tokens_from,
};
use vstd::prelude::*;
use vstd::std_specs::cmp::PartialEqSpecImpl;
use vstd::std_specs::convert::TryFromSpecImpl;
use vstd::string::StrSliceExecFns;

verus! {

/// Why a request line was rejected.
#[derive(Clone, Copy, Debug, PartialEq, Eq, Structural)]
pub enum ParseError {
    /// The line does not hold exactly three tokens.
    MalformedRequest,
    /// The first token names no supported method.
    UnsupportedMethod,
    /// The third token names no supported protocol version.
    UnsupportedVersion,
}

/// The request methods that are served.
#[derive(Clone, Copy, Debug, PartialEq, Eq, Structural)]
pub enum Method {
    /// `GET`
    Get,
}

/// The protocol versions that are recognised.
#[derive(Clone, Copy, Debug, PartialEq, Eq, Structural)]
pub enum Version {
    /// `HTTP/1.1`
    H1,
    /// `HTTP/2.0`
    H2,
}

/// A parsed request line.
#[derive(Debug)]
pub struct RequestHeader {
    pub method: Method,
    /// The second token of the line, as it stood there.
    pub path: String,
    pub version: Version,
}

/// What a [`RequestHeader`] stands for: its path as a sequence of characters.
pub struct RequestLine {
    pub method: Method,
    pub path: Seq<char>,
    pub version: Version,
}

impl View for RequestHeader {
    type V = RequestLine;

    open spec fn view(&self) -> RequestLine {
        RequestLine { method: self.method, path: self.path@, version: self.version }
    }
}

impl Clone for RequestHeader {
    fn clone(&self) -> (copy: RequestHeader)
        ensures
            copy@ == self@,
    {
        RequestHeader { method: self.method, path: self.path.clone(), version: self.version }
    }
}

impl PartialEq for RequestHeader {
    /// Whether method, path and version are the same.
    fn eq(&self, other: &RequestHeader) -> (equal: bool)
        ensures
            equal == (self@ == other@),
    {
        self.method == other.method && self.path == other.path && self.version == other.version
    }
}

impl PartialEqSpecImpl for RequestHeader {
    open spec fn obeys_eq_spec() -> bool {
        true
    }

    open spec fn eq_spec(&self, other: &RequestHeader) -> bool {
        self@ == other@
    }
}

impl Eq for RequestHeader {}

/// The method that a token names.
pub open spec fn method_of(token: Seq<char>) -> Option<Method> {
    if token == "GET"@ {
        Some(Method::Get)
    } else {
        None
    }
}

/// The version that a token names.
pub open spec fn version_of(token: Seq<char>) -> Option<Version> {
    if token == "HTTP/1.1"@ {
        Some(Version::H1)
    } else if token == "HTTP/2.0"@ {
        Some(Version::H2)
    } else {
        None
    }
}

/// How a version is written on the wire.
pub open spec fn version_text(version: Version) -> Seq<char> {
    match version {
        Version::H1 => "HTTP/1.1"@,
        Version::H2 => "HTTP/2.0"@,
    }
}

/// The meaning of a request line. A line is exactly three tokens: the
/// method, the path and the version. The token count is checked first, then
/// the method, then the version; the path is taken as it stands.
pub open spec fn parse_request_line(line: Seq<char>) -> Result<RequestLine, ParseError> {
    let words = tokens(line);
    if words.len() != 3 {
        Err(ParseError::MalformedRequest)
    } else {
        match method_of(words[0]) {
            None => Err(ParseError::UnsupportedMethod),
            Some(method) => match version_of(words[2]) {
                None => Err(ParseError::UnsupportedVersion),
                Some(version) => Ok(RequestLine { method, path: words[1], version }),
            },
        }
    }
}

/// Each failure comes on its own lines, and on all of them: a token count
/// other than three first, then a method other than `GET`, then an unknown
/// version. A line parses if and only if its tokens are exactly `GET`, a
/// path and a known version, and its path is then the second token as it
/// stands: a word.
pub proof fn lemma_parse_outcomes(line: Seq<char>)
    ensures
        parse_request_line(line) == Err::<RequestLine, ParseError>(ParseError::MalformedRequest)
            <==> tokens(line).len() != 3,
        parse_request_line(line) == Err::<RequestLine, ParseError>(ParseError::UnsupportedMethod)
            <==> tokens(line).len() == 3 && tokens(line)[0] != "GET"@,
        parse_request_line(line) == Err::<RequestLine, ParseError>(ParseError::UnsupportedVersion)
            <==> tokens(line).len() == 3 && tokens(line)[0] == "GET"@ && tokens(line)[2]
            != "HTTP/1.1"@ && tokens(line)[2] != "HTTP/2.0"@,
        parse_request_line(line) is Ok <==> tokens(line).len() == 3 && tokens(line)[0] == "GET"@
            && (tokens(line)[2] == "HTTP/1.1"@ || tokens(line)[2] == "HTTP/2.0"@),
        parse_request_line(line) matches Ok(request) ==> request.path == tokens(line)[1]
            && is_word(request.path),
{
    lemma_tokens_are_words(line, 0);
}

/// Three words with one space between them are three tokens.
proof fn lemma_three_words(first: Seq<char>, second: Seq<char>, third: Seq<char>)
    requires
        is_word(first),
        is_word(second),
        is_word(third),
    ensures
        tokens(first + seq![' '] + second + seq![' '] + third) == seq![first, second, third],
{
    let nothing = Seq::<char>::empty();
    let after_second = seq![' '] + third;
    let after_first = seq![' '] + (second + after_second);
    lemma_tokens_word(third, nothing);
    lemma_tokens_space(' ', third);
    lemma_tokens_word(second, after_second);
    lemma_tokens_space(' ', second + after_second);
    lemma_tokens_word(first, after_first);
    assert(first + seq![' '] + second + seq![' '] + third == first + after_first);
    assert(seq![first] + (seq![second] + (seq![third] + Seq::<Seq<char>>::empty())) == seq![
        first,
        second,
        third,
    ]);
}

/// A line made of `GET`, a path and a recognised version, with one space
/// between them, parses to that path and that version. A path is any
/// non-empty text without whitespace.
pub proof fn lemma_well_formed_line_parses(path: Seq<char>, version: Version)
    requires
        is_word(path),
    ensures
        parse_request_line("GET"@ + " "@ + path + " "@ + version_text(version)) == Ok::<
            RequestLine,
            ParseError,
        >(RequestLine { method: Method::Get, path, version }),
{
    let name = version_text(version);
    assert(is_word("GET"@) && " "@ == seq![' ']) by {
        reveal_strlit("GET");
        reveal_strlit(" ");
    }
    assert(is_word(name) && version_of(name) == Some(version)) by {
        reveal_strlit("HTTP/1.1");
        reveal_strlit("HTTP/2.0");
        assert("HTTP/1.1"@[5] != "HTTP/2.0"@[5]);
    }
    lemma_three_words("GET"@, path, name);
}

impl<'a> TryFrom<&'a str> for Method {
    type Error = ParseError;

    /// Reads a method token: the whole of `token` must name the method.
    fn try_from(token: &'a str) -> (method: Result<Method, ParseError>)
        ensures
            method == match method_of(token@) {
                Some(m) => Ok::<Method, ParseError>(m),
                None => Err(ParseError::UnsupportedMethod),
            },
    {
        if same_text(token, "GET") {
            Ok(Method::Get)
        } else {
            Err(ParseError::UnsupportedMethod)
        }
    }
}

impl<'a> TryFromSpecImpl<&'a str> for Method {
    open spec fn obeys_try_from_spec() -> bool {
        true
    }

    open spec fn try_from_spec(token: &'a str) -> Result<Method, ParseError> {
        match method_of(token@) {
            Some(m) => Ok(m),
            None => Err(ParseError::UnsupportedMethod),
        }
    }
}

impl<'a> TryFrom<&'a str> for Version {
    type Error = ParseError;

    /// Reads a version token: the whole of `token` must be one of the two
    /// recognised version strings.
    fn try_from(token: &'a str) -> (version: Result<Version, ParseError>)
        ensures
            version == match version_of(token@) {
                Some(v) => Ok::<Version, ParseError>(v),
                None => Err(ParseError::UnsupportedVersion),
            },
    {
        if same_text(token, "HTTP/1.1") {
            Ok(Version::H1)
        } else if same_text(token, "HTTP/2.0") {
            Ok(Version::H2)
        } else {
            Err(ParseError::UnsupportedVersion)
        }
    }
}

impl<'a> TryFromSpecImpl<&'a str> for Version {
    open spec fn obeys_try_from_spec() -> bool {
        true
    }

    open spec fn try_from_spec(token: &'a str) -> Result<Version, ParseError> {
        match version_of(token@) {
            Some(v) => Ok(v),
            None => Err(ParseError::UnsupportedVersion),
        }
    }
}

impl Version {
    /// The version as it is written on the wire.
    pub fn as_str(&self) -> (text: &'static str)
        ensures
            text@ == version_text(*self),
    {
        match self {
            Version::H1 => "HTTP/1.1",
            Version::H2 => "HTTP/2.0",
        }
    }

    /// The version as it is written on the wire, as an owned string.
    pub fn to_string(&self) -> (text: String)
        ensures
            text@ == version_text(*self),
    {
        self.as_str().to_owned()
    }
}

/// Finds the bounds of the first token of `chars` at or after `from`. The
/// bounds are equal where no token is left.
fn next_token(chars: &Vec<char>, from: usize) -> (bounds: (usize, usize))
    requires
        from <= chars.len(),
    ensures
        from <= bounds.0 <= bounds.1 <= chars.len(),
        bounds.0 == bounds.1 ==> tokens_from(chars@, from as int) == Seq::<Seq<char>>::empty(),
        bounds.0 < bounds.1 ==> tokens_from(chars@, from as int) == seq![
            chars@.subrange(bounds.0 as int, bounds.1 as int),
        ] + tokens_from(chars@, bounds.1 as int),
{
    proof {
        lemma_tokens_from_step(chars@, from as int);
    }
    let start = scan_spaces(chars, from);
    let end = scan_word(chars, start);
    (start, end)
}

impl<'a> TryFrom<&'a str> for RequestHeader {
    type Error = ParseError;

    /// Parses a request line: exactly three tokens, with any whitespace
    /// before, between and after them.
    fn try_from(line: &'a str) -> (request: Result<RequestHeader, ParseError>)
        ensures
            match request {
                Ok(header) => parse_request_line(line@) == Ok::<RequestLine, ParseError>(header@),
                Err(error) => parse_request_line(line@) == Err::<RequestLine, ParseError>(error),
            },
    {
        let chars = chars_of(line);
        let (method_start, method_end) = next_token(&chars, 0);
        if method_start == method_end {
            return Err(ParseError::MalformedRequest);
        }
        let (path_start, path_end) = next_token(&chars, method_end);
        if path_start == path_end {
            return Err(ParseError::MalformedRequest);
        }
        let (version_start, version_end) = next_token(&chars, path_end);
        if version_start == version_end {
            return Err(ParseError::MalformedRequest);
        }
        let (extra_start, extra_end) = next_token(&chars, version_end);
        if extra_start != extra_end {
            return Err(ParseError::MalformedRequest);
        }
        let method = match Method::try_from(line.substring_char(method_start, method_end)) {
            Ok(method) => method,
            Err(error) => {
                return Err(error);
            },
        };
        let version = match Version::try_from(line.substring_char(version_start, version_end)) {
            Ok(version) => version,
            Err(error) => {
                return Err(error);
            },
        };
        let path = line.substring_char(path_start, path_end).to_owned();
        Ok(RequestHeader { method, path, version })
    }
}

/// A parsed request owns its path, and ghost code cannot name an owned
/// string by its characters: what the conversion returns is stated by the
/// `ensures` of `try_from`, over [`parse_request_line`].
impl<'a> TryFromSpecImpl<&'a str> for RequestHeader {
    open spec fn obeys_try_from_spec() -> bool {
        false
    }

    open spec fn try_from_spec(line: &'a str) -> Result<RequestHeader, ParseError> {
        arbitrary()
    }
}

} // verus!
