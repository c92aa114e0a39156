//! Status codes and their canonical reason phrases.

use vstd::prelude::*;
use vstd::std_specs::convert::FromSpecImpl;

verus! {

/// A response status code. Every 16-bit value is representable; only the
/// codes listed by [`reason_phrase`] carry a canonical reason.
#[derive(Clone, Copy, Debug, PartialEq, Eq, Structural)]
pub struct StatusCode(pub u16);

/// The canonical reason phrase of a status code, where it has one.
pub open spec fn reason_phrase(code: u16) -> Option<Seq<char>> {
    match code {
        100 => Some("Continue"@),
        101 => Some("Switching Protocols"@),
        200 => Some("OK"@),
        201 => Some("Created"@),
        202 => Some("Accepted"@),
        203 => Some("Non-Authoritative Information"@),
        204 => Some("No Content"@),
        205 => Some("Reset Content"@),
        206 => Some("Partial Content"@),
        300 => Some("Multiple Choices"@),
        301 => Some("Moved Permanently"@),
        302 => Some("Found"@),
        303 => Some("See Other"@),
        304 => Some("Not Modified"@),
        305 => Some("Use Proxy"@),
        307 => Some("Temporary Redirect"@),
        400 => Some("Bad Request"@),
        401 => Some("Unauthorized"@),
        402 => Some("Payment Required"@),
        403 => Some("Forbidden"@),
        404 => Some("Not Found"@),
        405 => Some("Method Not Allowed"@),
        406 => Some("Not Acceptable"@),
        407 => Some("Proxy Authentication Required"@),
        408 => Some("Request Time-out"@),
        409 => Some("Conflict"@),
        410 => Some("Gone"@),
        411 => Some("Length Required"@),
        412 => Some("Precondition Failed"@),
        413 => Some("Request Entity Too Large"@),
        414 => Some("Request-URI Too Large"@),
        415 => Some("Unsupported Media Type"@),
        416 => Some("Requested range not satisfiable"@),
        417 => Some("Expectation Failed"@),
        500 => Some("Internal Server Error"@),
        501 => Some("Not Implemented"@),
        502 => Some("Bad Gateway"@),
        503 => Some("Service Unavailable"@),
        504 => Some("Gateway Time-out"@),
        505 => Some("HTTP Version not supported"@),
        _ => None,
    }
}

/// The reason text that goes on the status line: the canonical phrase, or
/// nothing for a code without one.
pub open spec fn reason_text(code: u16) -> Seq<char> {
    match reason_phrase(code) {
        Some(text) => text,
        None => Seq::empty(),
    }
}

impl StatusCode {
    pub const CONTINUE: u16 = 100;
    pub const SWITCHINGPROTOCOLS: u16 = 101;
    pub const OK: u16 = 200;
    pub const CREATED: u16 = 201;
    pub const ACCEPTED: u16 = 202;
    pub const NON_AUTHORITATIVE_INFORMATION: u16 = 203;
    pub const NO_CONTENT: u16 = 204;
    pub const RESETCONTENT: u16 = 205;
    pub const PARTIALCONTENT: u16 = 206;
    pub const MULTIPLECHOICES: u16 = 300;
    pub const MOVEDPERMANENTLY: u16 = 301;
    pub const FOUND: u16 = 302;
    pub const SEEOTHER: u16 = 303;
    pub const NOTMODIFIED: u16 = 304;
    pub const USEPROXY: u16 = 305;
    pub const TEMPORARYREDIRECT: u16 = 307;
    pub const BADREQUEST: u16 = 400;
    pub const UNAUTHORIZED: u16 = 401;
    pub const PAYMENTREQUIRED: u16 = 402;
    pub const FORBIDDEN: u16 = 403;
    pub const NOTFOUND: u16 = 404;
    pub const METHODNOTALLOWED: u16 = 405;
    pub const NOTACCEPTABLE: u16 = 406;
    pub const PROXYAUTHENTICATIONREQUIRED: u16 = 407;
    pub const REQUESTTIMEOUT: u16 = 408;
    pub const CONFLICT: u16 = 409;
    pub const GONE: u16 = 410;
    pub const LENGTHREQUIRED: u16 = 411;
    pub const PRECONDITIONFAILED: u16 = 412;
    pub const REQUESTENTITYTOOLARGE: u16 = 413;
    pub const REQUESTURITOOLARGE: u16 = 414;
    pub const UNSUPPORTEDMEDIATYPE: u16 = 415;
    pub const REQUESTEDRANGENOTSATISFIABLE: u16 = 416;
    pub const EXPECTATIONFAILED: u16 = 417;
    pub const INTERNALSERVERERROR: u16 = 500;
    pub const NOTIMPLEMENTED: u16 = 501;
    pub const BAD_GATEWAY: u16 = 502;
    pub const SERVICEUNAVAILABLE: u16 = 503;
    pub const GATEWAYTIMEOUT: u16 = 504;
    pub const HTTPVERSIONNOTSUPPORTED: u16 = 505;

    /// Looks up the canonical reason phrase of `num`.
    pub fn canonical_reason(num: u16) -> (reason: Option<&'static str>)
        ensures
            reason.is_some() == reason_phrase(num).is_some(),
            reason matches Some(text) ==> reason_phrase(num) == Some(text@),
    {
        match num {
            100 => Some("Continue"),
            101 => Some("Switching Protocols"),
            200 => Some("OK"),
            201 => Some("Created"),
            202 => Some("Accepted"),
            203 => Some("Non-Authoritative Information"),
            204 => Some("No Content"),
            205 => Some("Reset Content"),
            206 => Some("Partial Content"),
            300 => Some("Multiple Choices"),
            301 => Some("Moved Permanently"),
            302 => Some("Found"),
            303 => Some("See Other"),
            304 => Some("Not Modified"),
            305 => Some("Use Proxy"),
            307 => Some("Temporary Redirect"),
            400 => Some("Bad Request"),
            401 => Some("Unauthorized"),
            402 => Some("Payment Required"),
            403 => Some("Forbidden"),
            404 => Some("Not Found"),
            405 => Some("Method Not Allowed"),
            406 => Some("Not Acceptable"),
            407 => Some("Proxy Authentication Required"),
            408 => Some("Request Time-out"),
            409 => Some("Conflict"),
            410 => Some("Gone"),
            411 => Some("Length Required"),
            412 => Some("Precondition Failed"),
            413 => Some("Request Entity Too Large"),
            414 => Some("Request-URI Too Large"),
            415 => Some("Unsupported Media Type"),
            416 => Some("Requested range not satisfiable"),
            417 => Some("Expectation Failed"),
            500 => Some("Internal Server Error"),
            501 => Some("Not Implemented"),
            502 => Some("Bad Gateway"),
            503 => Some("Service Unavailable"),
            504 => Some("Gateway Time-out"),
            505 => Some("HTTP Version not supported"),
            _ => None,
        }
    }
}

impl From<StatusCode> for u16 {
    /// The number of the status code.
    fn from(val: StatusCode) -> (code: u16)
        ensures
            code == val.0,
    {
        val.0
    }
}

impl FromSpecImpl<StatusCode> for u16 {
    open spec fn obeys_from_spec() -> bool {
        true
    }

    open spec fn from_spec(val: StatusCode) -> u16 {
        val.0
    }
}

impl From<StatusCode> for String {
    /// The reason text of the status code: empty for a code without a
    /// canonical phrase.
    fn from(val: StatusCode) -> (reason: String)
        ensures
            reason@ == reason_text(val.0),
    {
        match StatusCode::canonical_reason(val.into()) {
            Some(text) => text.to_owned(),
            None => String::new(),
        }
    }
}

/// Ghost code cannot name an owned string by its characters: what the
/// conversion returns is stated by the `ensures` of `from`, over
/// [`reason_text`].
impl FromSpecImpl<StatusCode> for String {
    open spec fn obeys_from_spec() -> bool {
        false
    }

    open spec fn from_spec(val: StatusCode) -> String {
        arbitrary()
    }
}

} // verus!
