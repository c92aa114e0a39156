//! The response and its frame on the wire.

use crate::http::headers::{
    distinct_keys, has_key, index_of, lemma_index_of, same_entries, without, Headers,
};
use crate::http::request::{version_text, Version};
use crate::http::status::{reason_text, StatusCode};
use crate::text::{append_decimal, byte_len, byte_length, decimal, same_text};
use vstd::prelude::*;
use vstd::std_specs::cmp::PartialEqSpecImpl;
use vstd::std_specs::convert::FromSpecImpl;
use vstd::string::StringExecFns;

verus! {

/// A response: what [`String::from`] frames for the wire.
#[derive(Debug)]
pub struct Response {
    pub version: Version,
    pub status: StatusCode,
    /// The headers to send. `Content-Length` is not among them on the wire:
    /// the frame states the length of the body itself.
    pub headers: Headers,
    pub body: String,
}

impl Clone for Response {
    fn clone(&self) -> (copy: Response)
        ensures
            copy.version == self.version,
            copy.status == self.status,
            copy.headers@ == self.headers@,
            copy.body@ == self.body@,
    {
        Response {
            version: self.version,
            status: self.status,
            headers: self.headers.clone(),
            body: self.body.clone(),
        }
    }
}

/// Whether two responses have the same version, status and body and set the
/// same headers to the same values, in whatever order.
pub open spec fn same_response(a: Response, b: Response) -> bool {
    &&& a.version == b.version
    &&& a.status == b.status
    &&& same_entries(a.headers@, b.headers@)
    &&& a.body@ == b.body@
}

impl PartialEq for Response {
    fn eq(&self, other: &Response) -> (equal: bool)
        ensures
            equal == same_response(*self, *other),
    {
        self.version == other.version && self.status == other.status && self.headers
            == other.headers && self.body == other.body
    }
}

impl PartialEqSpecImpl for Response {
    open spec fn obeys_eq_spec() -> bool {
        true
    }

    open spec fn eq_spec(&self, other: &Response) -> bool {
        same_response(*self, *other)
    }
}

impl Eq for Response {}

/// The first line of a frame.
pub open spec fn status_line(version: Version, code: u16) -> Seq<char> {
    version_text(version) + " "@ + decimal(code as nat) + " "@ + reason_text(code) + "\r\n"@
}

/// One header on the wire.
pub open spec fn header_line(key: Seq<char>, value: Seq<char>) -> Seq<char> {
    key + ": "@ + value + "\r\n"@
}

/// The lines of the headers, in their order. A header named `Content-Length`
/// gets no line: the frame states the length itself.
pub open spec fn header_lines(entries: Seq<(Seq<char>, Seq<char>)>) -> Seq<char>
    decreases entries.len(),
{
    if entries.len() == 0 {
        Seq::empty()
    } else {
        let last = entries.last();
        let line = if last.0 == "Content-Length"@ {
            Seq::empty()
        } else {
            header_line(last.0, last.1)
        };
        header_lines(entries.drop_last()) + line
    }
}

/// The frame of a response: status line, header lines, the length of the
/// body in bytes, a blank line, the body.
pub open spec fn frame(
    version: Version,
    code: u16,
    entries: Seq<(Seq<char>, Seq<char>)>,
    body: Seq<char>,
) -> Seq<char> {
    status_line(version, code) + header_lines(entries) + "Content-Length: "@ + decimal(
        byte_len(body),
    ) + "\r\n\r\n"@ + body
}

/// Unsetting `Content-Length` changes no header line.
proof fn lemma_header_lines_without(entries: Seq<(Seq<char>, Seq<char>)>)
    requires
        distinct_keys(entries),
    ensures
        header_lines(without(entries, "Content-Length"@)) == header_lines(entries),
    decreases entries.len(),
{
    let name = "Content-Length"@;
    if has_key(entries, name) {
        let at = index_of(entries, name);
        let front = entries.drop_last();
        if at < entries.len() - 1 {
            lemma_index_of(front, name, at);
            lemma_header_lines_without(front);
            assert(entries.remove(at).drop_last() == front.remove(at));
        }
    }
}

/// The length that a frame states is that of its body, whatever the caller
/// set: a header named `Content-Length` leaves no trace in the frame.
pub proof fn lemma_content_length_is_replaced(
    version: Version,
    code: u16,
    entries: Seq<(Seq<char>, Seq<char>)>,
    body: Seq<char>,
)
    requires
        distinct_keys(entries),
    ensures
        frame(version, code, entries, body) == frame(
            version,
            code,
            without(entries, "Content-Length"@),
            body,
        ),
{
    lemma_header_lines_without(entries);
}

/// Where `Content-Length` is the only header, the frame is the status line,
/// the length of the body, a blank line and the body, whatever value the
/// header was set to.
pub proof fn lemma_content_length_alone(
    version: Version,
    code: u16,
    value: Seq<char>,
    body: Seq<char>,
)
    ensures
        frame(version, code, seq![("Content-Length"@, value)], body) == status_line(version, code)
            + "Content-Length: "@ + decimal(byte_len(body)) + "\r\n\r\n"@ + body,
{
    let entries = seq![("Content-Length"@, value)];
    assert(header_lines(entries.drop_last()) == Seq::<char>::empty());
}

impl Response {
    /// The frame that this response is sent as.
    pub open spec fn wire(&self) -> Seq<char> {
        frame(self.version, self.status.0, self.headers@, self.body@)
    }
}

impl From<Response> for String {
    /// Frames the response for the wire.
    fn from(value: Response) -> (text: String)
        ensures
            text@ == value.wire(),
    {
        let mut text = String::new();
        text.append(value.version.as_str());
        text.append(" ");
        append_decimal(&mut text, u16::from(value.status) as usize);
        text.append(" ");
        let reason = String::from(value.status);
        text.append(reason.as_str());
        text.append("\r\n");

        let count = value.headers.len();
        let mut at: usize = 0;
        while at < count
            invariant
                at <= count == value.headers@.len(),
                text@ == status_line(value.version, value.status.0) + header_lines(
                    value.headers@.take(at as int),
                ),
            decreases count - at,
        {
            let ghost before = text@;
            let ghost seen = value.headers@.take(at as int);
            match value.headers.entry(at) {
                Some((key, item)) => {
                    if !same_text(key, "Content-Length") {
                        text.append(key);
                        text.append(": ");
                        text.append(item);
                        text.append("\r\n");
                    }
                    assert(text@ == before + (if key@ == "Content-Length"@ {
                        Seq::empty()
                    } else {
                        header_line(key@, item@)
                    }));
                },
                None => {},
            }
            at += 1;
            proof {
                let next = value.headers@.take(at as int);
                assert(next.drop_last() == seen);
            }
        }
        assert(value.headers@.take(at as int) == value.headers@);
        text.append("Content-Length: ");
        append_decimal(&mut text, byte_length(value.body.as_str()));
        text.append("\r\n\r\n");
        text.append(value.body.as_str());
        text
    }
}

/// Ghost code cannot name an owned string by its characters: what the
/// conversion returns is stated by the `ensures` of `from`, over [`frame`].
impl FromSpecImpl<Response> for String {
    open spec fn obeys_from_spec() -> bool {
        false
    }

    open spec fn from_spec(value: Response) -> String {
        arbitrary()
    }
}

} // verus!
