//! Requests: where the head of one ends, and how its body is read.

use crate::outside::{lossy, lossy_text};
use crate::split::split_at_first;
use crate::text::{
    decimal, decimal_text, lines, lines_of, parse_usize, parse_usize_text, same_but_case,
    same_text_but_case, split_once, trim, trim_text, views,
};
use vstd::prelude::*;
use vstd::slice::{slice_subrange, slice_to_vec};
use vstd::string::*;
use vstd::utf8::{decode_utf8, valid_utf8};

verus! {

/// The largest request body that is read.
pub const MAX_POLICY_LOCAL_BODY_BYTES: usize = 64 * 1024;

/// The most that is asked of the client in one read.
pub const MAX_READ_BYTES: usize = 8192;

/// Whether an empty line, with the end of the line before it, stands at `i`.
pub open spec fn blank_line_at(bytes: Seq<u8>, i: int) -> bool {
    &&& i + 4 <= bytes.len()
    &&& bytes[i] == 13
    &&& bytes[i + 1] == 10
    &&& bytes[i + 2] == 13
    &&& bytes[i + 3] == 10
}

/// The index behind the first empty line that stands at `from` or later.
pub open spec fn header_end_from(bytes: Seq<u8>, from: int) -> Option<int>
    decreases bytes.len() - from,
{
    if from + 4 > bytes.len() {
        None
    } else if blank_line_at(bytes, from) {
        Some(from + 4)
    } else {
        header_end_from(bytes, from + 1)
    }
}

/// The index behind the first empty line: where the head of a request ends.
pub open spec fn header_end(bytes: Seq<u8>) -> Option<int> {
    header_end_from(bytes, 0)
}

/// The index at which the head of a request ends.
pub fn find_header_end(buf: &[u8]) -> (end: Option<usize>)
    ensures
        match end {
            Some(n) => header_end(buf@) == Some(n as int) && 4 <= n <= buf@.len(),
            None => header_end(buf@) is None,
        },
{
    let n: usize = buf.len();
    if n < 4 {
        return None;
    }
    let mut i: usize = 0;
    while i <= n - 4
        invariant
            4 <= n == buf@.len(),
            i <= n - 3,
            header_end(buf@) == header_end_from(buf@, i as int),
        decreases n - i,
    {
        if buf[i] == 13 && buf[i + 1] == 10 && buf[i + 2] == 13 && buf[i + 3] == 10 {
            return Some(i + 4);
        }
        i += 1;
    }
    None
}

/// The value of the first `Content-Length` header among header lines.
pub open spec fn content_length_value(headers: Seq<Seq<char>>) -> Option<Seq<char>>
    decreases headers.len(),
{
    if headers.len() == 0 {
        None
    } else {
        match split_once(headers[0], ':') {
            Some((name, value)) => if same_but_case(name, "content-length"@) {
                Some(value)
            } else {
                content_length_value(headers.skip(1))
            },
            None => content_length_value(headers.skip(1)),
        }
    }
}

/// The content length that the head of a request states: zero if it states
/// none, and `None` if what it states is not a number.
pub open spec fn content_length(head: Seq<char>) -> Option<usize> {
    let all = lines(head);
    let stated = if all.len() == 0 {
        None
    } else {
        content_length_value(all.skip(1))
    };
    match stated {
        Some(value) => parse_usize(trim(value)),
        None => Some(0),
    }
}

/// The content length that the head of a request states.
pub fn content_length_of(head: &str) -> (length: Option<usize>)
    ensures
        length == content_length(head@),
{
    let head_lines = lines_of(head);
    let ghost all = lines(head@);
    if head_lines.len() == 0 {
        return Some(0);
    }
    let mut i: usize = 1;
    while i < head_lines.len()
        invariant
            1 <= i <= head_lines@.len(),
            views(head_lines@) == all,
            all == lines(head@),
            content_length_value(all.skip(1)) == content_length_value(all.skip(i as int)),
        decreases head_lines@.len() - i,
    {
        assert(all[i as int] == head_lines@[i as int]@);
        assert(all.skip(i as int).skip(1) =~= all.skip(i + 1));
        if let Some((name, value)) = split_at_first(head_lines[i], ':') {
            if same_text_but_case(name, "content-length") {
                return parse_usize_text(trim_text(value));
            }
        }
        i += 1;
    }
    Some(0)
}

/// Why the body of a request cannot be read.
#[derive(Debug, Clone, Copy, PartialEq, Eq, Structural)]
pub enum BodyError {
    /// The stated content length is not a number.
    InvalidContentLength,
    /// The stated content length is over the limit.
    TooLarge,
    /// The client closed the connection before the body was complete.
    EndedEarly,
}

/// The text of an error.
pub open spec fn body_error_text(error: BodyError) -> Seq<char> {
    match error {
        BodyError::InvalidContentLength => "invalid policy.local Content-Length"@,
        BodyError::TooLarge => "policy.local request body exceeds "@ + decimal(
            MAX_POLICY_LOCAL_BODY_BYTES as nat,
        ) + " bytes"@,
        BodyError::EndedEarly => "policy.local request body ended early"@,
    }
}

impl BodyError {
    /// The text of the error.
    pub fn message(&self) -> (text: String)
        ensures
            text@ == body_error_text(*self),
    {
        match self {
            BodyError::InvalidContentLength => "invalid policy.local Content-Length".to_owned(),
            BodyError::TooLarge => "policy.local request body exceeds ".to_owned().concat(
                decimal_text(MAX_POLICY_LOCAL_BODY_BYTES).as_str(),
            ).concat(" bytes"),
            BodyError::EndedEarly => "policy.local request body ended early".to_owned(),
        }
    }
}

/// The text in the head of a request. Where the head is not UTF-8, replacement
/// characters stand in it.
pub open spec fn head_text(head: Seq<u8>) -> Seq<char> {
    if valid_utf8(head) {
        decode_utf8(head)
    } else {
        lossy(head)
    }
}

/// The content length that the head of a request states.
pub fn parse_content_length(headers: &[u8]) -> (length: Result<usize, BodyError>)
    ensures
        match length {
            Ok(n) => content_length(head_text(headers@)) == Some(n),
            Err(error) => {
                &&& content_length(head_text(headers@)) is None
                &&& error == BodyError::InvalidContentLength
            },
        },
{
    match content_length_of(lossy_text(headers).as_str()) {
        Some(n) => Ok(n),
        None => Err(BodyError::InvalidContentLength),
    }
}

/// The first `n` of `bytes`, or all of them if they are fewer.
pub open spec fn first_bytes(bytes: Seq<u8>, n: usize) -> Seq<u8> {
    if bytes.len() <= n {
        bytes
    } else {
        bytes.take(n as int)
    }
}

/// The body of a request while it is read.
///
/// What has come is never more than the stated content length, and that is
/// never over the limit.
#[derive(Debug)]
pub struct BodyRead {
    body: Vec<u8>,
    content_length: usize,
}

impl BodyRead {
    /// The bytes that have come.
    pub closed spec fn received(self) -> Seq<u8> {
        self.body@
    }

    /// How many bytes there are to be.
    pub closed spec fn length(self) -> usize {
        self.content_length
    }

    #[verifier::type_invariant]
    spec fn within_bounds(self) -> bool {
        self.body@.len() <= self.content_length <= MAX_POLICY_LOCAL_BODY_BYTES
    }

    /// Begins to read the body of a request, of which the head and perhaps
    /// some of the body have come already. A request whose head has not come
    /// to its end has no body.
    pub fn begin(initial_request: &[u8]) -> (begun: Result<BodyRead, BodyError>)
        ensures
            match header_end(initial_request@) {
                Some(end) => match content_length(head_text(initial_request@.take(end))) {
                    Some(length) => if length <= MAX_POLICY_LOCAL_BODY_BYTES {
                        begun matches Ok(read) && read.length() == length && read.received()
                            == first_bytes(initial_request@.skip(end), length)
                    } else {
                        begun == Err::<BodyRead, BodyError>(BodyError::TooLarge)
                    },
                    None => begun == Err::<BodyRead, BodyError>(BodyError::InvalidContentLength),
                },
                None => begun matches Ok(read) && read.length() == 0 && read.received()
                    == Seq::<u8>::empty(),
            },
    {
        let end: usize = match find_header_end(initial_request) {
            Some(end) => end,
            None => {
                return Ok(BodyRead { body: Vec::new(), content_length: 0 });
            },
        };
        let head = slice_subrange(initial_request, 0, end);
        assert(head@ =~= initial_request@.take(end as int));
        let content_length: usize = match parse_content_length(head) {
            Ok(length) => length,
            Err(error) => {
                return Err(error);
            },
        };
        let rest = slice_subrange(initial_request, end, initial_request.len());
        assert(rest@ =~= initial_request@.skip(end as int));
        Self::with_length(rest, content_length)
    }

    /// Begins to read a body of that length, of which `rest` has come already,
    /// and perhaps more than the body.
    pub fn with_length(rest: &[u8], content_length: usize) -> (begun: Result<BodyRead, BodyError>)
        ensures
            if content_length <= MAX_POLICY_LOCAL_BODY_BYTES {
                begun matches Ok(read) && read.length() == content_length && read.received()
                    == first_bytes(rest@, content_length)
            } else {
                begun == Err::<BodyRead, BodyError>(BodyError::TooLarge)
            },
    {
        if content_length > MAX_POLICY_LOCAL_BODY_BYTES {
            return Err(BodyError::TooLarge);
        }
        let mut body = slice_to_vec(rest);
        body.truncate(content_length);
        assert(body@ =~= first_bytes(rest@, content_length));
        Ok(BodyRead { body, content_length })
    }

    /// How many bytes to ask of the client next: zero if the body is complete.
    pub fn wanted(&self) -> (n: usize)
        ensures
            self.received().len() <= self.length() <= MAX_POLICY_LOCAL_BODY_BYTES,
            n == if self.length() - self.received().len() <= MAX_READ_BYTES {
                self.length() - self.received().len()
            } else {
                MAX_READ_BYTES as int
            },
    {
        proof {
            use_type_invariant(self);
        }
        let remaining: usize = self.content_length - self.body.len();
        if remaining <= MAX_READ_BYTES {
            remaining
        } else {
            MAX_READ_BYTES
        }
    }

    /// Takes in what the client sent: no more than was missing, and nothing if
    /// it closed the connection.
    pub fn feed(self, chunk: &[u8]) -> (fed: Result<BodyRead, BodyError>)
        requires
            0 < self.length() - self.received().len(),
            chunk@.len() <= self.length() - self.received().len(),
        ensures
            match fed {
                Ok(read) => chunk@.len() > 0 && read.length() == self.length() && read.received()
                    == self.received() + chunk@,
                Err(error) => chunk@.len() == 0 && error == BodyError::EndedEarly,
            },
    {
        proof {
            use_type_invariant(&self);
        }
        if chunk.len() == 0 {
            return Err(BodyError::EndedEarly);
        }
        let mut body = self.body;
        body.extend_from_slice(chunk);
        assert(body@ =~= self.body@ + chunk@);
        Ok(BodyRead { body, content_length: self.content_length })
    }

    /// The bytes that have come.
    pub fn into_body(self) -> (body: Vec<u8>)
        ensures
            body@ == self.received(),
            body@.len() <= self.length() <= MAX_POLICY_LOCAL_BODY_BYTES,
    {
        proof {
            use_type_invariant(&self);
        }
        self.body
    }
}

} // verus!
