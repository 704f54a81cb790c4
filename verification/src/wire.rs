//! The HTTP/1.1 wire forms the mock server owns: reading the method and the
//! path out of a request line, and writing a response back as text.

use vstd::prelude::*;
use vstd::string::*;
use crate::contract::{HttpResponse, OptionalBody};
use crate::json::{spec_digits, u64_to_string};

verus! {

/// Whether `i` is the first space of `line` and `j` the first space after it.
pub open spec fn spec_request_line_split(line: Seq<char>, i: int, j: int) -> bool {
    &&& 0 <= i < j < line.len()
    &&& line[i] == ' '
    &&& line[j] == ' '
    &&& (forall|k: int| 0 <= k < i ==> line[k] != ' ')
    &&& (forall|k: int| i < k < j ==> line[k] != ' ')
}

/// The method and the path of a request line: the text before its first
/// space, and the text between its first space and the one after. A line
/// without two separating spaces carries no request.
pub fn parse_request_line(line: &String) -> (r: Option<(String, String)>)
    ensures
        (match r {
            Some(parts) => exists|i: int, j: int|
                #![auto]
                spec_request_line_split(line@, i, j) && parts.0@ == line@.subrange(0, i)
                    && parts.1@ == line@.subrange(i + 1, j),
            None => forall|i: int, j: int| !spec_request_line_split(line@, i, j),
        }),
{
    let n = line.as_str().unicode_len();
    let mut i: usize = 0;
    while i < n && line.as_str().get_char(i) != ' '
        invariant
            i <= n,
            n == line@.len(),
            forall|k: int| 0 <= k < i ==> line@[k] != ' ',
        decreases n - i,
    {
        i += 1;
    }
    if i >= n {
        proof {
            assert forall|a: int, b: int| !spec_request_line_split(line@, a, b) by {
                if spec_request_line_split(line@, a, b) {
                    assert(line@[a] != ' ');
                }
            }
        }
        return None;
    }
    let mut j: usize = i + 1;
    while j < n && line.as_str().get_char(j) != ' '
        invariant
            i < j <= n,
            n == line@.len(),
            i < n,
            line@[i as int] == ' ',
            forall|k: int| 0 <= k < i ==> line@[k] != ' ',
            forall|k: int| i < k < j ==> line@[k] != ' ',
        decreases n - j,
    {
        j += 1;
    }
    if j >= n {
        proof {
            assert forall|a: int, b: int| !spec_request_line_split(line@, a, b) by {
                if spec_request_line_split(line@, a, b) {
                    if a < i {
                        assert(line@[a] != ' ');
                    }
                    if a > i {
                        assert(line@[i as int] != ' ');
                    }
                    assert(a == i as int);
                    assert(line@[b] != ' ');
                }
            }
        }
        return None;
    }
    let method = String::from_str(line.as_str().substring_char(0, i));
    let path = String::from_str(line.as_str().substring_char(i + 1, j));
    proof {
        assert(spec_request_line_split(line@, i as int, j as int));
    }
    Some((method, path))
}

/// One header on the wire: name, colon, value, line end.
pub open spec fn spec_header_line(h: (String, String)) -> Seq<char> {
    h.0@ + ": "@ + h.1@ + "\r\n"@
}

/// The headers on the wire, in order.
pub open spec fn spec_headers_wire(hs: Seq<(String, String)>) -> Seq<char>
    decreases hs.len(),
{
    if hs.len() == 0 {
        Seq::empty()
    } else {
        spec_headers_wire(hs.drop_last()) + spec_header_line(hs.last())
    }
}

/// The text a body puts on the wire: its content where present, else nothing.
pub open spec fn spec_body_text(b: OptionalBody) -> Seq<char> {
    match b {
        OptionalBody::Present(t, _) => t@,
        _ => Seq::empty(),
    }
}

/// A whole response on the wire: the status line, the headers, a blank line,
/// the body.
pub open spec fn spec_response_wire(r: HttpResponse) -> Seq<char> {
    "HTTP/1.1 "@ + spec_digits(r.status as nat) + " \r\n"@ + spec_headers_wire(r.headers@)
        + "\r\n"@ + spec_body_text(r.body)
}

/// Write a response as HTTP/1.1 text.
pub fn render_response(response: &HttpResponse) -> (out: String)
    ensures
        out@ == spec_response_wire(*response),
{
    let mut out = String::from_str("HTTP/1.1 ");
    out.append(u64_to_string(response.status as u64).as_str());
    out.append(" \r\n");
    let ghost head = out@;
    let n = response.headers.len();
    let mut i: usize = 0;
    while i < n
        invariant
            i <= n,
            n == response.headers@.len(),
            head == "HTTP/1.1 "@ + spec_digits(response.status as nat) + " \r\n"@,
            out@ == head + spec_headers_wire(response.headers@.subrange(0, i as int)),
        decreases n - i,
    {
        out.append(response.headers[i].0.as_str());
        out.append(": ");
        out.append(response.headers[i].1.as_str());
        out.append("\r\n");
        proof {
            assert(response.headers@.subrange(0, (i + 1) as int).drop_last()
                =~= response.headers@.subrange(0, i as int));
            assert(response.headers@.subrange(0, (i + 1) as int).last() == response.headers@[i as int]);
            assert(out@ =~= head + spec_headers_wire(response.headers@.subrange(0, (i + 1) as int)));
        }
        i += 1;
    }
    proof {
        assert(response.headers@.subrange(0, n as int) =~= response.headers@);
    }
    out.append("\r\n");
    match &response.body {
        OptionalBody::Present(t, _) => {
            out.append(t.as_str());
        },
        _ => {},
    }
    proof {
        assert(out@ =~= spec_response_wire(*response));
    }
    out
}

} // verus!
