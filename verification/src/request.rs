//! Request handling: parsing the request line into a method and a
//! route, resolving the route to the file path to look up, and
//! formatting the fixed status-200 response around a document body.

use vstd::prelude::*;
use vstd::string::StrSliceExecFns;
use vstd::string::StringExecFns;
use vstd::utf8::encode_utf8;

use crate::text::contains_seq;
use crate::text::contains_str;
use crate::text::find_space;
use crate::text::lemma_space_or_end;
use crate::text::space_or_end;
use crate::text::str_eq;

verus! {

/// Why a request line was rejected: no second token to serve as a
/// route, a method other than `GET`, or a route that does not start
/// with `/`.
#[derive(Clone, Copy, PartialEq, Eq, Structural, Debug)]
pub enum RequestError {
    Malformed,
    InvalidMethod,
    InvalidRoute,
}

/// A request accepted by the server: the method (always `GET`) and the
/// route of the asset the client asked for.
#[derive(Debug)]
pub struct RequestObject {
    /// The request method of the request received by the server.
    pub method: String,
    /// The route of the asset/file requested by the client side.
    pub route: String,
}

/// The first space-separated token of the request text: its method.
pub open spec fn spec_method(s: Seq<char>) -> Seq<char> {
    s.take(space_or_end(s, 0))
}

/// The second space-separated token of the request text: its route.
pub open spec fn spec_route(s: Seq<char>) -> Seq<char> {
    let e = space_or_end(s, 0);
    s.subrange(e + 1, space_or_end(s, e + 1))
}

/// What parsing a request text yields: the method and route tokens when
/// the line is acceptable, and the exact reason otherwise. A line with
/// no space at all has no second token and is malformed; then the
/// method must be exactly `GET` and the route must start with `/`.
pub open spec fn spec_parse_request(s: Seq<char>) -> Result<(Seq<char>, Seq<char>), RequestError> {
    if space_or_end(s, 0) == s.len() {
        Err(RequestError::Malformed)
    } else if spec_method(s) != "GET"@ {
        Err(RequestError::InvalidMethod)
    } else if !(spec_route(s).len() > 0 && spec_route(s)[0] == '/') {
        Err(RequestError::InvalidRoute)
    } else {
        Ok((spec_method(s), spec_route(s)))
    }
}

impl RequestObject {
    /// Parses the request text into a method and a route, the first two
    /// space-separated tokens, accepting exactly the lines whose method
    /// is `GET` and whose route starts with `/` and reporting the
    /// precise reason for every rejected line.
    pub fn new(request: &String) -> (r: Result<RequestObject, RequestError>)
        ensures
            match r {
                Ok(o) => spec_parse_request(request@) == Ok::<_, RequestError>(
                    (o.method@, o.route@),
                ),
                Err(e) => spec_parse_request(request@) == Err::<(Seq<char>, Seq<char>), _>(e),
            },
    {
        let s = request.as_str();
        let n = s.unicode_len();
        let method_end = find_space(s, 0);
        proof {
            lemma_space_or_end(s@, 0);
        }
        if method_end == n {
            return Err(RequestError::Malformed);
        }
        let method = s.substring_char(0, method_end);
        if !str_eq(method, "GET") {
            return Err(RequestError::InvalidMethod);
        }
        proof {
            lemma_space_or_end(s@, method_end + 1);
        }
        let route_end = find_space(s, method_end + 1);
        let route = s.substring_char(method_end + 1, route_end);
        if route.unicode_len() == 0 || route.get_char(0) != '/' {
            return Err(RequestError::InvalidRoute);
        }
        Ok(RequestObject { method: method.to_owned(), route: route.to_owned() })
    }
}

/// A route is answered with the index document when it names no file
/// (no `.` and no `.html` occurs in it) or when it names the index
/// document itself.
pub open spec fn spec_serves_index(route: Seq<char>) -> bool {
    (!contains_seq(route, "."@) && !contains_seq(route, ".html"@)) || route == "/index.html"@
}

/// The path, relative to the configured base directory, of the file a
/// route asks for: the index document for index-like routes, and the
/// route itself otherwise.
pub open spec fn spec_resolved_route(route: Seq<char>) -> Seq<char> {
    if spec_serves_index(route) {
        "/index.html"@
    } else {
        route
    }
}

/// Resolves a route to the relative path of the file to look up.
pub fn resolve_route(route: &String) -> (r: String)
    ensures
        r@ == spec_resolved_route(route@),
{
    let s = route.as_str();
    if (!contains_str(s, ".") && !contains_str(s, ".html")) || str_eq(s, "/index.html") {
        String::from_str("/index.html")
    } else {
        route.clone()
    }
}

/// The full path of the file a route asks for, under the configured
/// base directory of static files.
pub fn lookup_path(dir_path: &String, route: &String) -> (r: String)
    ensures
        r@ == dir_path@ + spec_resolved_route(route@),
{
    let resolved = resolve_route(route);
    dir_path.clone().concat(resolved.as_str())
}

/// The character standing for a single decimal digit.
pub open spec fn digit_char(d: int) -> char {
    if d == 0 {
        '0'
    } else if d == 1 {
        '1'
    } else if d == 2 {
        '2'
    } else if d == 3 {
        '3'
    } else if d == 4 {
        '4'
    } else if d == 5 {
        '5'
    } else if d == 6 {
        '6'
    } else if d == 7 {
        '7'
    } else if d == 8 {
        '8'
    } else {
        '9'
    }
}

/// The decimal notation of `n`, most significant digit first, without
/// leading zeros (a single `'0'` for zero).
pub open spec fn dec_digits(n: nat) -> Seq<char>
    decreases n,
{
    if n < 10 {
        seq![digit_char(n as int)]
    } else {
        dec_digits(n / 10) + seq![digit_char((n % 10) as int)]
    }
}

fn digit_str(d: usize) -> (s: &'static str)
    requires
        d < 10,
    ensures
        s@ == seq![digit_char(d as int)],
{
    proof {
        reveal_strlit("0");
        reveal_strlit("1");
        reveal_strlit("2");
        reveal_strlit("3");
        reveal_strlit("4");
        reveal_strlit("5");
        reveal_strlit("6");
        reveal_strlit("7");
        reveal_strlit("8");
        reveal_strlit("9");
    }
    let s = match d {
        0 => "0",
        1 => "1",
        2 => "2",
        3 => "3",
        4 => "4",
        5 => "5",
        6 => "6",
        7 => "7",
        8 => "8",
        _ => "9",
    };
    proof {
        assert(s@ =~= seq![digit_char(d as int)]);
    }
    s
}

/// Writes `n` in decimal notation.
pub fn usize_to_decimal(n: usize) -> (s: String)
    ensures
        s@ == dec_digits(n as nat),
    decreases n,
{
    if n < 10 {
        String::from_str(digit_str(n))
    } else {
        let mut s = usize_to_decimal(n / 10);
        s.append(digit_str(n % 10));
        s
    }
}

/// The one response the server ever emits: status 200 with a
/// `Content-Length` header giving the byte length of the body (the
/// UTF-8 encoding of its characters), then the body itself. A file
/// lookup miss substitutes a fallback body but keeps this status line.
pub open spec fn spec_response(content: Seq<char>) -> Seq<char> {
    "HTTP/1.1 200 OK\r\nContent-Length: "@ + dec_digits(encode_utf8(content).len()) + "\r\n\r\n"@
        + content
}

/// Formats the status-200 response carrying `content` as its body.
pub fn build_response(content: &String) -> (r: String)
    requires
        encode_utf8(content@).len() <= usize::MAX,
    ensures
        r@ == spec_response(content@),
{
    let len = content.as_str().len();
    let mut r = String::from_str("HTTP/1.1 200 OK\r\nContent-Length: ");
    let digits = usize_to_decimal(len);
    r.append(digits.as_str());
    r.append("\r\n\r\n");
    r.append(content.as_str());
    proof {
        assert(r@ =~= spec_response(content@));
    }
    r
}

} // verus!
