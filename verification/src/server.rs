//! The test HTTP server's request routing and response framing: the
//! request's path picks the health check, the index text or a file under
//! the served directory.
use vstd::prelude::*;
use vstd::utf8::encode_utf8;
use crate::image::{is_white_space, trim_start, white_space};
use crate::ninep::{decode_text, lossy_text};
use crate::text::{decimal, push_decimal};

verus! {

/// The status line and headers of a response with a body of `len` bytes.
pub open spec fn response_head(status: Seq<char>, content_type: Seq<char>, len: nat) -> Seq<char> {
    "HTTP/1.1 "@ + status + "\r\nContent-Type: "@ + content_type + "\r\nContent-Length: "@ + decimal(len)
        + "\r\nConnection: close\r\n\r\n"@
}

/// Appends `b`.
fn push_all(v: &mut Vec<u8>, b: &[u8])
    ensures
        final(v)@ == old(v)@ + b@,
{
    let mut i: usize = 0;
    while i < b.len()
        invariant
            i <= b@.len(),
            v@ == old(v)@ + b@.subrange(0, i as int),
        decreases b@.len() - i,
    {
        v.push(b[i]);
        i = i + 1;
        assert(v@ =~= old(v)@ + b@.subrange(0, i as int));
    }
    assert(b@.subrange(0, b@.len() as int) =~= b@);
}

/// An HTTP/1.1 response: the status line, the content type and length,
/// `Connection: close`, then `body`.
pub fn response(status: &str, content_type: &str, body: &[u8]) -> (r: Vec<u8>)
    ensures
        r@ == encode_utf8(response_head(status@, content_type@, body@.len())) + body@,
{
    let mut head = String::from_str("HTTP/1.1 ");
    head.append(status);
    head.append("\r\nContent-Type: ");
    head.append(content_type);
    head.append("\r\nContent-Length: ");
    push_decimal(&mut head, body.len() as u64);
    head.append("\r\nConnection: close\r\n\r\n");
    let mut out: Vec<u8> = Vec::new();
    push_all(&mut out, head.as_str().as_bytes());
    push_all(&mut out, body);
    out
}

/// How many characters of `s` come before its first `c` (all of them when
/// there is none).
pub open spec fn index_of(s: Seq<char>, c: char) -> nat
    decreases s.len(),
{
    if s.len() == 0 {
        0
    } else if s[0] == c {
        0
    } else {
        1 + index_of(s.drop_first(), c)
    }
}

/// How many characters of `s` come before its first white space.
pub open spec fn token_len(s: Seq<char>) -> nat
    decreases s.len(),
{
    if s.len() == 0 || is_white_space(s[0]) {
        0
    } else {
        1 + token_len(s.drop_first())
    }
}

/// The second white-space-separated token of `s`, if it has one.
pub open spec fn second_token(s: Seq<char>) -> Option<Seq<char>> {
    let s1 = trim_start(s);
    let rest = s1.skip(token_len(s1) as int);
    let s2 = trim_start(rest);
    if s2.len() == 0 {
        None
    } else {
        Some(s2.take(token_len(s2) as int))
    }
}

/// The path a request asks for: the second token of its first line, up to
/// any `?` (`/` when the line has no second token).
pub open spec fn request_path(text: Seq<char>) -> Seq<char> {
    let line = text.take(index_of(text, '\n') as int);
    let target = match second_token(line) {
        Some(t) => t,
        None => "/"@,
    };
    target.take(index_of(target, '?') as int)
}

/// Where `c` first occurs in `s` from `from` on, or the length of `s`.
fn find_char(s: &str, c: char, from: usize) -> (i: usize)
    requires
        from <= s@.len(),
    ensures
        i == from + index_of(s@.skip(from as int), c),
        i <= s@.len(),
{
    let n = s.unicode_len();
    let mut i: usize = from;
    while i < n && s.get_char(i) != c
        invariant
            from <= i <= n,
            n == s@.len(),
            from + index_of(s@.skip(from as int), c) == i + index_of(s@.skip(i as int), c),
        decreases n - i,
    {
        assert(s@.skip(i as int).drop_first() =~= s@.skip(i + 1));
        i = i + 1;
    }
    i
}

/// Where the white space that starts at `from` ends, before `end`.
fn skip_white(s: &str, from: usize, end: usize) -> (i: usize)
    requires
        from <= end <= s@.len(),
    ensures
        from <= i <= end,
        s@.subrange(i as int, end as int) == trim_start(s@.subrange(from as int, end as int)),
{
    let mut i: usize = from;
    while i < end && white_space(s.get_char(i))
        invariant
            from <= i <= end,
            end <= s@.len(),
            trim_start(s@.subrange(from as int, end as int)) == trim_start(s@.subrange(i as int, end as int)),
        decreases end - i,
    {
        assert(s@.subrange(i as int, end as int).drop_first() =~= s@.subrange(i + 1, end as int));
        i = i + 1;
    }
    i
}

/// Where the token that starts at `from` ends, before `end`.
fn skip_token(s: &str, from: usize, end: usize) -> (i: usize)
    requires
        from <= end <= s@.len(),
    ensures
        i == from + token_len(s@.subrange(from as int, end as int)),
        i <= end,
{
    let mut i: usize = from;
    while i < end && !white_space(s.get_char(i))
        invariant
            from <= i <= end,
            end <= s@.len(),
            from + token_len(s@.subrange(from as int, end as int)) == i + token_len(s@.subrange(i as int, end as int)),
        decreases end - i,
    {
        assert(s@.subrange(i as int, end as int).drop_first() =~= s@.subrange(i + 1, end as int));
        i = i + 1;
    }
    i
}

/// The path that the request text `text` asks for.
pub fn path_of_request(text: &str) -> (p: String)
    ensures
        p@ == request_path(text@),
{
    let n = text.unicode_len();
    let line_end = find_char(text, '\n', 0);
    assert(text@.skip(0) =~= text@);
    let ghost line = text@.take(index_of(text@, '\n') as int);
    assert(text@.subrange(0, line_end as int) =~= line);
    let a = skip_white(text, 0, line_end);
    let b = skip_token(text, a, line_end);
    let c = skip_white(text, b, line_end);
    let d = skip_token(text, c, line_end);
    proof {
        let s1 = trim_start(line);
        assert(s1 == text@.subrange(a as int, line_end as int));
        assert(s1.skip(token_len(s1) as int) =~= text@.subrange(b as int, line_end as int));
        let s2 = trim_start(s1.skip(token_len(s1) as int));
        assert(s2 == text@.subrange(c as int, line_end as int));
        assert(s2.take(token_len(s2) as int) =~= text@.subrange(c as int, d as int));
    }
    let target: &str = if c < line_end {
        text.substring_char(c, d)
    } else {
        "/"
    };
    let q = find_char(target, '?', 0);
    assert(target@.skip(0) =~= target@);
    String::from_str(target.substring_char(0, q))
}

/// What the server answers a request with.
#[derive(Debug)]
pub enum Route {
    /// The health check: `200 OK`, `ok`.
    Health,
    /// The index: `200 OK`, the server's name and its one route.
    Index,
    /// The file at this path relative to the served directory.
    File(String),
    /// `404 Not Found`.
    NotFound,
}

/// `s` without its leading `/`s.
pub open spec fn without_leading_slashes(s: Seq<char>) -> Seq<char>
    decreases s.len(),
{
    if s.len() > 0 && s[0] == '/' {
        without_leading_slashes(s.drop_first())
    } else {
        s
    }
}

/// The route for the path `path`, with or without a served directory.
pub open spec fn route_of(path: Seq<char>, serves_files: bool) -> RouteView {
    if path == "/health"@ {
        RouteView::Health
    } else if path == "/"@ {
        RouteView::Index
    } else if serves_files {
        RouteView::File(without_leading_slashes(path))
    } else {
        RouteView::NotFound
    }
}

/// What a `Route` holds.
pub enum RouteView {
    Health,
    Index,
    File(Seq<char>),
    NotFound,
}

impl View for Route {
    type V = RouteView;

    open spec fn view(&self) -> RouteView {
        match self {
            Route::Health => RouteView::Health,
            Route::Index => RouteView::Index,
            Route::File(p) => RouteView::File(p@),
            Route::NotFound => RouteView::NotFound,
        }
    }
}

/// Routes the raw request `request` (decoded leniently as UTF-8).
pub fn route_request(request: &[u8], serves_files: bool) -> (r: Route)
    ensures
        r@ == route_of(request_path(lossy_text(request@)), serves_files),
        vstd::utf8::valid_utf8(request@) ==> r@ == route_of(
            request_path(vstd::utf8::decode_utf8(request@)),
            serves_files,
        ),
{
    let text = decode_text(request);
    route_of_text(text.as_str(), serves_files)
}

/// Routes the request whose text is `text`.
pub fn route_of_text(text: &str, serves_files: bool) -> (r: Route)
    ensures
        r@ == route_of(request_path(text@), serves_files),
{
    let path = path_of_request(text);
    let health = String::from_str("/health");
    let index = String::from_str("/");
    if path == health {
        Route::Health
    } else if path == index {
        Route::Index
    } else if serves_files {
        let n = path.as_str().unicode_len();
        let mut i: usize = 0;
        assert(path@.skip(0) =~= path@);
        while i < n && path.as_str().get_char(i) == '/'
            invariant
                i <= n,
                n == path@.len(),
                without_leading_slashes(path@) == without_leading_slashes(path@.skip(i as int)),
            decreases n - i,
        {
            assert(path@.skip(i as int).drop_first() =~= path@.skip(i + 1));
            i = i + 1;
        }
        assert(path@.subrange(i as int, n as int) =~= path@.skip(i as int));
        Route::File(String::from_str(path.as_str().substring_char(i, n)))
    } else {
        Route::NotFound
    }
}

/// A response as bytes: the head for `status`, `content_type` and the
/// body's length, then `body`.
pub open spec fn framed(status: Seq<char>, content_type: Seq<char>, body: Seq<u8>) -> Seq<u8> {
    encode_utf8(response_head(status, content_type, body.len())) + body
}

/// The answer when nothing is found.
pub open spec fn not_found_answer() -> Seq<u8> {
    framed("404 Not Found"@, "text/plain; charset=utf-8"@, encode_utf8("not found\n"@))
}

/// The answer to a request routed to `route`; `file` holds the requested
/// file's bytes where they could be read.
pub open spec fn answer_of(route: RouteView, file: Option<Seq<u8>>) -> Seq<u8> {
    match route {
        RouteView::Health => framed("200 OK"@, "text/plain; charset=utf-8"@, encode_utf8("ok\n"@)),
        RouteView::Index => framed(
            "200 OK"@,
            "text/plain; charset=utf-8"@,
            encode_utf8("x86-test-server\nGET /health\n"@),
        ),
        RouteView::File(_) => match file {
            Some(body) => framed("200 OK"@, "application/octet-stream"@, body),
            None => not_found_answer(),
        },
        RouteView::NotFound => not_found_answer(),
    }
}

/// The bytes held, if any.
pub open spec fn bytes_view(file: Option<Vec<u8>>) -> Option<Seq<u8>> {
    match file {
        Some(b) => Some(b@),
        None => None,
    }
}

/// The response to a request routed to `route`. For a file route, `file`
/// holds the file's bytes, or nothing where it could not be read.
pub fn answer(route: &Route, file: Option<Vec<u8>>) -> (r: Vec<u8>)
    ensures
        r@ == answer_of(route@, bytes_view(file)),
{
    match route {
        Route::Health => response("200 OK", "text/plain; charset=utf-8", "ok\n".as_bytes()),
        Route::Index => response(
            "200 OK",
            "text/plain; charset=utf-8",
            "x86-test-server\nGET /health\n".as_bytes(),
        ),
        Route::File(_) => match file {
            Some(body) => response("200 OK", "application/octet-stream", body.as_slice()),
            None => response("404 Not Found", "text/plain; charset=utf-8", "not found\n".as_bytes()),
        },
        Route::NotFound => response("404 Not Found", "text/plain; charset=utf-8", "not found\n".as_bytes()),
    }
}

} // verus!
