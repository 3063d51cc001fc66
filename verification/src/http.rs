//! The little HTTP that a connection handler speaks: three request lines,
//! two pages, and the framing of an answer.
use vstd::prelude::*;
use vstd::utf8::encode_utf8;

verus! {

/// A request, told by the line it begins with.
#[derive(Clone, Copy, Debug, PartialEq, Eq, Structural)]
pub enum Request {
    /// `GET /`: the front page.
    Get,
    /// `GET /sleep`: the front page, served slowly.
    Sleep,
    /// Anything else.
    Stop,
}

/// A page to answer with.
#[derive(Clone, Copy, Debug, PartialEq, Eq, Structural)]
pub enum Response {
    /// The front page.
    Hello,
    /// The page for what was not found.
    FourFour,
}

/// The decimal digits of `n` in ASCII, without leading zeros.
pub open spec fn decimal(n: nat) -> Seq<u8>
    decreases n,
{
    if n < 10 {
        seq![(48 + n) as u8]
    } else {
        decimal(n / 10).push((48 + n % 10) as u8)
    }
}

impl Request {
    /// The request line of this request.
    pub open spec fn line(self) -> Seq<char> {
        match self {
            Request::Get => "GET / HTTP/1.1\r\n"@,
            Request::Sleep => "GET /sleep HTTP/1.1\r\n"@,
            Request::Stop => "GET /stop HTTP/1.1\r\n"@,
        }
    }

    /// The status line that answers this request.
    pub open spec fn status(self) -> Seq<char> {
        match self {
            Request::Get => "HTTP/1.1 200 OK"@,
            Request::Sleep => "HTTP/1.1 200 OK"@,
            Request::Stop => "HTTP/1.1 404 NOT FOUND"@,
        }
    }

    /// The request that `bytes` begin with: `Get` or `Sleep` where they begin
    /// with that request's line, `Stop` for everything else.
    pub open spec fn recognise(bytes: Seq<u8>) -> Request {
        if encode_utf8(Request::Get.line()).is_prefix_of(bytes) {
            Request::Get
        } else if encode_utf8(Request::Sleep.line()).is_prefix_of(bytes) {
            Request::Sleep
        } else {
            Request::Stop
        }
    }

    /// The whole answer to this request with `contents` as its body: the
    /// status line, the length of the body in decimal, an empty line, and the
    /// body.
    pub open spec fn answer(self, contents: Seq<u8>) -> Seq<u8> {
        encode_utf8(self.status()) + encode_utf8("\r\nContent-Length: "@) + decimal(
            contents.len(),
        ) + encode_utf8("\r\n\r\n"@) + contents
    }

    /// The request line of this request, as bytes.
    pub fn as_bytes(&self) -> (bytes: &[u8])
        ensures
            bytes@ == encode_utf8(self.line()),
    {
        match self {
            Request::Get => "GET / HTTP/1.1\r\n".as_bytes(),
            Request::Sleep => "GET /sleep HTTP/1.1\r\n".as_bytes(),
            Request::Stop => "GET /stop HTTP/1.1\r\n".as_bytes(),
        }
    }

    /// The status line that answers this request.
    pub fn as_respond_str(&self) -> (status: &str)
        ensures
            status@ == self.status(),
    {
        match self {
            Request::Get | Request::Sleep => "HTTP/1.1 200 OK",
            Request::Stop => "HTTP/1.1 404 NOT FOUND",
        }
    }

    /// Tells a request by the line that `bytes` begin with.
    pub fn from_bytes(bytes: &[u8]) -> (request: Request)
        ensures
            request == Request::recognise(bytes@),
    {
        if starts_with(bytes, Request::Get.as_bytes()) {
            Request::Get
        } else if starts_with(bytes, Request::Sleep.as_bytes()) {
            Request::Sleep
        } else {
            Request::Stop
        }
    }

    /// Frames the answer to this request around `contents`.
    pub fn respond(&self, contents: &[u8]) -> (answer: Vec<u8>)
        ensures
            answer@ == self.answer(contents@),
    {
        let mut answer: Vec<u8> = Vec::new();
        append(&mut answer, self.as_respond_str().as_bytes());
        append(&mut answer, "\r\nContent-Length: ".as_bytes());
        push_decimal(&mut answer, contents.len());
        append(&mut answer, "\r\n\r\n".as_bytes());
        append(&mut answer, contents);
        answer
    }
}

impl Response {
    /// The page that answers `request`.
    pub open spec fn of(request: Request) -> Response {
        match request {
            Request::Get => Response::Hello,
            Request::Sleep => Response::Hello,
            Request::Stop => Response::FourFour,
        }
    }

    /// The name of the file that holds this page.
    pub open spec fn resource(self) -> Seq<char> {
        match self {
            Response::Hello => "hello.html"@,
            Response::FourFour => "404.html"@,
        }
    }

    /// The page that answers `req`.
    pub fn from_request(req: &Request) -> (response: Response)
        ensures
            response == Response::of(*req),
    {
        match req {
            Request::Get => Response::Hello,
            Request::Sleep => Response::Hello,
            Request::Stop => Response::FourFour,
        }
    }

    /// The name of the file that holds this page.
    pub fn get_resource(&self) -> (name: &str)
        ensures
            name@ == self.resource(),
    {
        match self {
            Response::Hello => "hello.html",
            Response::FourFour => "404.html",
        }
    }
}

/// Whether `bytes` begin with `prefix`.
pub fn starts_with(bytes: &[u8], prefix: &[u8]) -> (found: bool)
    ensures
        found == prefix@.is_prefix_of(bytes@),
{
    if prefix.len() > bytes.len() {
        return false;
    }
    let mut at: usize = 0;
    while at < prefix.len()
        invariant
            at <= prefix@.len() <= bytes@.len(),
            forall|i: int| 0 <= i < at ==> prefix@[i] == bytes@[i],
        decreases prefix@.len() - at,
    {
        if prefix[at] != bytes[at] {
            assert(bytes@.subrange(0, prefix@.len() as int)[at as int] != prefix@[at as int]);
            return false;
        }
        at += 1;
    }
    assert(prefix@ =~= bytes@.subrange(0, prefix@.len() as int));
    true
}

/// Appends `more` to `out`.
fn append(out: &mut Vec<u8>, more: &[u8])
    ensures
        final(out)@ == old(out)@ + more@,
{
    out.extend_from_slice(more);
    assert(out@ =~= old(out)@ + more@);
}

/// Appends the decimal digits of `n` to `out`.
fn push_decimal(out: &mut Vec<u8>, n: usize)
    ensures
        final(out)@ == old(out)@ + decimal(n as nat),
    decreases n,
{
    if n >= 10 {
        push_decimal(out, n / 10);
    }
    let digit: u8 = 48 + (n % 10) as u8;
    out.push(digit);
    assert(out@ =~= old(out)@ + decimal(n as nat));
}

} // verus!
