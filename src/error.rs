//! Errors that handlers and middleware signal, their text, and the two
//! built-in ways of turning them into responses.
use vstd::prelude::*;
use vstd::utf8::encode_utf8;
use crate::res::{Res, ResView, typed_view, text_type, json_type, status_for, buffered_view};
use crate::text::{bytes_of, chars_of, string_of};

verus! {

/// An error that a handler or middleware signals instead of a response.
#[derive(Debug)]
pub enum Error {
    /// An HTTP status, with an optional message.
    Status(u16, Option<String>),
    /// A body could not be encoded or decoded.
    Json(String),
    /// The HTTP protocol layer failed; its message.
    Hyper(String),
    /// Reading or writing failed; its message.
    Io(String),
    /// Anything else.
    Custom(String),
}

/// The value of an error.
pub ghost enum ErrorView {
    Status(u16, Option<Seq<char>>),
    Json(Seq<char>),
    Hyper(Seq<char>),
    Io(Seq<char>),
    Custom(Seq<char>),
}

impl View for Error {
    type V = ErrorView;

    open spec fn view(&self) -> ErrorView {
        match self {
            Error::Status(c, m) => ErrorView::Status(
                *c,
                match m {
                    Some(s) => Some(s@),
                    None => None,
                },
            ),
            Error::Json(s) => ErrorView::Json(s@),
            Error::Hyper(s) => ErrorView::Hyper(s@),
            Error::Io(s) => ErrorView::Io(s@),
            Error::Custom(s) => ErrorView::Custom(s@),
        }
    }
}

/// The decimal digit of `d`.
pub open spec fn digit(d: nat) -> char {
    if d == 0 {
        '0'
    } else if d == 1 {
        '1'
    } else if d == 2 {
        '2'
    } else if d == 3 {
        '3'
    } else if d == 4 {
        '4'
    } else if d == 5 {
        '5'
    } else if d == 6 {
        '6'
    } else if d == 7 {
        '7'
    } else if d == 8 {
        '8'
    } else {
        '9'
    }
}

/// The decimal text of `n`, without leading zeros.
pub open spec fn decimal(n: nat) -> Seq<char>
    decreases n,
{
    if n < 10 {
        seq![digit(n)]
    } else {
        decimal(n / 10).push(digit(n % 10))
    }
}

fn digit_char(d: u64) -> (r: char)
    requires
        d < 10,
    ensures
        r == digit(d as nat),
{
    if d == 0 {
        '0'
    } else if d == 1 {
        '1'
    } else if d == 2 {
        '2'
    } else if d == 3 {
        '3'
    } else if d == 4 {
        '4'
    } else if d == 5 {
        '5'
    } else if d == 6 {
        '6'
    } else if d == 7 {
        '7'
    } else if d == 8 {
        '8'
    } else {
        '9'
    }
}

/// Appends the decimal text of `n` to `out`.
pub fn push_decimal(out: &mut Vec<char>, n: u64)
    ensures
        final(out)@ == old(out)@ + decimal(n as nat),
    decreases n,
{
    if n >= 10 {
        push_decimal(out, n / 10);
    }
    out.push(digit_char(n % 10));
    assert(out@ =~= old(out)@ + decimal(n as nat));
}

/// The characters of a string literal, appended to `out`.
pub fn push_str(out: &mut Vec<char>, s: &str)
    ensures
        final(out)@ == old(out)@ + s@,
{
    let c = chars_of(s);
    crate::text::push_chars(out, &c);
}

/// The reason phrase used where an error carries a status and no message.
pub open spec fn status_text_spec(code: u16) -> Seq<char> {
    if code == 400 {
        "Bad Request"@
    } else if code == 401 {
        "Unauthorized"@
    } else if code == 403 {
        "Forbidden"@
    } else if code == 404 {
        "Not Found"@
    } else if code == 405 {
        "Method Not Allowed"@
    } else if code == 413 {
        "Payload Too Large"@
    } else if code == 422 {
        "Unprocessable Entity"@
    } else if code == 500 {
        "Internal Server Error"@
    } else if code == 502 {
        "Bad Gateway"@
    } else if code == 503 {
        "Service Unavailable"@
    } else {
        "HTTP "@ + decimal(code as nat)
    }
}

/// The reason phrase of `code`: the standard one for the common error
/// codes, else `HTTP ` and the code.
pub fn status_text(code: u16) -> (r: String)
    ensures
        r@ == status_text_spec(code),
{
    if code == 400 {
        "Bad Request".to_owned()
    } else if code == 401 {
        "Unauthorized".to_owned()
    } else if code == 403 {
        "Forbidden".to_owned()
    } else if code == 404 {
        "Not Found".to_owned()
    } else if code == 405 {
        "Method Not Allowed".to_owned()
    } else if code == 413 {
        "Payload Too Large".to_owned()
    } else if code == 422 {
        "Unprocessable Entity".to_owned()
    } else if code == 500 {
        "Internal Server Error".to_owned()
    } else if code == 502 {
        "Bad Gateway".to_owned()
    } else if code == 503 {
        "Service Unavailable".to_owned()
    } else {
        let mut out: Vec<char> = Vec::new();
        push_str(&mut out, "HTTP ");
        push_decimal(&mut out, code as u64);
        string_of(&out)
    }
}

/// How one character is written inside a JSON string.
pub open spec fn escape_char(c: char) -> Seq<char> {
    if c == '\\' {
        seq!['\\', '\\']
    } else if c == '"' {
        seq!['\\', '"']
    } else if c == '\n' {
        seq!['\\', 'n']
    } else if c == '\r' {
        seq!['\\', 'r']
    } else if c == '\t' {
        seq!['\\', 't']
    } else {
        seq![c]
    }
}

/// `s` with backslashes, quotes, newlines, carriage returns and tabs
/// escaped for a JSON string.
pub open spec fn escaped(s: Seq<char>) -> Seq<char>
    decreases s.len(),
{
    if s.len() == 0 {
        Seq::empty()
    } else {
        escaped(s.drop_last()) + escape_char(s.last())
    }
}

/// `s` escaped for use inside a JSON string, as [`escaped`] states it.
pub fn escape_json(s: &str) -> (r: String)
    ensures
        r@ == escaped(s@),
{
    let c = chars_of(s);
    let mut out: Vec<char> = Vec::new();
    let mut i: usize = 0;
    while i < c.len()
        invariant
            i <= c@.len(),
            c@ == s@,
            out@ == escaped(c@.subrange(0, i as int)),
        decreases c@.len() - i,
    {
        let ch = c[i];
        let ghost before = out@;
        if ch == '\\' {
            out.push('\\');
            out.push('\\');
        } else if ch == '"' {
            out.push('\\');
            out.push('"');
        } else if ch == '\n' {
            out.push('\\');
            out.push('n');
        } else if ch == '\r' {
            out.push('\\');
            out.push('r');
        } else if ch == '\t' {
            out.push('\\');
            out.push('t');
        } else {
            out.push(ch);
        }
        assert(out@ =~= before + escape_char(ch));
        let ghost next = c@.subrange(0, i + 1);
        assert(next.drop_last() =~= c@.subrange(0, i as int));
        i = i + 1;
    }
    assert(c@.subrange(0, i as int) =~= s@);
    string_of(&out)
}

impl Error {
    /// 400 Bad Request with a message.
    pub fn bad_request(msg: &str) -> (r: Error)
        ensures
            r@ == ErrorView::Status(400, Some(msg@)),
    {
        Error::Status(400, Some(msg.to_owned()))
    }

    /// 401 Unauthorized with a message.
    pub fn unauthorized(msg: &str) -> (r: Error)
        ensures
            r@ == ErrorView::Status(401, Some(msg@)),
    {
        Error::Status(401, Some(msg.to_owned()))
    }

    /// 403 Forbidden with a message.
    pub fn forbidden(msg: &str) -> (r: Error)
        ensures
            r@ == ErrorView::Status(403, Some(msg@)),
    {
        Error::Status(403, Some(msg.to_owned()))
    }

    /// 404 Not Found with a message.
    pub fn not_found(msg: &str) -> (r: Error)
        ensures
            r@ == ErrorView::Status(404, Some(msg@)),
    {
        Error::Status(404, Some(msg.to_owned()))
    }

    /// 405 Method Not Allowed with a message.
    pub fn method_not_allowed(msg: &str) -> (r: Error)
        ensures
            r@ == ErrorView::Status(405, Some(msg@)),
    {
        Error::Status(405, Some(msg.to_owned()))
    }

    /// 413 Payload Too Large with a message.
    pub fn payload_too_large(msg: &str) -> (r: Error)
        ensures
            r@ == ErrorView::Status(413, Some(msg@)),
    {
        Error::Status(413, Some(msg.to_owned()))
    }

    /// 422 Unprocessable Entity with a message.
    pub fn unprocessable(msg: &str) -> (r: Error)
        ensures
            r@ == ErrorView::Status(422, Some(msg@)),
    {
        Error::Status(422, Some(msg.to_owned()))
    }

    /// 500 Internal Server Error with a message.
    pub fn internal(msg: &str) -> (r: Error)
        ensures
            r@ == ErrorView::Status(500, Some(msg@)),
    {
        Error::Status(500, Some(msg.to_owned()))
    }

    /// The status `code` without a message.
    pub fn status(code: u16) -> (r: Error)
        ensures
            r@ == ErrorView::Status(code, None),
    {
        Error::Status(code, None)
    }

    /// A catch-all error with a message.
    pub fn custom(msg: &str) -> (r: Error)
        ensures
            r@ == ErrorView::Custom(msg@),
    {
        Error::Custom(msg.to_owned())
    }

    /// The text of the error.
    pub fn to_text(&self) -> (r: String)
        ensures
            r@ == error_text(self@),
    {
        let mut out: Vec<char> = Vec::new();
        match self {
            Error::Status(code, Some(msg)) => {
                push_str(&mut out, "HTTP ");
                push_decimal(&mut out, *code as u64);
                push_str(&mut out, ": ");
                push_str(&mut out, msg.as_str());
            },
            Error::Status(code, None) => {
                push_str(&mut out, "HTTP ");
                push_decimal(&mut out, *code as u64);
            },
            Error::Json(e) => {
                push_str(&mut out, "JSON error: ");
                push_str(&mut out, e.as_str());
            },
            Error::Hyper(e) => {
                push_str(&mut out, "HTTP error: ");
                push_str(&mut out, e.as_str());
            },
            Error::Io(e) => {
                push_str(&mut out, "IO error: ");
                push_str(&mut out, e.as_str());
            },
            Error::Custom(msg) => {
                push_str(&mut out, msg.as_str());
            },
        }
        assert(out@ =~= error_text(self@));
        string_of(&out)
    }
}

/// The text of an error.
pub open spec fn error_text(e: ErrorView) -> Seq<char> {
    match e {
        ErrorView::Status(code, Some(msg)) => "HTTP "@ + decimal(code as nat) + ": "@ + msg,
        ErrorView::Status(code, None) => "HTTP "@ + decimal(code as nat),
        ErrorView::Json(m) => "JSON error: "@ + m,
        ErrorView::Hyper(m) => "HTTP error: "@ + m,
        ErrorView::Io(m) => "IO error: "@ + m,
        ErrorView::Custom(m) => m,
    }
}

/// The status and message that an error stands for: the status it carries
/// (400 for encoding errors, 500 for the rest), and its message, or the
/// reason phrase of a bare status.
pub open spec fn status_and_message(e: ErrorView) -> (u16, Seq<char>) {
    match e {
        ErrorView::Status(code, Some(msg)) => (code, msg),
        ErrorView::Status(code, None) => (code, status_text_spec(code)),
        ErrorView::Json(m) => (400, "JSON error: "@ + m),
        ErrorView::Hyper(m) => (500, "HTTP error: "@ + m),
        ErrorView::Io(m) => (500, "IO error: "@ + m),
        ErrorView::Custom(m) => (500, m),
    }
}

/// The plain-text response for an error: a bare status gives an empty
/// body; a status with a message gives the code and the message.
pub open spec fn plain_response(e: ErrorView) -> ResView {
    match e {
        ErrorView::Status(code, Some(msg)) => typed_view(
            status_for(code),
            text_type(),
            encode_utf8(decimal(code as nat) + " "@ + msg),
        ),
        ErrorView::Status(code, None) => buffered_view(status_for(code), Seq::empty()),
        ErrorView::Json(m) => typed_view(400, text_type(), encode_utf8("JSON error: "@ + m)),
        ErrorView::Hyper(m) => typed_view(500, text_type(), encode_utf8("HTTP error: "@ + m)),
        ErrorView::Io(m) => typed_view(500, text_type(), encode_utf8("IO error: "@ + m)),
        ErrorView::Custom(m) => typed_view(500, text_type(), encode_utf8(m)),
    }
}

/// The JSON body for an error: `{"error":"<escaped message>","status":<code>}`.
pub open spec fn json_body(e: ErrorView) -> Seq<char> {
    let (code, msg) = status_and_message(e);
    "{\"error\":\""@ + escaped(msg) + "\",\"status\":"@ + decimal(code as nat) + "}"@
}

/// The JSON response for an error.
pub open spec fn json_response(e: ErrorView) -> ResView {
    typed_view(status_for(status_and_message(e).0), json_type(), encode_utf8(json_body(e)))
}

/// Turns errors into responses.
pub trait ErrorHandler {
    /// The response for `error`.
    fn handle(&self, error: Error) -> Res;
}

/// Plain-text error responses.
#[derive(Debug, Clone, Copy)]
pub struct DefaultErrorHandler;

/// JSON error responses.
#[derive(Debug, Clone, Copy)]
pub struct JsonErrorHandler;

fn text_response(status: u16, body: &Vec<char>) -> (r: Res)
    ensures
        r@ == typed_view(status_for(status), text_type(), encode_utf8(body@)),
{
    let s = string_of(body);
    let b = Res::builder().status(status);
    proof {
        assert(crate::res::headers_view(b.headers@) =~= Seq::empty());
    }
    let r = b.text(s.as_str());
    assert(r@.headers =~= seq![(crate::res::content_type_name(), text_type())]);
    r
}

/// The plain-text response for `error`, as [`plain_response`] states it.
pub fn plain_error_response(error: &Error) -> (r: Res)
    ensures
        r@ == plain_response(error@),
{
    let mut out: Vec<char> = Vec::new();
    match error {
        Error::Status(code, Some(msg)) => {
            push_decimal(&mut out, *code as u64);
            push_str(&mut out, " ");
            push_str(&mut out, msg.as_str());
            text_response(*code, &out)
        },
        Error::Status(code, None) => Res::status(*code),
        Error::Json(e) => {
            push_str(&mut out, "JSON error: ");
            push_str(&mut out, e.as_str());
            text_response(400, &out)
        },
        Error::Hyper(e) => {
            push_str(&mut out, "HTTP error: ");
            push_str(&mut out, e.as_str());
            text_response(500, &out)
        },
        Error::Io(e) => {
            push_str(&mut out, "IO error: ");
            push_str(&mut out, e.as_str());
            text_response(500, &out)
        },
        Error::Custom(msg) => {
            push_str(&mut out, msg.as_str());
            text_response(500, &out)
        },
    }
}

/// The JSON response for `error`, as [`json_response`] states it.
pub fn json_error_response(error: &Error) -> (r: Res)
    ensures
        r@ == json_response(error@),
{
    let mut message: Vec<char> = Vec::new();
    let code: u16 = match error {
        Error::Status(code, Some(msg)) => {
            push_str(&mut message, msg.as_str());
            *code
        },
        Error::Status(code, None) => {
            let t = status_text(*code);
            push_str(&mut message, t.as_str());
            *code
        },
        Error::Json(e) => {
            push_str(&mut message, "JSON error: ");
            push_str(&mut message, e.as_str());
            400
        },
        Error::Hyper(e) => {
            push_str(&mut message, "HTTP error: ");
            push_str(&mut message, e.as_str());
            500
        },
        Error::Io(e) => {
            push_str(&mut message, "IO error: ");
            push_str(&mut message, e.as_str());
            500
        },
        Error::Custom(msg) => {
            push_str(&mut message, msg.as_str());
            500
        },
    };
    assert(message@ =~= status_and_message(error@).1);
    assert(code == status_and_message(error@).0);
    let esc = escape_json(string_of(&message).as_str());
    let mut out: Vec<char> = Vec::new();
    push_str(&mut out, "{\"error\":\"");
    push_str(&mut out, esc.as_str());
    push_str(&mut out, "\",\"status\":");
    push_decimal(&mut out, code as u64);
    push_str(&mut out, "}");
    assert(out@ =~= json_body(error@));
    let body = string_of(&out);
    let status = Res::status(code).status;
    let mut headers: Vec<(String, String)> = Vec::new();
    headers.push(("content-type".to_owned(), "application/json".to_owned()));
    let r = Res { status, headers, body: crate::res::ResBody::Buffered(bytes_of(body.as_str())) };
    assert(r@.headers =~= seq![(crate::res::content_type_name(), json_type())]);
    r
}

impl ErrorHandler for DefaultErrorHandler {
    /// The plain-text response, as [`plain_response`] states it.
    fn handle(&self, error: Error) -> (r: Res)
        ensures
            r@ == plain_response(error@),
    {
        plain_error_response(&error)
    }
}

impl ErrorHandler for JsonErrorHandler {
    /// The JSON response, as [`json_response`] states it.
    fn handle(&self, error: Error) -> (r: Res)
        ensures
            r@ == json_response(error@),
    {
        json_error_response(&error)
    }
}

/// Values that handlers may return in place of a response.
pub trait IntoRes {
    /// The response this value stands for.
    fn into_res(self) -> Res;
}

impl IntoRes for Res {
    fn into_res(self) -> Res {
        self
    }
}

impl IntoRes for String {
    fn into_res(self) -> Res {
        Res::text(self.as_str())
    }
}

impl IntoRes for &str {
    fn into_res(self) -> Res {
        Res::text(self)
    }
}

impl IntoRes for () {
    fn into_res(self) -> Res {
        Res::status(204)
    }
}

impl IntoRes for Error {
    fn into_res(self) -> Res {
        plain_error_response(&self)
    }
}

impl<T: IntoRes> IntoRes for Result<T, Error> {
    fn into_res(self) -> Res {
        match self {
            Ok(v) => v.into_res(),
            Err(e) => plain_error_response(&e),
        }
    }
}

/// An HTML body.
pub struct Html(pub String);

impl IntoRes for Html {
    fn into_res(self) -> Res {
        Res::html(self.0.as_str())
    }
}

impl IntoRes for &Html {
    fn into_res(self) -> Res {
        Res::html(self.0.as_str())
    }
}

} // verus!
