//! Responses: status, headers and one body variant (buffered bytes, a
//! stream fed through a channel, or a protocol upgrade), with a builder.
use vstd::prelude::*;
use vstd::utf8::encode_utf8;
use crate::text::{bytes_of, push_bytes};
use base64::Engine;
use sha1::Digest;

verus! {

/// The body of a response.
#[derive(Debug, PartialEq, Eq)]
pub enum ResBody {
    /// Bytes known up front.
    Buffered(Vec<u8>),
    /// Chunks that a producer pushes through a channel.
    Streamed,
    /// The connection is handed to another protocol after the response.
    Upgrade,
}

/// The value of a body.
pub ghost enum BodyView {
    Buffered(Seq<u8>),
    Streamed,
    Upgrade,
}

impl View for ResBody {
    type V = BodyView;

    open spec fn view(&self) -> BodyView {
        match self {
            ResBody::Buffered(b) => BodyView::Buffered(b@),
            ResBody::Streamed => BodyView::Streamed,
            ResBody::Upgrade => BodyView::Upgrade,
        }
    }
}

/// An HTTP response.
#[derive(Debug)]
pub struct Res {
    pub status: u16,
    /// Header names in canonical (lower-case) form, each with its value.
    pub headers: Vec<(String, String)>,
    pub body: ResBody,
}

/// The value of a response.
pub ghost struct ResView {
    pub status: u16,
    pub headers: Seq<(Seq<char>, Seq<char>)>,
    pub body: BodyView,
}

/// The value of a header list.
pub open spec fn headers_view(h: Seq<(String, String)>) -> Seq<(Seq<char>, Seq<char>)> {
    h.map_values(|p: (String, String)| (p.0@, p.1@))
}

impl View for Res {
    type V = ResView;

    open spec fn view(&self) -> ResView {
        ResView { status: self.status, headers: headers_view(self.headers@), body: self.body@ }
    }
}

/// Whether some header of `hs` is named `name`.
pub open spec fn has_header(hs: Seq<(Seq<char>, Seq<char>)>, name: Seq<char>) -> bool {
    exists|i: int| 0 <= i < hs.len() && (#[trigger] hs[i]).0 == name
}

/// `hs` with the header `name` set to `value`: a header of that name takes
/// the new value where there is one, else the header comes last.
pub open spec fn put_header(hs: Seq<(Seq<char>, Seq<char>)>, name: Seq<char>, value: Seq<char>) -> Seq<(Seq<char>, Seq<char>)> {
    if has_header(hs, name) {
        hs.map_values(|h: (Seq<char>, Seq<char>)| if h.0 == name { (name, value) } else { h })
    } else {
        hs.push((name, value))
    }
}

/// A character that a header name may hold: an HTTP token character.
pub open spec fn token_char(c: char) -> bool {
    ||| ('a' <= c && c <= 'z')
    ||| ('A' <= c && c <= 'Z')
    ||| ('0' <= c && c <= '9')
    ||| c == '!' || c == '#' || c == '$' || c == '%' || c == '&' || c == '\'' || c == '*'
    ||| c == '+' || c == '-' || c == '.' || c == '^' || c == '_' || c == '`' || c == '|' || c == '~'
}

/// `c` with an upper-case ASCII letter turned to lower case.
pub open spec fn ascii_lower(c: char) -> char {
    if 'A' <= c && c <= 'Z' {
        ((c as u32) + 32) as char
    } else {
        c
    }
}

/// The canonical form of a header name: the name in lower case where it
/// has 1 to 65535 characters, all token characters (which are ASCII, so
/// as many bytes); `None` otherwise.
pub open spec fn header_name_form(name: Seq<char>) -> Option<Seq<char>> {
    if 1 <= name.len() <= 65535 && forall|i: int| 0 <= i < name.len() ==> token_char(#[trigger] name[i]) {
        Some(name.map_values(|c: char| ascii_lower(c)))
    } else {
        None
    }
}

/// Relies on `http::HeaderName::from_bytes` (re-exported by hyper): it
/// accepts 1 to 65535 bytes that are all token characters, and `as_str`
/// gives the name with its letters in lower case.
#[verifier::external_body]
pub(crate) fn canonical_header_name(name: &str) -> (r: Option<String>)
    ensures
        r matches Some(s) ==> header_name_form(name@) == Some(s@),
        r is None ==> header_name_form(name@) is None,
{
    match hyper::header::HeaderName::from_bytes(name.as_bytes()) {
        Ok(n) => Some(n.as_str().to_string()),
        Err(_) => None,
    }
}

/// A character that a header value may hold: every byte of its UTF-8 form
/// is a tab, or at least 32 and not 127.
pub open spec fn value_char_ok(c: char) -> bool {
    c == '\t' || (c as u32 >= 32 && c as u32 != 127)
}

/// Whether `v` is a valid header value.
pub open spec fn header_value_ok(v: Seq<char>) -> bool {
    forall|i: int| 0 <= i < v.len() ==> value_char_ok(#[trigger] v[i])
}

/// Relies on `http::HeaderValue::from_str` (re-exported by hyper): it
/// accepts a value whose bytes are all tabs or at least 32 and not 127.
#[verifier::external_body]
fn header_value_valid(value: &str) -> (r: bool)
    ensures
        r == header_value_ok(value@),
{
    hyper::header::HeaderValue::from_str(value).is_ok()
}

/// Relies on `http::StatusCode::from_u16` (re-exported by hyper): it
/// accepts the codes from 100 to 999.
#[verifier::external_body]
fn status_code_valid(code: u16) -> (r: bool)
    ensures
        r == (100 <= code && code <= 999),
{
    hyper::StatusCode::from_u16(code).is_ok()
}

/// The status a response gets for `code`: the code itself where it is
/// valid, else 500.
pub open spec fn status_for(code: u16) -> u16 {
    if 100 <= code && code <= 999 {
        code
    } else {
        500
    }
}

/// The headers `hs` after asking to set `name` to `value`: unchanged where
/// the name or the value is refused.
pub open spec fn with_header(hs: Seq<(Seq<char>, Seq<char>)>, name: Seq<char>, value: Seq<char>) -> Seq<(Seq<char>, Seq<char>)> {
    match header_name_form(name) {
        Some(n) => if header_value_ok(value) {
            put_header(hs, n, value)
        } else {
            hs
        },
        None => hs,
    }
}

/// Sets the header `name` in `hs` to `value`, as [`put_header`] states it.
pub fn put_header_in(hs: &mut Vec<(String, String)>, name: String, value: String)
    ensures
        headers_view(final(hs)@) == put_header(headers_view(old(hs)@), name@, value@),
{
    let ghost before = headers_view(hs@);
    let ghost replaced = before.map_values(
        |h: (Seq<char>, Seq<char>)| if h.0 == name@ { (name@, value@) } else { h },
    );
    let mut out: Vec<(String, String)> = Vec::new();
    let mut found = false;
    let mut i: usize = 0;
    let n = hs.len();
    while i < n
        invariant
            i <= n,
            n == hs@.len(),
            before == headers_view(hs@),
            replaced.len() == n,
            replaced == before.map_values(
                |h: (Seq<char>, Seq<char>)| if h.0 == name@ { (name@, value@) } else { h },
            ),
            headers_view(out@) == replaced.subrange(0, i as int),
            found <==> exists|j: int| 0 <= j < i && (#[trigger] before[j]).0 == name@,
        decreases n - i,
    {
        let ghost prev = headers_view(out@);
        assert(before[i as int] == (hs@[i as int].0@, hs@[i as int].1@));
        assert(replaced[i as int] == (if before[i as int].0 == name@ { (name@, value@) } else { before[i as int] }));
        let same = hs[i].0 == name;
        if same {
            out.push((name.clone(), value.clone()));
            found = true;
        } else {
            out.push((hs[i].0.clone(), hs[i].1.clone()));
        }
        assert(headers_view(out@) =~= prev.push(replaced[i as int]));
        i = i + 1;
        assert(headers_view(out@) =~= replaced.subrange(0, i as int));
    }
    if found {
        assert(replaced.subrange(0, n as int) =~= replaced);
        *hs = out;
    } else {
        hs.push((name, value));
        assert(headers_view(hs@) =~= before.push((name@, value@)));
    }
}

/// Asks to set the header `name` in `hs` to `value`, as [`with_header`]
/// states it.
pub fn set_header(hs: &mut Vec<(String, String)>, name: &str, value: &str)
    ensures
        headers_view(final(hs)@) == with_header(headers_view(old(hs)@), name@, value@),
{
    match canonical_header_name(name) {
        Some(n) => {
            if header_value_valid(value) {
                put_header_in(hs, n, value.to_owned());
            }
        },
        None => {},
    }
}

/// The value of the header `name` in `hs`: the first of that name.
pub open spec fn header_lookup(hs: Seq<(Seq<char>, Seq<char>)>, name: Seq<char>) -> Option<Seq<char>>
    decreases hs.len(),
{
    if hs.len() == 0 {
        None
    } else if hs[0].0 == name {
        Some(hs[0].1)
    } else {
        header_lookup(hs.drop_first(), name)
    }
}

/// The value of the header named exactly `name` in `hs`.
pub fn find_header<'a>(hs: &'a Vec<(String, String)>, name: &str) -> (r: Option<&'a String>)
    ensures
        r matches Some(v) ==> header_lookup(headers_view(hs@), name@) == Some(v@),
        r is None ==> header_lookup(headers_view(hs@), name@) is None,
{
    let ghost hv = headers_view(hs@);
    let mut i: usize = 0;
    let n = hs.len();
    let target = name.to_owned();
    assert(hv.subrange(0, n as int) =~= hv);
    while i < n
        invariant
            i <= n,
            n == hs@.len(),
            hv == headers_view(hs@),
            target@ == name@,
            header_lookup(hv, name@) == header_lookup(hv.subrange(i as int, n as int), name@),
        decreases n - i,
    {
        let ghost rest = hv.subrange(i as int, n as int);
        assert(rest.drop_first() =~= hv.subrange(i + 1, n as int));
        if hs[i].0 == target {
            assert(rest[0] == hv[i as int]);
            return Some(&hs[i].1);
        }
        i = i + 1;
    }
    assert(hv.subrange(n as int, n as int) =~= Seq::<(Seq<char>, Seq<char>)>::empty());
    None
}

/// The content type of plain text.
pub open spec fn text_type() -> Seq<char> {
    "text/plain; charset=utf-8"@
}

/// The content type of HTML.
pub open spec fn html_type() -> Seq<char> {
    "text/html; charset=utf-8"@
}

/// The content type of JSON.
pub open spec fn json_type() -> Seq<char> {
    "application/json"@
}

/// The canonical name of the content-type header.
pub open spec fn content_type_name() -> Seq<char> {
    "content-type"@
}

/// The body that reports a failed JSON encoding with the message `e`.
pub open spec fn json_failure_body(e: Seq<char>) -> Seq<u8> {
    encode_utf8("{\"error\": \"JSON serialization failed: "@) + encode_utf8(e) + encode_utf8("\"}"@)
}

/// The bytes that stand between a WebSocket key and the digest that
/// accepts it.
pub open spec fn websocket_guid() -> Seq<char> {
    "258EAFA5-E914-47DA-95CA-C5AB0DC85B11"@
}

/// The SHA-1 digest of `data`.
pub uninterp spec fn sha1_of(data: Seq<u8>) -> Seq<u8>;

/// The standard base64 encoding (with padding) of `data`.
pub uninterp spec fn base64_of(data: Seq<u8>) -> Seq<char>;

/// Relies on `sha1::Sha1`: the SHA-1 digest of the bytes, 20 bytes long.
#[verifier::external_body]
fn sha1_digest(data: &Vec<u8>) -> (r: Vec<u8>)
    ensures
        r@ == sha1_of(data@),
{
    sha1::Sha1::digest(data.as_slice()).to_vec()
}

/// Relies on `base64`'s standard engine: the padded base64 text of the
/// bytes.
#[verifier::external_body]
fn base64_encode(data: &Vec<u8>) -> (r: String)
    ensures
        r@ == base64_of(data@),
{
    base64::engine::general_purpose::STANDARD.encode(data)
}

/// The `Sec-WebSocket-Accept` value that answers the key `key`: the base64
/// text of the SHA-1 digest of the key followed by the WebSocket GUID.
pub fn websocket_accept(key: &str) -> (r: String)
    ensures
        r@ == base64_of(sha1_of(encode_utf8(key@) + encode_utf8(websocket_guid()))),
{
    let mut data = bytes_of(key);
    let guid = bytes_of("258EAFA5-E914-47DA-95CA-C5AB0DC85B11");
    push_bytes(&mut data, &guid);
    let digest = sha1_digest(&data);
    base64_encode(&digest)
}

/// The response of a WebSocket upgrade with the accept value `accept`.
pub open spec fn upgrade_view(accept: Seq<char>) -> ResView {
    ResView {
        status: 101,
        headers: seq![("upgrade"@, "websocket"@), ("connection"@, "Upgrade"@), ("sec-websocket-accept"@, accept)],
        body: BodyView::Upgrade,
    }
}

/// The response with `status`, no header, and the bytes `body`.
pub open spec fn buffered_view(status: u16, body: Seq<u8>) -> ResView {
    ResView { status, headers: Seq::empty(), body: BodyView::Buffered(body) }
}

/// The response with `status`, the content type `ctype`, and the bytes
/// `body`.
pub open spec fn typed_view(status: u16, ctype: Seq<char>, body: Seq<u8>) -> ResView {
    ResView { status, headers: seq![(content_type_name(), ctype)], body: BodyView::Buffered(body) }
}

fn typed(status: u16, ctype: &str, body: Vec<u8>) -> (r: Res)
    ensures
        r@ == typed_view(status, ctype@, body@),
{
    let mut headers: Vec<(String, String)> = Vec::new();
    headers.push(("content-type".to_owned(), ctype.to_owned()));
    let r = Res { status, headers, body: ResBody::Buffered(body) };
    assert(r@.headers =~= seq![(content_type_name(), ctype@)]);
    r
}

impl Res {
    /// An empty 200 response.
    pub fn new() -> (r: Res)
        ensures
            r@ == buffered_view(200, Seq::empty()),
    {
        let r = Res { status: 200, headers: Vec::new(), body: ResBody::Buffered(Vec::new()) };
        assert(r@.body == BodyView::Buffered(Seq::<u8>::empty()));
        assert(r@.headers =~= Seq::<(Seq<char>, Seq<char>)>::empty());
        r
    }

    /// A 200 response with a plain-text body.
    pub fn text(body: &str) -> (r: Res)
        ensures
            r@ == typed_view(200, text_type(), encode_utf8(body@)),
    {
        typed(200, "text/plain; charset=utf-8", bytes_of(body))
    }

    /// A 200 response with an HTML body.
    pub fn html(body: &str) -> (r: Res)
        ensures
            r@ == typed_view(200, html_type(), encode_utf8(body@)),
    {
        typed(200, "text/html; charset=utf-8", bytes_of(body))
    }

    /// A JSON response from the outcome of encoding a value: the encoded
    /// bytes with status 200, or status 500 and a JSON body that carries
    /// the encoder's message.
    pub fn json(encoded: Result<Vec<u8>, String>) -> (r: Res)
        ensures
            encoded matches Ok(b) ==> r@ == typed_view(200, json_type(), b@),
            encoded matches Err(e) ==> r@ == typed_view(500, json_type(), json_failure_body(e@)),
    {
        match encoded {
            Ok(bytes) => typed(200, "application/json", bytes),
            Err(e) => {
                let mut body = bytes_of("{\"error\": \"JSON serialization failed: ");
                push_bytes(&mut body, &bytes_of(e.as_str()));
                push_bytes(&mut body, &bytes_of("\"}"));
                typed(500, "application/json", body)
            },
        }
    }

    /// A response with status `code` (500 where the code is not valid) and
    /// an empty body.
    pub fn status(code: u16) -> (r: Res)
        ensures
            r@ == buffered_view(status_for(code), Seq::empty()),
    {
        let status = if status_code_valid(code) { code } else { 500 };
        let r = Res { status, headers: Vec::new(), body: ResBody::Buffered(Vec::new()) };
        assert(r@.headers =~= Seq::<(Seq<char>, Seq<char>)>::empty());
        r
    }

    /// A builder for a response.
    pub fn builder() -> (r: ResBuilder)
        ensures
            r.status == 200,
            r.headers@.len() == 0,
    {
        ResBuilder::new()
    }

    /// A 200 response whose body a producer streams.
    pub fn stream() -> (r: Res)
        ensures
            r@ == (ResView { status: 200, headers: Seq::empty(), body: BodyView::Streamed }),
    {
        let r = Res { status: 200, headers: Vec::new(), body: ResBody::Streamed };
        assert(r@.headers =~= Seq::<(Seq<char>, Seq<char>)>::empty());
        r
    }

    /// The 101 response that accepts a WebSocket upgrade with the accept
    /// value `accept`.
    pub fn upgrade(accept: String) -> (r: Res)
        ensures
            r@ == upgrade_view(accept@),
    {
        let mut headers: Vec<(String, String)> = Vec::new();
        headers.push(("upgrade".to_owned(), "websocket".to_owned()));
        headers.push(("connection".to_owned(), "Upgrade".to_owned()));
        headers.push(("sec-websocket-accept".to_owned(), accept));
        let r = Res { status: 101, headers, body: ResBody::Upgrade };
        assert(r@.headers =~= upgrade_view(accept@).headers);
        r
    }

    /// The 101 response that accepts a WebSocket upgrade for the key `key`.
    pub fn websocket(key: &str) -> (r: Res)
        ensures
            r@ == upgrade_view(base64_of(sha1_of(encode_utf8(key@) + encode_utf8(websocket_guid())))),
    {
        Res::upgrade(websocket_accept(key))
    }

    /// The status code.
    pub fn status_code(&self) -> (r: u16)
        ensures
            r == self.status,
    {
        self.status
    }

    /// This response with the header `name` set to `value`; unchanged where
    /// the name or the value is not valid.
    pub fn header(self, name: &str, value: &str) -> (r: Res)
        ensures
            r@ == (ResView { headers: with_header(self@.headers, name@, value@), ..self@ }),
    {
        let mut r = self;
        set_header(&mut r.headers, name, value);
        r
    }

    /// The headers.
    pub fn headers(&self) -> (r: &Vec<(String, String)>)
        ensures
            r == &self.headers,
    {
        &self.headers
    }

    /// The headers, to change in place.
    pub fn headers_mut(&mut self) -> (r: &mut Vec<(String, String)>)
        ensures
            *r == old(self).headers,
            *final(self) == (Res { headers: *final(r), ..*old(self) }),
    {
        &mut self.headers
    }

    /// The value of the header named exactly `name`.
    pub fn header_value(&self, name: &str) -> (r: Option<&String>)
        ensures
            r matches Some(v) ==> header_lookup(self@.headers, name@) == Some(v@),
            r is None ==> header_lookup(self@.headers, name@) is None,
    {
        find_header(&self.headers, name)
    }
}

/// A response under construction: its status and headers.
pub struct ResBuilder {
    pub status: u16,
    pub headers: Vec<(String, String)>,
}

/// `hs`, with the content type `ctype` where it has none.
pub open spec fn default_type(hs: Seq<(Seq<char>, Seq<char>)>, ctype: Seq<char>) -> Seq<(Seq<char>, Seq<char>)> {
    if has_header(hs, content_type_name()) {
        hs
    } else {
        hs.push((content_type_name(), ctype))
    }
}

impl ResBuilder {
    /// A builder with status 200 and no header.
    pub fn new() -> (r: ResBuilder)
        ensures
            r.status == 200,
            r.headers@.len() == 0,
    {
        ResBuilder { status: 200, headers: Vec::new() }
    }

    /// Sets the status to `code` (500 where the code is not valid).
    pub fn status(self, code: u16) -> (r: ResBuilder)
        ensures
            r.status == status_for(code),
            r.headers == self.headers,
    {
        let status = if status_code_valid(code) { code } else { 500 };
        ResBuilder { status, headers: self.headers }
    }

    /// Sets the header `name` to `value`; unchanged where the name or the
    /// value is not valid.
    pub fn header(self, name: &str, value: &str) -> (r: ResBuilder)
        ensures
            r.status == self.status,
            headers_view(r.headers@) == with_header(headers_view(self.headers@), name@, value@),
    {
        let mut headers = self.headers;
        set_header(&mut headers, name, value);
        ResBuilder { status: self.status, headers }
    }

    fn finish_typed(self, ctype: &str, body: Vec<u8>) -> (r: Res)
        ensures
            r@ == (ResView {
                status: self.status,
                headers: default_type(headers_view(self.headers@), ctype@),
                body: BodyView::Buffered(body@),
            }),
    {
        let mut headers = self.headers;
        let ghost hv = headers_view(headers@);
        let present = find_header(&headers, "content-type");
        let typed_already = present.is_some();
        proof {
            lemma_lookup_has(hv, content_type_name());
        }
        if !typed_already {
            let ghost before = headers_view(headers@);
            headers.push(("content-type".to_owned(), ctype.to_owned()));
            assert(headers_view(headers@) =~= before.push((content_type_name(), ctype@)));
        }
        Res { status: self.status, headers, body: ResBody::Buffered(body) }
    }

    /// The response with a plain-text body; the content type is plain text
    /// unless a header set it.
    pub fn text(self, body: &str) -> (r: Res)
        ensures
            r@ == (ResView {
                status: self.status,
                headers: default_type(headers_view(self.headers@), text_type()),
                body: BodyView::Buffered(encode_utf8(body@)),
            }),
    {
        self.finish_typed("text/plain; charset=utf-8", bytes_of(body))
    }

    /// The response with an HTML body; the content type is HTML unless a
    /// header set it.
    pub fn html(self, body: &str) -> (r: Res)
        ensures
            r@ == (ResView {
                status: self.status,
                headers: default_type(headers_view(self.headers@), html_type()),
                body: BodyView::Buffered(encode_utf8(body@)),
            }),
    {
        self.finish_typed("text/html; charset=utf-8", bytes_of(body))
    }

    /// The response with JSON from the outcome of encoding a value: the
    /// encoded bytes (content type JSON unless a header set it), or a plain
    /// 500 response where the encoding failed.
    pub fn json(self, encoded: Result<Vec<u8>, String>) -> (r: Res)
        ensures
            encoded matches Ok(b) ==> r@ == (ResView {
                status: self.status,
                headers: default_type(headers_view(self.headers@), json_type()),
                body: BodyView::Buffered(b@),
            }),
            encoded is Err ==> r@ == (ResView {
                status: 500,
                headers: seq![(content_type_name(), text_type())],
                body: BodyView::Buffered(encode_utf8("Failed to serialize JSON"@)),
            }),
    {
        match encoded {
            Ok(bytes) => self.finish_typed("application/json", bytes),
            Err(_) => {
                let b = ResBuilder::new().status(500);
                proof {
                    let e = Seq::<(Seq<char>, Seq<char>)>::empty();
                    assert(headers_view(b.headers@) =~= e);
                    assert(!has_header(e, content_type_name()));
                    assert(e.push((content_type_name(), text_type())) =~= seq![(content_type_name(), text_type())]);
                }
                let r = b.text("Failed to serialize JSON");
                r
            },
        }
    }

    /// The response with the bytes `bytes` as its body and the headers as
    /// set.
    pub fn body(self, bytes: Vec<u8>) -> (r: Res)
        ensures
            r@ == (ResView {
                status: self.status,
                headers: headers_view(self.headers@),
                body: BodyView::Buffered(bytes@),
            }),
    {
        Res { status: self.status, headers: self.headers, body: ResBody::Buffered(bytes) }
    }
}

/// A header list has a header of a name exactly where a lookup of that
/// name finds one.
pub proof fn lemma_lookup_has(hs: Seq<(Seq<char>, Seq<char>)>, name: Seq<char>)
    ensures
        (header_lookup(hs, name) is Some) == has_header(hs, name),
    decreases hs.len(),
{
    if hs.len() > 0 {
        lemma_lookup_has(hs.drop_first(), name);
        if has_header(hs, name) && hs[0].0 != name {
            let i = choose|i: int| 0 <= i < hs.len() && (#[trigger] hs[i]).0 == name;
            assert(hs.drop_first()[i - 1] == hs[i]);
        }
        if has_header(hs.drop_first(), name) {
            let i = choose|i: int| 0 <= i < hs.drop_first().len() && (#[trigger] hs.drop_first()[i]).0 == name;
            assert(hs[i + 1] == hs.drop_first()[i]);
        }
    }
}

} // verus!
