//! Requests: method, path, query, headers, the parameters bound by
//! routing, the body once it has been read, and the extensions.
use vstd::prelude::*;
use crate::error::{Error, ErrorView};
use crate::extensions::Extensions;
use crate::method::Method;
use crate::res::{find_header, header_lookup, header_name_form, headers_view};
use crate::table::params_view;
use crate::text::chars_of;

verus! {

/// Whether `needle` occurs in `hay` starting at `at`.
pub open spec fn occurs_at(hay: Seq<char>, needle: Seq<char>, at: int) -> bool {
    0 <= at && at + needle.len() <= hay.len() && hay.subrange(at, at + needle.len()) == needle
}

/// Whether `needle` occurs anywhere in `hay`.
pub open spec fn contains_text(hay: Seq<char>, needle: Seq<char>) -> bool {
    exists|at: int| occurs_at(hay, needle, at)
}

/// Whether `needle` occurs in `hay`.
pub fn contains_chars(hay: &Vec<char>, needle: &Vec<char>) -> (r: bool)
    ensures
        r == contains_text(hay@, needle@),
{
    let n = hay.len();
    let m = needle.len();
    if m > n {
        assert forall|at: int| !occurs_at(hay@, needle@, at) by {}
        return false;
    }
    let mut at: usize = 0;
    while at <= n - m
        invariant
            n == hay@.len(),
            m == needle@.len(),
            m <= n,
            at <= n - m + 1,
            forall|j: int| 0 <= j < at ==> !occurs_at(hay@, needle@, j),
        decreases n - m + 1 - at,
    {
        let mut k: usize = 0;
        let mut same = true;
        while k < m
            invariant
                k <= m,
                n == hay@.len(),
                m == needle@.len(),
                at + m <= n,
                same == forall|x: int| 0 <= x < k ==> hay@[at + x] == needle@[x],
            decreases m - k,
        {
            if hay[at + k] != needle[k] {
                same = false;
            }
            k = k + 1;
        }
        if same {
            assert(hay@.subrange(at as int, at + m) =~= needle@);
            assert(occurs_at(hay@, needle@, at as int));
            return true;
        }
        assert(!occurs_at(hay@, needle@, at as int)) by {
            if hay@.subrange(at as int, at + m) == needle@ {
                assert forall|x: int| 0 <= x < m implies hay@[at + x] == needle@[x] by {
                    assert(hay@.subrange(at as int, at + m)[x] == hay@[at + x]);
                }
            }
        }
        at = at + 1;
    }
    assert forall|j: int| !occurs_at(hay@, needle@, j) by {
        if 0 <= j && j + m <= n {
            assert(j < at);
        }
    }
    false
}

/// The value of the parameter `name` among `ps`: the first of that name.
pub open spec fn param_lookup(ps: Seq<(Seq<char>, Seq<char>)>, name: Seq<char>) -> Option<Seq<char>> {
    header_lookup(ps, name)
}

/// An HTTP request.
pub struct Req {
    pub method: Method,
    pub path: String,
    pub query: Option<String>,
    /// Header names in canonical (lower-case) form, each with its value.
    pub headers: Vec<(String, String)>,
    /// The parameters bound by routing, in pattern order.
    pub path_params: Vec<(String, String)>,
    /// The body, once it has been read.
    pub body: Option<Vec<u8>>,
    pub extensions: Extensions,
}

impl Req {
    /// The request is well formed where its extensions are.
    pub open spec fn wf(&self) -> bool {
        self.extensions.wf()
    }

    /// A request with no parameters, no body read yet and no extensions.
    pub fn new(method: Method, path: String, query: Option<String>, headers: Vec<(String, String)>) -> (r: Req)
        ensures
            r.wf(),
            r.method == method,
            r.path == path,
            r.query == query,
            r.headers == headers,
            r.path_params@.len() == 0,
            r.body is None,
            r.extensions@ == Map::<crate::extensions::ExtensionKind, crate::extensions::Extension>::empty(),
    {
        Req { method, path, query, headers, path_params: Vec::new(), body: None, extensions: Extensions::new() }
    }

    /// The method.
    pub fn method(&self) -> (r: Method)
        ensures
            r == self.method,
    {
        self.method
    }

    /// The path.
    pub fn path(&self) -> (r: &str)
        ensures
            r@ == self.path@,
    {
        self.path.as_str()
    }

    /// The query string, if there is one.
    pub fn query(&self) -> (r: Option<&String>)
        ensures
            r == match &self.query {
                Some(q) => Some(q),
                None => None::<&String>,
            },
    {
        match &self.query {
            Some(q) => Some(q),
            None => None,
        }
    }

    /// The value of the header `name`, whatever the case of its letters.
    pub fn header(&self, name: &str) -> (r: Option<&String>)
        ensures
            header_name_form(name@) is None ==> r is None,
            header_name_form(name@) matches Some(n) ==> (match r {
                Some(v) => header_lookup(headers_view(self.headers@), n) == Some(v@),
                None => header_lookup(headers_view(self.headers@), n) is None,
            }),
    {
        match crate::res::canonical_header_name(name) {
            Some(n) => find_header(&self.headers, n.as_str()),
            None => None,
        }
    }

    /// The headers.
    pub fn headers(&self) -> (r: &Vec<(String, String)>)
        ensures
            r == &self.headers,
    {
        &self.headers
    }

    /// Replaces the path parameters.
    pub fn set_path_params(&mut self, params: Vec<(String, String)>)
        ensures
            *final(self) == (Req { path_params: params, ..*old(self) }),
    {
        self.path_params = params;
    }

    /// The value of the path parameter `name`.
    pub fn param(&self, name: &str) -> (r: Option<&String>)
        ensures
            r matches Some(v) ==> param_lookup(params_view(self.path_params@), name@) == Some(v@),
            r is None ==> param_lookup(params_view(self.path_params@), name@) is None,
    {
        proof {
            assert(params_view(self.path_params@) == headers_view(self.path_params@));
        }
        find_header(&self.path_params, name)
    }

    /// The path parameters.
    pub fn params(&self) -> (r: &Vec<(String, String)>)
        ensures
            r == &self.path_params,
    {
        &self.path_params
    }

    /// The path parameters.
    pub fn path_params(&self) -> (r: &Vec<(String, String)>)
        ensures
            r == &self.path_params,
    {
        &self.path_params
    }

    /// The body as read so far: empty where it has not been read.
    pub fn body(&self) -> (r: &[u8])
        ensures
            self.body matches Some(b) ==> r@ == b@,
            self.body is None ==> r@.len() == 0,
    {
        match &self.body {
            Some(b) => b.as_slice(),
            None => &[],
        }
    }

    /// Stores the body once it has been read.
    pub fn set_body(&mut self, bytes: Vec<u8>)
        ensures
            *final(self) == (Req { body: Some(bytes), ..*old(self) }),
    {
        self.body = Some(bytes);
    }

    /// A copy of the body, or an error where it has not been read.
    pub fn body_bytes(&self) -> (r: Result<Vec<u8>, Error>)
        ensures
            self.body matches Some(b) ==> (r matches Ok(c) && c@ == b@),
            self.body is None ==> (r matches Err(e) && e@ == ErrorView::Custom(
                "Body already consumed or not available"@,
            )),
    {
        match &self.body {
            Some(b) => Ok(crate::table::copy_bytes(b)),
            None => Err(Error::custom("Body already consumed or not available")),
        }
    }

    /// The content type, if the request has one.
    pub fn content_type(&self) -> (r: Option<&String>)
        ensures
            r matches Some(v) ==> header_lookup(headers_view(self.headers@), "content-type"@) == Some(v@),
            r is None ==> header_lookup(headers_view(self.headers@), "content-type"@) is None,
    {
        find_header(&self.headers, "content-type")
    }

    /// Whether the content type names JSON.
    pub fn is_json(&self) -> (r: bool)
        ensures
            r == (header_lookup(headers_view(self.headers@), "content-type"@) matches Some(v)
                && contains_text(v, "application/json"@)),
    {
        match self.content_type() {
            Some(ct) => {
                let hay = chars_of(ct.as_str());
                let needle = chars_of("application/json");
                contains_chars(&hay, &needle)
            },
            None => false,
        }
    }

    /// The extensions.
    pub fn extensions(&self) -> (r: &Extensions)
        ensures
            r == &self.extensions,
    {
        &self.extensions
    }

    /// The extensions, to change in place.
    pub fn extensions_mut(&mut self) -> (r: &mut Extensions)
        ensures
            *r == old(self).extensions,
            *final(self) == (Req { extensions: *final(r), ..*old(self) }),
    {
        &mut self.extensions
    }
}

} // verus!
