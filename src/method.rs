//! HTTP request methods.
use vstd::prelude::*;

verus! {

/// An HTTP request method.
#[derive(Clone, Copy, PartialEq, Eq, Structural, Debug)]
pub enum Method {
    Get,
    Post,
    Put,
    Delete,
    Patch,
    Head,
    Options,
    Connect,
    Trace,
}

/// The name of a method as it stands on the wire.
pub open spec fn method_name(m: Method) -> Seq<char> {
    match m {
        Method::Get => seq!['G', 'E', 'T'],
        Method::Post => seq!['P', 'O', 'S', 'T'],
        Method::Put => seq!['P', 'U', 'T'],
        Method::Delete => seq!['D', 'E', 'L', 'E', 'T', 'E'],
        Method::Patch => seq!['P', 'A', 'T', 'C', 'H'],
        Method::Head => seq!['H', 'E', 'A', 'D'],
        Method::Options => seq!['O', 'P', 'T', 'I', 'O', 'N', 'S'],
        Method::Connect => seq!['C', 'O', 'N', 'N', 'E', 'C', 'T'],
        Method::Trace => seq!['T', 'R', 'A', 'C', 'E'],
    }
}

impl Method {
    /// The characters of the method's name.
    pub fn name_chars(&self) -> (r: Vec<char>)
        ensures
            r@ == method_name(*self),
    {
        let r = match self {
            Method::Get => vec!['G', 'E', 'T'],
            Method::Post => vec!['P', 'O', 'S', 'T'],
            Method::Put => vec!['P', 'U', 'T'],
            Method::Delete => vec!['D', 'E', 'L', 'E', 'T', 'E'],
            Method::Patch => vec!['P', 'A', 'T', 'C', 'H'],
            Method::Head => vec!['H', 'E', 'A', 'D'],
            Method::Options => vec!['O', 'P', 'T', 'I', 'O', 'N', 'S'],
            Method::Connect => vec!['C', 'O', 'N', 'N', 'E', 'C', 'T'],
            Method::Trace => vec!['T', 'R', 'A', 'C', 'E'],
        };
        assert(r@ =~= method_name(*self));
        r
    }

    /// The method's name as a string.
    pub fn as_string(&self) -> (r: String)
        ensures
            r@ == method_name(*self),
    {
        crate::text::string_of(&self.name_chars())
    }

    /// The method named `name`, if it is one of the standard methods.
    pub fn from_name(name: &str) -> (r: Option<Method>)
        ensures
            r matches Some(m) ==> method_name(m) == name@,
            r is None ==> forall|m: Method| method_name(m) != name@,
    {
        let chars = crate::text::chars_of(name);
        let all = vec![
            Method::Get,
            Method::Post,
            Method::Put,
            Method::Delete,
            Method::Patch,
            Method::Head,
            Method::Options,
            Method::Connect,
            Method::Trace,
        ];
        let mut i: usize = 0;
        while i < all.len()
            invariant
                i <= all@.len(),
                chars@ == name@,
                all@ == seq![
                    Method::Get,
                    Method::Post,
                    Method::Put,
                    Method::Delete,
                    Method::Patch,
                    Method::Head,
                    Method::Options,
                    Method::Connect,
                    Method::Trace,
                ],
                forall|j: int| 0 <= j < i ==> method_name(#[trigger] all@[j]) != name@,
            decreases all@.len() - i,
        {
            let m = all[i];
            if crate::text::same_chars(&m.name_chars(), &chars) {
                return Some(m);
            }
            i = i + 1;
        }
        assert forall|m: Method| method_name(m) != name@ by {
            match m {
                Method::Get => assert(method_name(all@[0])  != name@),
                Method::Post => assert(method_name(all@[1])  != name@),
                Method::Put => assert(method_name(all@[2])  != name@),
                Method::Delete => assert(method_name(all@[3])  != name@),
                Method::Patch => assert(method_name(all@[4])  != name@),
                Method::Head => assert(method_name(all@[5])  != name@),
                Method::Options => assert(method_name(all@[6])  != name@),
                Method::Connect => assert(method_name(all@[7])  != name@),
                Method::Trace => assert(method_name(all@[8])  != name@),
            }
        }
        None
    }
}

} // verus!
