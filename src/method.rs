use vstd::prelude::*;

verus! {

/// The verb of an HTTP request.
#[derive(Clone, Copy, Debug, PartialEq, Eq, Structural)]
pub enum HttpMethod {
    GET,
    HEAD,
    PUT,
    POST,
    PATCH,
    DELETE,
}

/// The text that names a method.
pub open spec fn method_name(m: HttpMethod) -> Seq<char> {
    match m {
        HttpMethod::GET => "GET"@,
        HttpMethod::HEAD => "HEAD"@,
        HttpMethod::PUT => "PUT"@,
        HttpMethod::POST => "POST"@,
        HttpMethod::PATCH => "PATCH"@,
        HttpMethod::DELETE => "DELETE"@,
    }
}

impl HttpMethod {
    /// Every method, in declaration order.
    pub open spec fn spec_all() -> Seq<HttpMethod> {
        seq![
            HttpMethod::GET,
            HttpMethod::HEAD,
            HttpMethod::PUT,
            HttpMethod::POST,
            HttpMethod::PATCH,
            HttpMethod::DELETE,
        ]
    }

    /// Every method, in declaration order.
    pub fn all() -> (r: Vec<HttpMethod>)
        ensures
            r@ == Self::spec_all(),
    {
        let mut r: Vec<HttpMethod> = Vec::new();
        r.push(HttpMethod::GET);
        r.push(HttpMethod::HEAD);
        r.push(HttpMethod::PUT);
        r.push(HttpMethod::POST);
        r.push(HttpMethod::PATCH);
        r.push(HttpMethod::DELETE);
        assert(r@ =~= Self::spec_all());
        r
    }

    /// The method's name, as it is shown and stored.
    pub fn name(&self) -> (r: &'static str)
        ensures
            r@ == method_name(*self),
    {
        match self {
            HttpMethod::GET => "GET",
            HttpMethod::HEAD => "HEAD",
            HttpMethod::PUT => "PUT",
            HttpMethod::POST => "POST",
            HttpMethod::PATCH => "PATCH",
            HttpMethod::DELETE => "DELETE",
        }
    }

    /// The method that `text` names, if any.
    pub fn from_name(text: &str) -> (r: Option<HttpMethod>)
        ensures
            r matches Some(m) ==> method_name(m) == text@,
            r is None ==> forall|m: HttpMethod| method_name(m) != text@,
    {
        let t = text.to_owned();
        let all = HttpMethod::all();
        let mut i: usize = 0;
        while i < all.len()
            invariant
                all@ == Self::spec_all(),
                t@ == text@,
                i <= all@.len(),
                forall|k: int| 0 <= k < i ==> method_name(#[trigger] all@[k]) != text@,
            decreases all@.len() - i,
        {
            let m = all[i];
            if t == m.name().to_owned() {
                return Some(m);
            }
            i = i + 1;
        }
        proof {
            assert forall|m: HttpMethod| method_name(m) != text@ by {
                let k: int = match m {
                    HttpMethod::GET => 0,
                    HttpMethod::HEAD => 1,
                    HttpMethod::PUT => 2,
                    HttpMethod::POST => 3,
                    HttpMethod::PATCH => 4,
                    HttpMethod::DELETE => 5,
                };
                assert(all@[k] == m);
            }
        }
        None
    }
}

/// Distinct methods have distinct names, so `from_name` on the name of a
/// method gives back that method.
pub proof fn lemma_method_name_injective(a: HttpMethod, b: HttpMethod)
    ensures
        method_name(a) == method_name(b) ==> a == b,
{
    reveal_strlit("GET");
    reveal_strlit("HEAD");
    reveal_strlit("PUT");
    reveal_strlit("POST");
    reveal_strlit("PATCH");
    reveal_strlit("DELETE");
    if method_name(a) == method_name(b) {
        assert(method_name(a).len() == method_name(b).len());
        assert(method_name(a)[1] == method_name(b)[1]);
        assert(method_name(a)[0] == method_name(b)[0]);
    }
}

} // verus!
