//! Cross-origin policy: the headers that every response carries on its way out.

use crate::http::{
    count, inserted, lemma_inserted_found, lemma_inserted_others, lookup, Method, Response,
    ResponseView, State,
};
use crate::text::{decimal_nat, join, lemma_join_step, unsigned_to_decimal};
use vstd::prelude::*;

verus! {

pub const ACCESS_CONTROL_ALLOW_CREDENTIALS: &'static str = "access-control-allow-credentials";

pub const ACCESS_CONTROL_ALLOW_HEADERS: &'static str = "access-control-allow-headers";

pub const ACCESS_CONTROL_ALLOW_ORIGIN: &'static str = "access-control-allow-origin";

pub const ACCESS_CONTROL_ALLOW_METHODS: &'static str = "access-control-allow-methods";

pub const ACCESS_CONTROL_MAX_AGE: &'static str = "access-control-max-age";

/// The policy: the methods that are allowed, the origin that is allowed if it is
/// a fixed one, and for how many seconds a client may keep the answer.
#[derive(Clone, Debug, PartialEq)]
pub struct CORSMiddleware {
    pub methods: Vec<Method>,
    pub origin: Option<String>,
    pub max_age: u32,
}

pub struct CorsView {
    pub methods: Seq<Method>,
    pub origin: Option<Seq<char>>,
    pub max_age: u32,
}

impl View for CORSMiddleware {
    type V = CorsView;

    open spec fn view(&self) -> CorsView {
        CorsView {
            methods: self.methods@,
            origin: match self.origin {
                Some(o) => Some(o@),
                None => None,
            },
            max_age: self.max_age,
        }
    }
}

/// The methods of the policy that holds where none is configured.
pub open spec fn default_methods() -> Seq<Method> {
    seq![
        Method::Delete,
        Method::Get,
        Method::Head,
        Method::Options,
        Method::Patch,
        Method::Post,
        Method::Put,
    ]
}

/// The origin that a response allows: the fixed one where the policy has one,
/// else the request's own, else any.
pub open spec fn resolved_origin(fixed: Option<Seq<char>>, asked: Option<Seq<char>>) -> Seq<
    char,
> {
    match fixed {
        Some(o) => o,
        None => match asked {
            Some(o) => o,
            None => "*"@,
        },
    }
}

/// The methods as they stand in the header: their names, a comma and a space
/// between each two.
pub open spec fn allowed_methods(methods: Seq<Method>) -> Seq<char> {
    join(Seq::new(methods.len(), |i: int| methods[i].text()), ", "@)
}

/// The headers of a response after the policy has been applied to them.
pub open spec fn cors_headers(
    policy: CorsView,
    asked: Option<Seq<char>>,
    headers: Seq<(Seq<char>, Seq<char>)>,
) -> Seq<(Seq<char>, Seq<char>)> {
    let h1 = inserted(headers, ACCESS_CONTROL_ALLOW_CREDENTIALS@, "true"@);
    let h2 = inserted(h1, ACCESS_CONTROL_ALLOW_HEADERS@, "Authorization, Content-Type"@);
    let h3 = inserted(h2, ACCESS_CONTROL_ALLOW_ORIGIN@, resolved_origin(policy.origin, asked));
    let h4 = inserted(h3, ACCESS_CONTROL_ALLOW_METHODS@, allowed_methods(policy.methods));
    inserted(h4, ACCESS_CONTROL_MAX_AGE@, decimal_nat(policy.max_age as nat))
}

/// The headers carry the policy: each of its five headers once, with the value
/// that the policy gives it for a request that names the origin `asked`.
pub open spec fn carries(
    policy: CorsView,
    asked: Option<Seq<char>>,
    headers: Seq<(Seq<char>, Seq<char>)>,
) -> bool {
    &&& lookup(headers, ACCESS_CONTROL_ALLOW_CREDENTIALS@) == Some("true"@)
    &&& lookup(headers, ACCESS_CONTROL_ALLOW_HEADERS@) == Some("Authorization, Content-Type"@)
    &&& lookup(headers, ACCESS_CONTROL_ALLOW_ORIGIN@) == Some(
        resolved_origin(policy.origin, asked),
    )
    &&& lookup(headers, ACCESS_CONTROL_ALLOW_METHODS@) == Some(allowed_methods(policy.methods))
    &&& lookup(headers, ACCESS_CONTROL_MAX_AGE@) == Some(decimal_nat(policy.max_age as nat))
    &&& count(headers, ACCESS_CONTROL_ALLOW_CREDENTIALS@) == 1
    &&& count(headers, ACCESS_CONTROL_ALLOW_HEADERS@) == 1
    &&& count(headers, ACCESS_CONTROL_ALLOW_ORIGIN@) == 1
    &&& count(headers, ACCESS_CONTROL_ALLOW_METHODS@) == 1
    &&& count(headers, ACCESS_CONTROL_MAX_AGE@) == 1
}

impl CORSMiddleware {
    /// A policy with the given methods, origin and maximal age. Without an
    /// origin, each response allows the origin of its request.
    pub fn new(methods: Vec<Method>, origin: Option<String>, max_age: u32) -> (res:
        CORSMiddleware)
        ensures
            res.methods == methods,
            res.origin == origin,
            res.max_age == max_age,
    {
        CORSMiddleware { methods, origin, max_age }
    }

    /// The policy that holds where none is configured: seven methods, no fixed
    /// origin, one day.
    pub fn default() -> (res: CORSMiddleware)
        ensures
            res@ == (CorsView { methods: default_methods(), origin: None, max_age: 86400 }),
    {
        let mut methods: Vec<Method> = Vec::new();
        methods.push(Method::Delete);
        methods.push(Method::Get);
        methods.push(Method::Head);
        methods.push(Method::Options);
        methods.push(Method::Patch);
        methods.push(Method::Post);
        methods.push(Method::Put);
        proof {
            assert(methods@ =~= default_methods());
        }
        let origin: Option<String> = None;
        let max_age: u32 = 86400;
        CORSMiddleware::new(methods, origin, max_age)
    }

    /// The text of the header that lists the allowed methods.
    pub fn method_list(&self) -> (res: String)
        ensures
            res@ == allowed_methods(self@.methods),
    {
        let ghost parts = Seq::new(self.methods@.len(), |i: int| self.methods@[i].text());
        let mut out = String::new();
        let mut i: usize = 0;
        while i < self.methods.len()
            invariant
                i <= self.methods.len(),
                parts == Seq::new(self.methods@.len(), |i: int| self.methods@[i].text()),
                out@ == join(parts.take(i as int), ", "@),
            decreases self.methods.len() - i,
        {
            if i > 0 {
                out.append(", ");
            }
            out.append(self.methods[i].as_str());
            proof {
                lemma_join_step(parts, ", "@, i as int);
                assert(out@ =~= join(parts.take(i + 1), ", "@));
            }
            i += 1;
        }
        proof {
            assert(parts.take(i as int) =~= parts);
        }
        out
    }

    /// The response on its way out: the five headers of the policy are inserted,
    /// each in place of what the response had under that name. Status, media
    /// type and body stay, whatever the status is.
    pub fn call(&self, state: &State, response: Response) -> (res: Response)
        ensures
            res@ == (ResponseView {
                headers: cors_headers(self@, state@.origin, response@.headers),
                ..response@
            }),
            carries(self@, state@.origin, res@.headers),
    {
        proof {
            lemma_headers_present(self@, state@.origin, response@.headers);
        }
        let origin = match &self.origin {
            Some(o) => o.clone(),
            None => match &state.origin {
                Some(o) => o.clone(),
                None => String::from_str("*"),
            },
        };
        let mut response = response;
        response.insert_header(ACCESS_CONTROL_ALLOW_CREDENTIALS, String::from_str("true"));
        response.insert_header(
            ACCESS_CONTROL_ALLOW_HEADERS,
            String::from_str("Authorization, Content-Type"),
        );
        response.insert_header(ACCESS_CONTROL_ALLOW_ORIGIN, origin);
        response.insert_header(ACCESS_CONTROL_ALLOW_METHODS, self.method_list());
        response.insert_header(ACCESS_CONTROL_MAX_AGE, unsigned_to_decimal(self.max_age as u64));
        response
    }
}

/// The names of the five headers differ from one another.
pub proof fn lemma_names_differ()
    ensures
        ACCESS_CONTROL_ALLOW_CREDENTIALS@ != ACCESS_CONTROL_ALLOW_HEADERS@,
        ACCESS_CONTROL_ALLOW_CREDENTIALS@ != ACCESS_CONTROL_ALLOW_ORIGIN@,
        ACCESS_CONTROL_ALLOW_CREDENTIALS@ != ACCESS_CONTROL_ALLOW_METHODS@,
        ACCESS_CONTROL_ALLOW_CREDENTIALS@ != ACCESS_CONTROL_MAX_AGE@,
        ACCESS_CONTROL_ALLOW_HEADERS@ != ACCESS_CONTROL_ALLOW_ORIGIN@,
        ACCESS_CONTROL_ALLOW_HEADERS@ != ACCESS_CONTROL_ALLOW_METHODS@,
        ACCESS_CONTROL_ALLOW_HEADERS@ != ACCESS_CONTROL_MAX_AGE@,
        ACCESS_CONTROL_ALLOW_ORIGIN@ != ACCESS_CONTROL_ALLOW_METHODS@,
        ACCESS_CONTROL_ALLOW_ORIGIN@ != ACCESS_CONTROL_MAX_AGE@,
        ACCESS_CONTROL_ALLOW_METHODS@ != ACCESS_CONTROL_MAX_AGE@,
{
    reveal_strlit("access-control-allow-credentials");
    reveal_strlit("access-control-allow-headers");
    reveal_strlit("access-control-allow-origin");
    reveal_strlit("access-control-allow-methods");
    reveal_strlit("access-control-max-age");
    assert(ACCESS_CONTROL_ALLOW_CREDENTIALS@.len() == 32);
    assert(ACCESS_CONTROL_ALLOW_HEADERS@.len() == 28);
    assert(ACCESS_CONTROL_ALLOW_ORIGIN@.len() == 27);
    assert(ACCESS_CONTROL_ALLOW_METHODS@.len() == 28);
    assert(ACCESS_CONTROL_MAX_AGE@.len() == 22);
    assert(ACCESS_CONTROL_ALLOW_HEADERS@[21] != ACCESS_CONTROL_ALLOW_METHODS@[21]);
}

/// Every response that has passed the policy carries each of the five headers
/// exactly once, with the value that the policy gives it; where neither the
/// policy nor the request names an origin, the allowed origin is `*`.
pub proof fn lemma_headers_present(
    policy: CorsView,
    asked: Option<Seq<char>>,
    headers: Seq<(Seq<char>, Seq<char>)>,
)
    ensures
        carries(policy, asked, cors_headers(policy, asked, headers)),
        policy.origin is None && asked is None ==> lookup(
            cors_headers(policy, asked, headers),
            ACCESS_CONTROL_ALLOW_ORIGIN@,
        ) == Some("*"@),
{
    lemma_names_differ();
    let n1 = ACCESS_CONTROL_ALLOW_CREDENTIALS@;
    let n2 = ACCESS_CONTROL_ALLOW_HEADERS@;
    let n3 = ACCESS_CONTROL_ALLOW_ORIGIN@;
    let n4 = ACCESS_CONTROL_ALLOW_METHODS@;
    let n5 = ACCESS_CONTROL_MAX_AGE@;
    let v1 = "true"@;
    let v2 = "Authorization, Content-Type"@;
    let v3 = resolved_origin(policy.origin, asked);
    let v4 = allowed_methods(policy.methods);
    let v5 = decimal_nat(policy.max_age as nat);
    let h1 = inserted(headers, n1, v1);
    let h2 = inserted(h1, n2, v2);
    let h3 = inserted(h2, n3, v3);
    let h4 = inserted(h3, n4, v4);
    lemma_inserted_found(headers, n1, v1);
    lemma_inserted_others(h1, n2, v2, n1);
    lemma_inserted_others(h2, n3, v3, n1);
    lemma_inserted_others(h3, n4, v4, n1);
    lemma_inserted_others(h4, n5, v5, n1);
    lemma_inserted_found(h1, n2, v2);
    lemma_inserted_others(h2, n3, v3, n2);
    lemma_inserted_others(h3, n4, v4, n2);
    lemma_inserted_others(h4, n5, v5, n2);
    lemma_inserted_found(h2, n3, v3);
    lemma_inserted_others(h3, n4, v4, n3);
    lemma_inserted_others(h4, n5, v5, n3);
    lemma_inserted_found(h3, n4, v4);
    lemma_inserted_others(h4, n5, v5, n4);
    lemma_inserted_found(h4, n5, v5);
}

/// A fixed origin is the allowed origin of every response, whatever origin the
/// request names.
pub proof fn lemma_fixed_origin(
    policy: CorsView,
    asked: Option<Seq<char>>,
    headers: Seq<(Seq<char>, Seq<char>)>,
)
    requires
        policy.origin is Some,
    ensures
        lookup(cors_headers(policy, asked, headers), ACCESS_CONTROL_ALLOW_ORIGIN@)
            == policy.origin,
{
    lemma_headers_present(policy, asked, headers);
}

/// The policy leaves every header of another name as it was.
pub proof fn lemma_other_headers_kept(
    policy: CorsView,
    asked: Option<Seq<char>>,
    headers: Seq<(Seq<char>, Seq<char>)>,
    name: Seq<char>,
)
    requires
        name != ACCESS_CONTROL_ALLOW_CREDENTIALS@,
        name != ACCESS_CONTROL_ALLOW_HEADERS@,
        name != ACCESS_CONTROL_ALLOW_ORIGIN@,
        name != ACCESS_CONTROL_ALLOW_METHODS@,
        name != ACCESS_CONTROL_MAX_AGE@,
    ensures
        lookup(cors_headers(policy, asked, headers), name) == lookup(headers, name),
        count(cors_headers(policy, asked, headers), name) == count(headers, name),
{
    let n1 = ACCESS_CONTROL_ALLOW_CREDENTIALS@;
    let n2 = ACCESS_CONTROL_ALLOW_HEADERS@;
    let n3 = ACCESS_CONTROL_ALLOW_ORIGIN@;
    let n4 = ACCESS_CONTROL_ALLOW_METHODS@;
    let n5 = ACCESS_CONTROL_MAX_AGE@;
    let v1 = "true"@;
    let v2 = "Authorization, Content-Type"@;
    let v3 = resolved_origin(policy.origin, asked);
    let v4 = allowed_methods(policy.methods);
    let v5 = decimal_nat(policy.max_age as nat);
    let h1 = inserted(headers, n1, v1);
    let h2 = inserted(h1, n2, v2);
    let h3 = inserted(h2, n3, v3);
    let h4 = inserted(h3, n4, v4);
    lemma_inserted_others(headers, n1, v1, name);
    lemma_inserted_others(h1, n2, v2, name);
    lemma_inserted_others(h2, n3, v3, name);
    lemma_inserted_others(h3, n4, v4, name);
    lemma_inserted_others(h4, n5, v5, name);
}

} // verus!
