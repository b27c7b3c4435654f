//! The request and response of the host's HTTP pass-through, and the choice
//! of method.
use vstd::prelude::*;
use std::collections::HashMap;
use crate::text::{concat_str, same_text};

verus! {

/// A request forwarded on behalf of the front end.
pub struct HttpRequest {
    pub url: String,
    pub method: String,
    pub headers: HashMap<String, String>,
    pub body: Option<String>,
}

/// The response handed back to the front end.
pub struct HttpResponse {
    pub status: u16,
    pub headers: HashMap<String, String>,
    pub body: String,
}

/// The methods the pass-through forwards.
#[derive(Clone, Copy, Debug, PartialEq, Eq, Structural)]
pub enum HttpMethod {
    Get,
    Post,
    Put,
    Delete,
}

/// `s` in upper case, as `str::to_uppercase` computes it.
pub uninterp spec fn upper_of(s: Seq<char>) -> Seq<char>;

/// Relies on `str::to_uppercase`: the result depends on the characters of `s` alone.
#[verifier::external_body]
fn to_upper(s: &str) -> (r: String)
    ensures
        r@ == upper_of(s@),
{
    s.to_uppercase()
}

/// The method named by `method`, compared in upper case.
pub open spec fn method_of(method: Seq<char>) -> Result<HttpMethod, Seq<char>> {
    let u = upper_of(method);
    if u == "GET"@ {
        Ok(HttpMethod::Get)
    } else if u == "POST"@ {
        Ok(HttpMethod::Post)
    } else if u == "PUT"@ {
        Ok(HttpMethod::Put)
    } else if u == "DELETE"@ {
        Ok(HttpMethod::Delete)
    } else {
        Err("Unsupported HTTP method: "@ + method)
    }
}

/// Chooses the method of a forwarded request; unknown methods are refused.
pub fn http_method(method: &str) -> (r: Result<HttpMethod, String>)
    ensures
        match r {
            Ok(m) => method_of(method@) == Ok::<HttpMethod, Seq<char>>(m),
            Err(e) => method_of(method@) == Err::<HttpMethod, Seq<char>>(e@),
        },
{
    let u = to_upper(method);
    if same_text(u.as_str(), "GET") {
        Ok(HttpMethod::Get)
    } else if same_text(u.as_str(), "POST") {
        Ok(HttpMethod::Post)
    } else if same_text(u.as_str(), "PUT") {
        Ok(HttpMethod::Put)
    } else if same_text(u.as_str(), "DELETE") {
        Ok(HttpMethod::Delete)
    } else {
        Err(concat_str("Unsupported HTTP method: ", method))
    }
}

} // verus!
