//! Requests and responses of the server that gives each connection a thread.
use serde_json::Value;
use vstd::prelude::*;
use crate::applications::message::{Header, Verb};
use crate::table::Key;
use crate::text::same_text;

pub use crate::applications::response::HttpResponse;

verus! {

/// The method of a request.
#[derive(Clone, Copy, Debug, PartialEq, Eq, Hash, Structural)]
pub enum Method {
    GET,
    POST,
    PUT,
    DELETE,
    OPTIONS,
    HEAD,
    PATCH,
    CONNECT,
    TRACE,
}

impl View for Method {
    type V = Method;

    open spec fn view(&self) -> Method {
        *self
    }
}

impl Key for Method {
    fn same(&self, other: &Self) -> (same: bool) {
        *self == *other
    }
}

/// The word in upper case that names a method.
pub open spec fn method_name(method: Method) -> Seq<char> {
    match method {
        Method::GET => "GET"@,
        Method::POST => "POST"@,
        Method::PUT => "PUT"@,
        Method::DELETE => "DELETE"@,
        Method::OPTIONS => "OPTIONS"@,
        Method::HEAD => "HEAD"@,
        Method::PATCH => "PATCH"@,
        Method::CONNECT => "CONNECT"@,
        Method::TRACE => "TRACE"@,
    }
}

/// The method that a word in upper case names.
pub open spec fn method_named(upper: Seq<char>) -> Option<Method> {
    if upper == "GET"@ {
        Some(Method::GET)
    } else if upper == "POST"@ {
        Some(Method::POST)
    } else if upper == "PUT"@ {
        Some(Method::PUT)
    } else if upper == "PATCH"@ {
        Some(Method::PATCH)
    } else if upper == "DELETE"@ {
        Some(Method::DELETE)
    } else if upper == "HEAD"@ {
        Some(Method::HEAD)
    } else if upper == "OPTIONS"@ {
        Some(Method::OPTIONS)
    } else if upper == "TRACE"@ {
        Some(Method::TRACE)
    } else if upper == "CONNECT"@ {
        Some(Method::CONNECT)
    } else {
        None
    }
}

impl Verb for Method {
    open spec fn named_by(upper: Seq<char>) -> Option<Method> {
        method_named(upper)
    }

    fn named(upper: &str) -> (method: Option<Method>) {
        if same_text(upper, "GET") {
            Some(Method::GET)
        } else if same_text(upper, "POST") {
            Some(Method::POST)
        } else if same_text(upper, "PUT") {
            Some(Method::PUT)
        } else if same_text(upper, "PATCH") {
            Some(Method::PATCH)
        } else if same_text(upper, "DELETE") {
            Some(Method::DELETE)
        } else if same_text(upper, "HEAD") {
            Some(Method::HEAD)
        } else if same_text(upper, "OPTIONS") {
            Some(Method::OPTIONS)
        } else if same_text(upper, "TRACE") {
            Some(Method::TRACE)
        } else if same_text(upper, "CONNECT") {
            Some(Method::CONNECT)
        } else {
            None
        }
    }
}

/// A request as its handler gets it; `peer` tells where it comes from.
pub struct HttpRequest<P> {
    pub method: Method,
    pub endpoint: String,
    pub header: Header,
    pub query_params: Value,
    pub body_params: Value,
    pub peer: P,
}

impl<P> HttpRequest<P> {
    /// A request.
    pub fn new(
        method: Method,
        endpoint: String,
        header: Header,
        query_params: Value,
        body_params: Value,
        peer: P,
    ) -> (request: Self)
        ensures
            request == (HttpRequest {
                method,
                endpoint,
                header,
                query_params,
                body_params,
                peer,
            }),
    {
        Self { method, endpoint, header, query_params, body_params, peer }
    }
}

/// Every method is named by its own word, and by no other.
pub proof fn law_method_names(method: Method, upper: Seq<char>)
    ensures
        method_named(upper) == Some(method) <==> upper == method_name(method),
{
    reveal_strlit("GET");
    reveal_strlit("POST");
    reveal_strlit("PUT");
    reveal_strlit("PATCH");
    reveal_strlit("DELETE");
    reveal_strlit("HEAD");
    reveal_strlit("OPTIONS");
    reveal_strlit("TRACE");
    reveal_strlit("CONNECT");
    assert("GET"@[0] == 'G');
    assert("POST"@[1] == 'O');
    assert("PUT"@[1] == 'U');
    assert("PATCH"@[1] == 'A');
    assert("DELETE"@[0] == 'D');
    assert("HEAD"@[0] == 'H');
    assert("OPTIONS"@[0] == 'O');
    assert("TRACE"@[0] == 'T');
    assert("CONNECT"@[0] == 'C');
    assert("POST"@[0] == 'P' && "PUT"@[0] == 'P' && "PATCH"@[0] == 'P');
}

} // verus!
