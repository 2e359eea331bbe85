//! The asynchronous HTTP server that a program sets up before it takes it out and runs it.
use vstd::prelude::*;
use crate::applications::async_web::http::Method;
use crate::applications::async_web::protocol::{bare, filtered, routed, Http, Phase};

verus! {

/// Where the server is.
pub enum Registry<A> {
    /// Nobody has asked for it yet.
    Untouched,
    /// It is being set up.
    Held(Http<A>),
    /// It has been taken out.
    Taken,
}

/// Whether `http` is the server that is set up in the registry, which is bare at first.
pub open spec fn held<A>(registry: Registry<A>, http: Http<A>) -> bool {
    match registry {
        Registry::Untouched => bare(http),
        Registry::Held(present) => http == present,
        Registry::Taken => false,
    }
}

/// Takes the server out of the registry to work on it.
fn as_guard<A>(registry: &mut Registry<A>) -> (http: Http<A>)
    requires
        !(*old(registry) is Taken),
    ensures
        held(*old(registry), http),
        *final(registry) is Taken,
{
    let mut place = Registry::Taken;
    std::mem::swap(registry, &mut place);
    match place {
        Registry::Held(http) => http,
        _ => Http::new(),
    }
}

/// Sets the handler for a method and a path.
pub fn route<A>(registry: &mut Registry<A>, method: Method, path: &str, action: A)
    requires
        !(*old(registry) is Taken),
    ensures
        *final(registry) is Held,
        exists|before: Http<A>| #[trigger]
            held(*old(registry), before) && routed(
                before,
                final(registry)->Held_0,
                method,
                path@,
                action,
            ),
{
    let mut http = as_guard(registry);
    let ghost before = http;
    http.set_handler(method, path, action);
    *registry = Registry::Held(http);
    assert(held(*old(registry), before));
}

/// Sets the filter of a phase for everything at or below a pattern.
pub fn filter<A>(registry: &mut Registry<A>, phase: Phase, pattern: &str, action: A)
    requires
        !(*old(registry) is Taken),
    ensures
        *final(registry) is Held,
        exists|before: Http<A>| #[trigger]
            held(*old(registry), before) && filtered(
                before,
                final(registry)->Held_0,
                phase,
                pattern@,
                action,
            ),
{
    let mut http = as_guard(registry);
    let ghost before = http;
    match phase {
        Phase::PreHandle => http.set_pre_handler(pattern, action),
        Phase::PostHandle => http.set_post_handler(pattern, action),
    }
    *registry = Registry::Held(http);
    assert(held(*old(registry), before));
}

/// Takes the server out; after that the registry is of no use.
pub fn extract<A>(registry: &mut Registry<A>) -> (http: Http<A>)
    requires
        *old(registry) is Held,
    ensures
        *old(registry) == Registry::Held(http),
        *final(registry) is Taken,
{
    as_guard(registry)
}

/// The server that is set up is the one that is held; where nobody has asked for it before it has
/// no handlers, no filters and no TLS, and once it has been taken out there is none.
pub proof fn law_held_server_is_kept<A>(kept: Http<A>, http: Http<A>)
    ensures
        held(Registry::Held(kept), http) <==> http == kept,
        !held(Registry::Taken, http),
        held(Registry::Untouched, http) ==> {
            &&& http.handlers@.dom() =~= Set::<(Method, Seq<char>)>::empty()
            &&& http.pre_handlers@.dom() =~= Set::<Seq<char>>::empty()
            &&& http.post_handlers@.dom() =~= Set::<Seq<char>>::empty()
            &&& http.config is None
            &&& !http.use_tls
        },
{
}

} // verus!
