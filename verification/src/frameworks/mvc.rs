//! The HTTP server with a thread for each connection that a program sets up and starts.
//!
//! The server and its protocol come into being when somebody first asks for them. `P` is what
//! reaches a protocol.
use rustls::ServerConfig;
use vstd::prelude::*;
use crate::applications::web::http::Method;
use crate::applications::web::protocol::{bare, routed, Http};
use crate::blocking::runtime::{copied, idle, Plan, planned, Port, Server};

verus! {

/// Whether `server` is the one that is there, which listens to nothing at first.
pub open spec fn present<P>(place: Option<Server<P>>, server: Server<P>) -> bool {
    match place {
        Some(there) => server == there,
        None => idle(server),
    }
}

/// Whether `http` is the protocol that is there, which is bare at first.
pub open spec fn protocol_present<A>(place: Option<Http<A>>, http: Http<A>) -> bool {
    match place {
        Some(there) => http == there,
        None => bare(http),
    }
}

/// Takes the server out of its place to work on it.
fn get_server<P>(place: &mut Option<Server<P>>) -> (server: Server<P>)
    ensures
        present(*old(place), server),
        *final(place) is None,
{
    match place.take() {
        Some(server) => server,
        None => Server::new(Vec::new()),
    }
}

/// Takes the protocol out of its place to work on it.
fn get_protocol<A>(place: &mut Option<Http<A>>) -> (http: Http<A>)
    ensures
        protocol_present(*old(place), http),
        *final(place) is None,
{
    match place.take() {
        Some(http) => http,
        None => Http::new(),
    }
}

/// Sets how many threads serve connections.
pub fn set_max_threads<P>(place: &mut Option<Server<P>>, max_threads: u16)
    ensures
        *final(place) is Some,
        exists|before: Server<P>| #[trigger]
            present(*old(place), before) && final(place)->Some_0 == (Server {
                max_threads,
                ..before
            }),
{
    let mut server = get_server(place);
    let ghost before = server;
    server.set_max_threads(max_threads);
    *place = Some(server);
    assert(present(*old(place), before));
}

/// Serves a port by the protocol, which has to be there.
pub fn bind_port<P>(place: &mut Option<Server<P>>, protocol: Option<P>, port_num: u16)
    requires
        protocol is Some,
    ensures
        *final(place) is Some,
        exists|before: Server<P>| #[trigger]
            present(*old(place), before) && final(place)->Some_0.ports@ == before.ports@.push(
                Port { port_num, protocol: protocol->Some_0 },
            ) && final(place)->Some_0 == (Server { ports: final(place)->Some_0.ports, ..before }),
{
    let mut server = get_server(place);
    let ghost before = server;
    match protocol {
        Some(protocol) => {
            server.bind_port(Port::new(port_num, protocol));
        },
        None => {},
    }
    *place = Some(server);
    assert(present(*old(place), before));
}

/// Sets the TLS settings.
pub fn set_tls_config<P>(place: &mut Option<Server<P>>, tls_config: ServerConfig)
    ensures
        *final(place) is Some,
        exists|before: Server<P>| #[trigger]
            present(*old(place), before) && final(place)->Some_0.tls_config is Some
                && *final(place)->Some_0.tls_config->Some_0 == tls_config && final(place)->Some_0
                == (Server { tls_config: final(place)->Some_0.tls_config, ..before }),
{
    let mut server = get_server(place);
    let ghost before = server;
    server.set_tls_config(tls_config);
    *place = Some(server);
    assert(present(*old(place), before));
}

/// Sets the handler for a method and a path.
pub fn handle_request<A>(place: &mut Option<Http<A>>, method: Method, path: &str, action: A)
    ensures
        *final(place) is Some,
        exists|before: Http<A>| #[trigger]
            protocol_present(*old(place), before) && routed(
                before,
                final(place)->Some_0,
                method,
                path@,
                action,
            ),
{
    let mut http = get_protocol(place);
    let ghost before = http;
    http.handle(method, path, action);
    *place = Some(http);
    assert(protocol_present(*old(place), before));
}

/// A copy of the server.
pub fn clone<P: Clone>(place: &mut Option<Server<P>>) -> (server: Server<P>)
    ensures
        *final(place) is Some,
        present(*old(place), final(place)->Some_0),
        copied(final(place)->Some_0, server),
{
    let there = get_server(place);
    let server = there.clone();
    *place = Some(there);
    server
}

/// What to do to run the server.
pub fn start<P: Clone>(place: &mut Option<Server<P>>) -> (plan: Plan<P>)
    ensures
        *final(place) is Some,
        present(*old(place), final(place)->Some_0),
        exists|server: Server<P>| #[trigger]
            copied(final(place)->Some_0, server) && planned(server, plan),
{
    let server = self::clone(place);
    let ghost copy = server;
    let plan = server.start();
    assert(copied(place->Some_0, copy));
    plan
}

/// The server and the protocol that somebody asks for are the ones that are there; where nobody has
/// asked before, the server has no ports, no threads and no TLS settings, and the protocol has no
/// handlers.
pub proof fn law_what_is_there_is_kept<P, A>(
    there: Server<P>,
    server: Server<P>,
    kept: Http<A>,
    http: Http<A>,
)
    ensures
        present(Some(there), server) <==> server == there,
        present(None, server) ==> server.ports@.len() == 0 && server.max_threads == 0
            && server.tls_config is None,
        protocol_present(Some(kept), http) <==> http == kept,
        protocol_present(None, http) ==> http.handlers@.dom() =~= Set::<
            (Method, Seq<char>),
        >::empty() && http.config is None,
{
}

} // verus!
