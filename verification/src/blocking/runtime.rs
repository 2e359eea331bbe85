//! What the server listens to.
use std::sync::Arc;
use rustls::ServerConfig;
use vstd::prelude::*;
use crate::number::{
    decimal, decimal_text, is_digit, law_number_round_trip, lemma_decimal_denotes, number_of,
};
use crate::tls::share_config;

verus! {

/// How many seconds a connection waits for its peer.
pub const READ_TIMEOUT: u64 = 3;

/// A port and what reaches the protocol that serves it.
pub struct Port<P> {
    pub port_num: u16,
    pub protocol: P,
}

impl<P> Port<P> {
    /// A port with its protocol.
    pub fn new(port_num: u16, protocol: P) -> (port: Self)
        ensures
            port == (Port { port_num, protocol }),
    {
        Self { port_num, protocol }
    }

    /// Where to listen: the port, on every address of the machine.
    pub fn address(&self) -> (address: String)
        ensures
            address@ == listen_address(self.port_num),
    {
        let mut address = "0.0.0.0:".to_owned();
        let number = decimal_text(self.port_num as u64);
        address.append(number.as_str());
        address
    }
}

/// The port on every address of the machine.
pub open spec fn listen_address(port_num: u16) -> Seq<char> {
    "0.0.0.0:"@ + decimal(port_num as nat)
}

impl<P: Clone> Clone for Port<P> {
    fn clone(&self) -> (port: Self)
        ensures
            port.port_num == self.port_num,
            cloned(self.protocol, port.protocol),
    {
        Self { port_num: self.port_num, protocol: self.protocol.clone() }
    }
}

/// A server: its ports, how many threads serve connections, and TLS settings.
pub struct Server<P> {
    pub ports: Vec<Port<P>>,
    pub max_threads: u16,
    pub tls_config: Option<Arc<ServerConfig>>,
}

/// A port to listen to: where, who serves it, and the TLS settings to serve it with.
pub struct Listener<P> {
    pub address: String,
    pub port: Port<P>,
    pub config: Option<Arc<ServerConfig>>,
}

/// What to do to run a server: how many workers to start, and what to listen to.
pub struct Plan<P> {
    pub workers: u16,
    pub listeners: Vec<Listener<P>>,
}

/// Whether a server listens to nothing and has no settings.
pub open spec fn idle<P>(server: Server<P>) -> bool {
    server.ports@ == Seq::<Port<P>>::empty() && server.max_threads == 0 && server.tls_config is None
}

/// Whether `copy` has the ports and the settings of `server`, with copies of what reaches the
/// protocols.
pub open spec fn copied<P: Clone>(server: Server<P>, copy: Server<P>) -> bool {
    &&& copy.ports@.len() == server.ports@.len()
    &&& forall|i: int|
        0 <= i < server.ports@.len() ==> {
            &&& #[trigger] copy.ports@[i].port_num == server.ports@[i].port_num
            &&& cloned(server.ports@[i].protocol, copy.ports@[i].protocol)
        }
    &&& copy.max_threads == server.max_threads
    &&& copy.tls_config == server.tls_config
}

/// Whether `listener` is for `port`, with these TLS settings.
pub open spec fn listens<P>(
    listener: Listener<P>,
    port: Port<P>,
    config: Option<Arc<ServerConfig>>,
) -> bool {
    &&& listener.address@ == listen_address(port.port_num)
    &&& listener.port == port
    &&& listener.config == config
}

/// Whether `plan` runs `server`: as many workers as it has threads, and a listener for each
/// of its ports, in order.
pub open spec fn planned<P>(server: Server<P>, plan: Plan<P>) -> bool {
    &&& plan.workers == server.max_threads
    &&& plan.listeners@.len() == server.ports@.len()
    &&& forall|i: int|
        0 <= i < server.ports@.len() ==> listens(
            #[trigger] plan.listeners@[i],
            server.ports@[i],
            server.tls_config,
        )
}

/// Copies TLS settings by sharing them.
fn share_settings(config: &Option<Arc<ServerConfig>>) -> (shared: Option<Arc<ServerConfig>>)
    ensures
        shared == *config,
{
    match config {
        Some(config) => Some(share_config(config)),
        None => None,
    }
}

impl<P: Clone> Clone for Server<P> {
    fn clone(&self) -> (copy: Self)
        ensures
            copied(*self, copy),
    {
        Self {
            ports: self.ports.clone(),
            max_threads: self.max_threads,
            tls_config: share_settings(&self.tls_config),
        }
    }
}

impl<P> Server<P> {
    /// A server for these ports, without threads and in the clear.
    pub fn new(ports: Vec<Port<P>>) -> (server: Self)
        ensures
            server == (Server { ports, max_threads: 0, tls_config: None }),
    {
        Self { ports, max_threads: 0, tls_config: None }
    }

    /// Adds a port.
    pub fn bind_port(&mut self, port: Port<P>) -> (this: &mut Self)
        ensures
            this.ports@ == old(self).ports@.push(port),
            this.max_threads == old(self).max_threads,
            this.tls_config == old(self).tls_config,
            *final(self) == *final(this),
    {
        self.ports.push(port);
        self
    }

    /// Sets how many threads serve connections.
    pub fn set_max_threads(&mut self, max_threads: u16) -> (this: &mut Self)
        ensures
            *this == (Server { max_threads, ..*old(self) }),
            *final(self) == *final(this),
    {
        self.max_threads = max_threads;
        self
    }

    /// Sets the TLS settings.
    pub fn set_tls_config(&mut self, tls_config: ServerConfig) -> (this: &mut Self)
        ensures
            this.ports == old(self).ports,
            this.max_threads == old(self).max_threads,
            this.tls_config matches Some(config) && *config == tls_config,
            *final(self) == *final(this),
    {
        self.tls_config = Some(Arc::new(tls_config));
        self
    }

    /// What to do to run the server.
    pub fn start(self) -> (plan: Plan<P>)
        ensures
            planned(self, plan),
    {
        let workers: u16 = self.max_threads;
        let config = self.tls_config;
        let ghost ports = self.ports@;
        let mut listeners: Vec<Listener<P>> = Vec::new();
        for port in list: self.ports
            invariant
                list.seq() == ports,
                listeners@.len() == list.index(),
                forall|i: int|
                    0 <= i < listeners@.len() ==> listens(
                        #[trigger] listeners@[i],
                        ports[i],
                        config,
                    ),
        {
            let address = port.address();
            listeners.push(Listener { address, port, config: share_settings(&config) });
        }
        Plan { workers, listeners }
    }
}

/// A server is run with as many workers as it has threads and with a listener for each of its
/// ports, in order: at the port on every address of the machine, whose number is read back from
/// what stands behind the colon, with its protocol and with the TLS settings of the server.
pub proof fn law_plan_serves_every_port<P>(server: Server<P>, plan: Plan<P>, i: int) -> (digits: Seq<
    char,
>)
    requires
        planned(server, plan),
        0 <= i < server.ports@.len(),
    ensures
        plan.workers == server.max_threads,
        plan.listeners@.len() == server.ports@.len(),
        ({
            let listener = plan.listeners@[i];
            let port = server.ports@[i];
            &&& listener.address@ == "0.0.0.0:"@ + digits
            &&& number_of(digits) == Some(port.port_num as usize)
            &&& listener.port.port_num == port.port_num
            &&& listener.port.protocol == port.protocol
            &&& listener.config == server.tls_config
        }),
        forall|k: int| 0 <= k < digits.len() ==> '0' <= #[trigger] digits[k] <= '9',
        digits.len() > 0,
{
    let number = server.ports@[i].port_num;
    let digits = decimal(number as nat);
    assert(listens(plan.listeners@[i], server.ports@[i], server.tls_config));
    law_number_round_trip(number as usize);
    lemma_decimal_denotes(number as nat);
    assert forall|k: int| 0 <= k < digits.len() implies '0' <= #[trigger] digits[k] <= '9' by {
        assert(is_digit(digits[k]));
    }
    digits
}

/// A copy of a server is run as the server itself is: with as many workers, at the same ports, and
/// with the same TLS settings.
pub proof fn law_copies_are_run_alike<P: Clone>(
    server: Server<P>,
    copy: Server<P>,
    plan: Plan<P>,
    i: int,
)
    requires
        copied(server, copy),
        planned(copy, plan),
        0 <= i < server.ports@.len(),
    ensures
        plan.workers == server.max_threads,
        plan.listeners@.len() == server.ports@.len(),
        plan.listeners@[i].port.port_num == server.ports@[i].port_num,
        plan.listeners@[i].config == server.tls_config,
        cloned(server.ports@[i].protocol, plan.listeners@[i].port.protocol),
{
    assert(copy.ports@[i].port_num == server.ports@[i].port_num);
    assert(listens(plan.listeners@[i], copy.ports@[i], copy.tls_config));
}

/// A server that nobody has set up yet listens to nothing, has no threads and runs in the clear.
pub proof fn law_idle_server_serves_nothing<P>(server: Server<P>, plan: Plan<P>)
    requires
        idle(server),
        planned(server, plan),
    ensures
        plan.workers == 0,
        plan.listeners@.len() == 0,
        server.tls_config is None,
{
}

} // verus!
