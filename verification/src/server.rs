//! The asynchronous server: what it listens to and who serves a connection.
use std::collections::HashMap;
use std::sync::Arc;
use std::time::Duration;
use rustls::ServerConfig;
use vstd::prelude::*;
use crate::runtime::{ThreadPool, lemma_round_after, next_round, round_after, worker_of};

verus! {

/// A server: a protocol for each port, the workers that serve connections, and settings.
/// `P` is what reaches a protocol, `W` what reaches a worker.
pub struct Server<P, W> {
    pub port_mappings: HashMap<u16, P>,
    pub nio_pool: ThreadPool<W>,
    pub max_nio_threads: usize,
    pub max_fio_threads: usize,
    pub next_token: usize,
    pub config: Option<Arc<ServerConfig>>,
    pub read_timeout: Option<Duration>,
}

/// How many threads for files a server starts, where such threads run already or do not: the
/// first server starts them for all.
pub open spec fn file_threads<P, W>(server: Server<P, W>, running: bool) -> usize {
    if running {
        0
    } else {
        server.max_fio_threads
    }
}

impl<P, W> Server<P, W> {
    /// A server that listens to nothing, with one thread for connections and one for files.
    pub fn new() -> (server: Self)
        ensures
            server.port_mappings@ == Map::<u16, P>::empty(),
            server.nio_pool.workers@ == Seq::<W>::empty(),
            server.nio_pool.round == 0,
            server.max_nio_threads == 1,
            server.max_fio_threads == 1,
            server.next_token == 0,
            server.config is None,
            server.read_timeout is None,
    {
        Self {
            port_mappings: HashMap::new(),
            nio_pool: ThreadPool::new(),
            max_nio_threads: 1,
            max_fio_threads: 1,
            next_token: 0,
            config: None,
            read_timeout: None,
        }
    }

    /// Serves a port by a protocol, in place of the one that served it before.
    pub fn set_port(&mut self, port: u16, protocol: P)
        ensures
            final(self).port_mappings@ == old(self).port_mappings@.insert(port, protocol),
            *final(self) == (Server { port_mappings: final(self).port_mappings, ..*old(self) }),
    {
        broadcast use vstd::std_specs::hash::group_hash_axioms;

        self.port_mappings.insert(port, protocol);
    }

    /// Sets how many threads serve connections.
    pub fn set_max_nio_threads(&mut self, max_nio_threads: usize)
        ensures
            *final(self) == (Server { max_nio_threads, ..*old(self) }),
    {
        self.max_nio_threads = max_nio_threads;
    }

    /// Sets how many threads read and write files.
    pub fn set_max_fio_threads(&mut self, max_fio_threads: usize)
        ensures
            *final(self) == (Server { max_fio_threads, ..*old(self) }),
    {
        self.max_fio_threads = max_fio_threads;
    }

    /// Sets the TLS settings.
    pub fn set_config(&mut self, config: Arc<ServerConfig>)
        ensures
            *final(self) == (Server { config: Some(config), ..*old(self) }),
    {
        self.config = Some(config);
    }

    /// Sets how long to wait for a peer.
    pub fn set_read_timeout(&mut self, read_timeout: Option<Duration>)
        ensures
            *final(self) == (Server { read_timeout, ..*old(self) }),
    {
        self.read_timeout = read_timeout;
    }

    /// The token of the next connection.
    pub fn next_token(&mut self) -> (token: usize)
        ensures
            token == old(self).next_token,
            *final(self) == (Server { next_token: next_round(old(self).next_token), ..*old(self) }),
    {
        let token: usize = self.next_token;
        self.next_token = if token == usize::MAX {
            0
        } else {
            token + 1
        };
        token
    }

    /// Decides who serves a connection to a port: its protocol, on the worker whose turn it
    /// is. A connection for which no events can be had, or that has no protocol, is dropped.
    pub fn listen_port(&mut self, port: u16, registered: bool) -> (served: Option<(&P, &W)>)
        requires
            registered && old(self).port_mappings@.contains_key(port) ==> old(
                self).nio_pool.workers@.len() > 0,
        ensures
            final(self).port_mappings == old(self).port_mappings,
            final(self).nio_pool.workers@ == old(self).nio_pool.workers@,
            final(self).max_nio_threads == old(self).max_nio_threads,
            final(self).max_fio_threads == old(self).max_fio_threads,
            final(self).next_token == old(self).next_token,
            final(self).config == old(self).config,
            final(self).read_timeout == old(self).read_timeout,
            if registered && old(self).port_mappings@.contains_key(port) {
                &&& served matches Some((protocol, worker))
                &&& *protocol == old(self).port_mappings@[port]
                &&& *worker == old(self).nio_pool.workers@[worker_of(
                    old(self).nio_pool.workers@.len(),
                    old(self).nio_pool.round,
                    0,
                )]
                &&& final(self).nio_pool.round == next_round(old(self).nio_pool.round)
            } else {
                &&& served is None
                &&& final(self).nio_pool.round == old(self).nio_pool.round
            },
    {
        broadcast use vstd::std_specs::hash::group_hash_axioms;

        if !registered {
            return None;
        }
        match self.port_mappings.get(&port) {
            Some(protocol) => Some((protocol, self.nio_pool.round_robin())),
            None => None,
        }
    }

    /// How many threads for files are to be started, where such threads run already or do not.
    pub fn file_threads(&self, running: bool) -> (threads: usize)
        ensures
            threads == file_threads(*self, running),
    {
        if running {
            0
        } else {
            self.max_fio_threads
        }
    }

    /// Takes the workers that have been started and gives the ports to listen to, each once.
    pub fn start(&mut self, workers: Vec<W>) -> (ports: Vec<u16>)
        requires
            workers@.len() == old(self).max_nio_threads,
        ensures
            final(self).port_mappings == old(self).port_mappings,
            final(self).nio_pool.workers@ == old(self).nio_pool.workers@ + workers@,
            final(self).nio_pool.round == old(self).nio_pool.round,
            final(self).max_nio_threads == old(self).max_nio_threads,
            final(self).max_fio_threads == old(self).max_fio_threads,
            final(self).next_token == old(self).next_token,
            final(self).config == old(self).config,
            final(self).read_timeout == old(self).read_timeout,
            ports@.no_duplicates(),
            ports@.to_set() == old(self).port_mappings@.dom(),
    {
        broadcast use vstd::std_specs::hash::group_hash_axioms;

        self.nio_pool.spawn_workers(workers);
        let mut ports: Vec<u16> = Vec::new();
        let all_ports = self.port_mappings.keys();
        let ghost listed = vstd::std_specs::iter::IteratorSpec::remaining(&all_ports).unref();
        for port in keys: all_ports
            invariant
                keys.seq().unref() == listed,
                ports@ == listed.take(keys.index()),
        {
            ports.push(*port);
        }
        assert(ports@ =~= listed);
        ports
    }
}

/// How many threads for files these servers start, one server after the other.
pub open spec fn file_threads_started<P, W>(servers: Seq<Server<P, W>>) -> nat
    decreases servers.len(),
{
    if servers.len() == 0 {
        0
    } else {
        let running = servers.len() > 1;
        file_threads_started(servers.drop_last()) + file_threads(
            servers.last(),
            running,
        ) as nat
    }
}

/// The threads for files are started once: however many servers start, there are as many as the
/// first of them is set to.
pub proof fn law_file_threads_start_once<P, W>(servers: Seq<Server<P, W>>)
    requires
        servers.len() > 0,
    ensures
        file_threads_started(servers) == servers[0].max_fio_threads,
    decreases servers.len(),
{
    reveal_with_fuel(file_threads_started, 2);
    if servers.len() > 1 {
        law_file_threads_start_once(servers.drop_last());
    }
}

/// Connections do not share a token: of as many connections in a row as there are tokens, no
/// two get the same.
pub proof fn law_tokens_differ(first: usize, earlier: nat, later: nat)
    requires
        earlier < later,
        later - earlier <= usize::MAX,
    ensures
        round_after(first, earlier) != round_after(first, later),
{
    let size: int = usize::MAX + 1;
    lemma_round_after(first, earlier);
    lemma_round_after(first, later);
    vstd::arithmetic::div_mod::lemma_fundamental_div_mod(first + earlier, size);
    vstd::arithmetic::div_mod::lemma_fundamental_div_mod(first + later, size);
    let p: int = (first + earlier) / size;
    let q: int = (first + later) / size;
    assert((first + earlier) % size != (first + later) % size) by (nonlinear_arith)
        requires
            first + earlier == size * p + (first + earlier) % size,
            first + later == size * q + (first + later) % size,
            earlier < later,
            later - earlier < size,
    ;
}

} // verus!
