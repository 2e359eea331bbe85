use server_kit::applications::async_web::http::Method;
use server_kit::applications::async_web::protocol::Phase;
use server_kit::applications::web::http::Method as BlockingMethod;
use server_kit::applications::web::protocol::Http as BlockingHttp;
use server_kit::blocking::executor::{TaskEnd, TaskQueue, WorkerStep};
use server_kit::blocking::runtime::{Port, Server as BlockingServer, READ_TIMEOUT};
use server_kit::frameworks::mvc;
use server_kit::frameworks::web::{extract, filter, route, Registry};
use server_kit::server::Server;
use server_kit::tls::open_tls;
use std::sync::Arc;
use std::time::Duration;

#[derive(Debug)]
struct NoCertificate;

impl rustls::server::ResolvesServerCert for NoCertificate {
    fn resolve(
        &self,
        _hello: rustls::server::ClientHello<'_>,
    ) -> Option<Arc<rustls::sign::CertifiedKey>> {
        None
    }
}

fn settings() -> rustls::ServerConfig {
    let provider = Arc::new(rustls::crypto::ring::default_provider());
    rustls::ServerConfig::builder_with_provider(provider)
        .with_safe_default_protocol_versions()
        .unwrap()
        .with_no_client_auth()
        .with_cert_resolver(Arc::new(NoCertificate))
}

#[test]
fn fresh_server_has_one_thread_of_each_sort() {
    let server: Server<&str, u8> = Server::new();
    assert!(server.port_mappings.is_empty());
    assert_eq!(server.max_nio_threads, 1);
    assert_eq!(server.max_fio_threads, 1);
    assert_eq!(server.next_token, 0);
    assert!(server.config.is_none());
    assert!(server.read_timeout.is_none());
    assert!(server.nio_pool.workers.is_empty());
}

#[test]
fn settings_of_the_server_are_kept() {
    let mut server: Server<&str, u8> = Server::new();
    server.set_max_nio_threads(4);
    server.set_max_fio_threads(2);
    server.set_read_timeout(Some(Duration::from_millis(300)));
    server.set_config(Arc::new(settings()));
    assert_eq!(server.max_nio_threads, 4);
    assert_eq!(server.max_fio_threads, 2);
    assert_eq!(server.read_timeout, Some(Duration::from_millis(300)));
    assert!(server.config.is_some());
}

#[test]
fn tokens_differ() {
    let mut server: Server<(), ()> = Server::new();
    assert_eq!(server.next_token(), 0);
    assert_eq!(server.next_token(), 1);
    assert_eq!(server.next_token(), 2);
    server.next_token = usize::MAX;
    assert_eq!(server.next_token(), usize::MAX);
    assert_eq!(server.next_token(), 0);
}

#[test]
fn connections_go_to_protocols_and_workers() {
    let mut server: Server<&str, char> = Server::new();
    server.set_port(80, "http");
    server.set_port(25, "smtp");
    server.set_port(80, "newer http");
    server.set_max_nio_threads(2);
    let mut ports = server.start(vec!['a', 'b']);
    ports.sort();
    assert_eq!(ports, vec![25, 80]);
    assert_eq!(server.listen_port(80, true), Some((&"newer http", &'a')));
    assert_eq!(server.listen_port(80, false), None);
    assert_eq!(server.listen_port(443, true), None);
    assert_eq!(server.listen_port(25, true), Some((&"smtp", &'b')));
    assert_eq!(server.listen_port(25, true), Some((&"smtp", &'a')));
}

#[test]
fn server_without_ports_listens_to_nothing() {
    let mut server: Server<&str, char> = Server::new();
    assert!(server.start(vec!['a']).is_empty());
    assert_eq!(server.listen_port(80, true), None);
}

#[test]
fn file_threads_are_started_by_the_first_server() {
    let mut first: Server<&str, char> = Server::new();
    first.set_max_fio_threads(3);
    let mut second: Server<&str, char> = Server::new();
    second.set_max_fio_threads(5);
    assert_eq!(first.file_threads(false), 3);
    assert_eq!(second.file_threads(true), 0);
    assert_eq!(second.file_threads(false), 5);
}

#[test]
fn blocking_tasks_leave_in_order() {
    let mut queue: TaskQueue<&str> = TaskQueue::new();
    assert_eq!(queue.pop(), None);
    queue.push("a");
    queue.push("b");
    assert_eq!(queue.pop(), Some("a"));
    queue.push("c");
    assert_eq!(queue.pop(), Some("b"));
    assert_eq!(queue.pop(), Some("c"));
    assert_eq!(queue.pop(), None);
}

#[test]
fn worker_goes_on_however_tasks_end() {
    let mut queue: TaskQueue<u8> = TaskQueue::new();
    assert!(matches!(queue.next_step(None), WorkerStep::Wait));
    for task in 1..=4u8 {
        queue.push(task);
    }
    assert!(matches!(queue.next_step(None), WorkerStep::Run(1)));
    assert!(matches!(queue.next_step(Some(TaskEnd::Done)), WorkerStep::Run(2)));
    assert!(matches!(queue.next_step(Some(TaskEnd::Failed)), WorkerStep::Run(3)));
    assert!(matches!(queue.next_step(Some(TaskEnd::Panicked)), WorkerStep::Run(4)));
    assert!(matches!(queue.next_step(Some(TaskEnd::Panicked)), WorkerStep::Wait));
}

#[test]
fn connections_open_tls_only_with_settings() {
    assert!(matches!(open_tls(&None), Ok(None)));
    match open_tls(&Some(Arc::new(settings()))) {
        Ok(Some(tls)) => assert!(tls.is_handshaking()),
        _ => panic!("no connection"),
    }
    let mut config = settings();
    config.max_fragment_size = Some(1);
    assert!(open_tls(&Some(Arc::new(config))).is_err());
}

#[test]
fn handlers_are_kept_under_what_they_stand_for() {
    let mut registry: Registry<u8> = Registry::Untouched;
    route(&mut registry, Method::GET, "/a", 1);
    filter(&mut registry, Phase::PreHandle, "/b", 2);
    let http = extract(&mut registry);
    let entry = http.handlers.entry(0);
    assert_eq!((entry.1.method, entry.1.endpoint.as_str()), (entry.0 .0, entry.0 .1.as_str()));
    let entry = http.pre_handlers.entry(0);
    assert_eq!((entry.1.method, entry.1.endpoint.as_str()), (Method::ANY, entry.0.as_str()));
}

#[test]
fn blocking_server_is_planned() {
    let mut server = BlockingServer::new(vec![Port::new(80, "http")]);
    server.set_max_threads(3).bind_port(Port::new(25, "smtp")).set_tls_config(settings());
    let copy = server.clone();
    let plan = server.start();
    assert_eq!(plan.workers, 3);
    assert_eq!(plan.listeners.len(), 2);
    assert_eq!(plan.listeners[0].address, "0.0.0.0:80");
    assert_eq!(plan.listeners[0].port.protocol, "http");
    assert!(plan.listeners[0].config.is_some());
    assert_eq!(plan.listeners[1].address, "0.0.0.0:25");
    assert_eq!(plan.listeners[1].port.port_num, 25);
    assert_eq!(copy.ports.len(), 2);
    assert_eq!(copy.max_threads, 3);
    assert!(Arc::ptr_eq(
        copy.tls_config.as_ref().unwrap(),
        plan.listeners[1].config.as_ref().unwrap()
    ));
    assert_eq!(READ_TIMEOUT, 3);
    assert_eq!(Port::new(65535, ()).address(), "0.0.0.0:65535");
}

#[test]
fn blocking_server_begins_idle() {
    let plan = BlockingServer::<()>::new(Vec::new()).start();
    assert_eq!(plan.workers, 0);
    assert!(plan.listeners.is_empty());
}

#[test]
fn mvc_server_is_set_up_step_by_step() {
    let mut server: Option<BlockingServer<&str>> = None;
    let mut http: Option<BlockingHttp<u8>> = None;
    mvc::handle_request(&mut http, BlockingMethod::GET, "/x", 1);
    mvc::handle_request(&mut http, BlockingMethod::GET, "/x", 2);
    mvc::handle_request(&mut http, BlockingMethod::POST, "/x", 3);
    assert_eq!(http.as_ref().unwrap().handlers.len(), 2);
    mvc::set_max_threads(&mut server, 5);
    mvc::bind_port(&mut server, Some("mvc"), 8080);
    mvc::bind_port(&mut server, Some("mvc"), 8081);
    mvc::set_tls_config(&mut server, settings());
    let copy = mvc::clone(&mut server);
    assert_eq!(copy.max_threads, 5);
    assert_eq!(copy.ports[1].port_num, 8081);
    let plan = mvc::start(&mut server);
    assert_eq!(plan.workers, 5);
    assert_eq!(plan.listeners[0].address, "0.0.0.0:8080");
    assert_eq!(plan.listeners[1].port.protocol, "mvc");
    assert!(plan.listeners[1].config.is_some());
    assert!(server.is_some());
}

#[test]
fn mvc_server_comes_into_being_when_asked_for() {
    let mut server: Option<BlockingServer<u8>> = None;
    let plan = mvc::start(&mut server);
    assert_eq!(plan.workers, 0);
    assert!(plan.listeners.is_empty());
    assert!(server.is_some());
}

#[test]
fn web_server_is_set_up_and_taken_out() {
    let mut registry: Registry<u8> = Registry::Untouched;
    route(&mut registry, Method::GET, "/test", 1);
    route(&mut registry, Method::GET, "/img/*", 2);
    filter(&mut registry, Phase::PreHandle, "/img", 3);
    filter(&mut registry, Phase::PostHandle, "/img", 4);
    let http = extract(&mut registry);
    assert!(matches!(registry, Registry::Taken));
    assert_eq!(http.handlers.len(), 2);
    assert_eq!(http.search_wildcard(&Method::GET, "/img/a.png").unwrap().action, 2);
    assert_eq!(http.filters(Phase::PreHandle, "/img/a.png")[0].action, 3);
    assert_eq!(http.filters(Phase::PostHandle, "/img/a.png")[0].action, 4);
    assert!(!http.use_tls);
    assert!(http.tls_settings().is_none());
}

#[test]
fn tls_settings_are_shared() {
    let mut registry: Registry<u8> = Registry::Untouched;
    filter(&mut registry, Phase::PreHandle, "", 3);
    let mut http = extract(&mut registry);
    let config = Arc::new(settings());
    http.set_config(Arc::clone(&config));
    assert!(http.tls_settings().is_none());
    http.use_tls = true;
    assert!(Arc::ptr_eq(&http.tls_settings().unwrap(), &config));
}
