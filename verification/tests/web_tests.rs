use serde_json::Value;
use server_kit::applications::async_web::connection::{Act, Connection, Stage};
use server_kit::applications::async_web::default as replies;
use server_kit::applications::async_web::http::Method;
use server_kit::applications::async_web::protocol as async_protocol;
use server_kit::applications::async_web::protocol::Phase;
use server_kit::applications::message::{
    begin_request, has_climb, on_request_line, parse_body, parse_request_line, settle_body,
    split_field, split_request_line, split_target, take_body, try_parse_request_line, BodyError,
    BodyStep, HeadStep, Header, RequestError,
};
use server_kit::applications::response::{content_type_of, path_extension, HttpResponse};
use server_kit::applications::web::connection as blocking;
use server_kit::applications::web::http::Method as BlockingMethod;
use server_kit::applications::web::protocol as blocking_protocol;
use server_kit::query::{decode_query, insert_pairs};
use server_kit::routing::{next_filter, FilterStep};

fn object() -> Value {
    Value::Object(serde_json::Map::new())
}

fn text(value: &Value, name: &str) -> String {
    value.get(name).unwrap().as_str().unwrap().to_string()
}

fn field(header: &Header, name: &str) -> Option<String> {
    header.get(&name.to_string()).cloned()
}

#[test]
fn request_line_is_split() {
    let request = split_request_line("get /a/b?x=1&y=2 HTTP/1.1\r\n");
    assert_eq!(request.method, "GET");
    assert_eq!(request.target, Some(("/a/b".to_string(), "x=1&y=2".to_string())));
    assert_eq!(split_request_line("GET\r\n").target, None);
    assert_eq!(
        split_request_line("GET  /late HTTP/1.1").target,
        Some((String::new(), String::new()))
    );
    assert_eq!(split_target("/p?a=1?b=2"), ("/p".to_string(), "a=1".to_string()));
    assert_eq!(split_target("/p"), ("/p".to_string(), String::new()));
}

#[test]
fn every_method_has_its_word() {
    for (word, method) in [
        ("GET", Method::GET),
        ("POST", Method::POST),
        ("PUT", Method::PUT),
        ("PATCH", Method::PATCH),
        ("DELETE", Method::DELETE),
        ("HEAD", Method::HEAD),
        ("OPTIONS", Method::OPTIONS),
        ("TRACE", Method::TRACE),
        ("CONNECT", Method::CONNECT),
    ] {
        let mut params = object();
        let line = format!("{} /x HTTP/1.1\r\n", word.to_lowercase());
        let read: Result<(Method, String), RequestError> = parse_request_line(&line, &mut params);
        assert_eq!(read, Ok((method, "/x".to_string())));
        let read: Result<(BlockingMethod, String), RequestError> =
            parse_request_line(&line, &mut params);
        assert_eq!(format!("{:?}", read.unwrap().0), word);
    }
    let mut params = object();
    let read: Result<(Method, String), RequestError> = parse_request_line("ANY /x", &mut params);
    assert_eq!(read, Err(RequestError::UnknownMethod));
    let read: Result<(Method, String), RequestError> = parse_request_line("", &mut params);
    assert_eq!(read, Err(RequestError::UnknownMethod));
}

#[test]
fn query_parameters_are_decoded() {
    let mut params = object();
    let read: Result<(Method, String), RequestError> =
        parse_request_line("GET /x?a=1&b=c%20d&a=2&e=f+g HTTP/1.1\r\n", &mut params);
    assert!(read.is_ok());
    assert_eq!(text(&params, "a"), "2");
    assert_eq!(text(&params, "b"), "c d");
    assert_eq!(text(&params, "e"), "f g");
    assert_eq!(params.as_object().unwrap().len(), 3);
}

#[test]
fn other_members_stay() {
    let mut params = object();
    params.as_object_mut().unwrap().insert("n".to_string(), Value::Bool(true));
    params.as_object_mut().unwrap().insert("a".to_string(), Value::Null);
    insert_pairs(&vec![("a".to_string(), "1".to_string())], &mut params);
    assert_eq!(params.get("n"), Some(&Value::Bool(true)));
    assert_eq!(text(&params, "a"), "1");
    decode_query("", &mut params);
    assert_eq!(params.as_object().unwrap().len(), 2);
    let mut number = Value::Bool(false);
    decode_query("a=1", &mut number);
    assert_eq!(number, Value::Bool(false));
}

#[test]
fn method_without_target_is_told_apart() {
    let mut params = object();
    let read: Option<Result<(Method, String), RequestError>> =
        try_parse_request_line("GET\r\n", &mut params);
    assert!(read.is_none());
    let read: Option<Result<(Method, String), RequestError>> =
        try_parse_request_line("NONE\r\n", &mut params);
    assert_eq!(read, Some(Err(RequestError::UnknownMethod)));
    let step: HeadStep<Method> = on_request_line(Some("POST"));
    assert!(matches!(step, HeadStep::Abort));
}

#[test]
fn climbing_paths_are_refused() {
    assert!(has_climb("/a/../b"));
    assert!(has_climb("/a..b"));
    assert!(!has_climb("/a/./b"));
    let step: HeadStep<Method> = on_request_line(Some("GET /../etc HTTP/1.1\r\n"));
    assert!(matches!(step, HeadStep::Refuse(r) if r == replies::BAD_REQUEST));
    let step: HeadStep<Method> = on_request_line(Some("GET /a?x=../b HTTP/1.1\r\n"));
    assert!(matches!(step, HeadStep::Proceed(head) if head.endpoint == "/a"));
    let step: HeadStep<Method> = on_request_line(None);
    assert!(matches!(step, HeadStep::Refuse(r) if r == replies::BAD_REQUEST));
    let step: HeadStep<Method> = begin_request(Some(Err(RequestError::UnknownMethod)), object());
    assert!(matches!(step, HeadStep::Refuse(_)));
}

#[test]
fn header_lines_are_split_at_colons() {
    assert_eq!(split_field("Host: a\r\n"), ("Host".to_string(), "a".to_string()));
    assert_eq!(split_field("Host: a:80\r\n"), ("Host".to_string(), "a".to_string()));
    assert_eq!(split_field(" lone \r\n"), ("lone".to_string(), String::new()));
    assert_eq!(split_field("k :v"), ("k ".to_string(), "v".to_string()));
}

#[test]
fn asynchronous_header_has_lower_case_names() {
    let mut header = Header::new();
    assert!(async_protocol::on_header_line(&mut header, Some("Content-LENGTH : 12\r\n")));
    assert!(async_protocol::on_header_line(&mut header, Some("content-type: Text/Plain\r\n")));
    assert!(async_protocol::on_header_line(&mut header, Some("Accept-Encoding: br, gzip\r\n")));
    assert!(!async_protocol::on_header_line(&mut header, Some("\r\n")));
    assert!(!async_protocol::on_header_line(&mut header, None));
    assert_eq!(field(&header, "content-length"), Some("12".to_string()));
    assert_eq!(async_protocol::content_length(&header), 12);
    assert_eq!(async_protocol::content_type(&header), "Text/Plain");
    assert!(async_protocol::accepts_gzip(&header));
    assert_eq!(async_protocol::content_length(&Header::new()), 0);
    assert_eq!(async_protocol::content_type(&Header::new()), "text/plain");
    assert!(!async_protocol::accepts_gzip(&Header::new()));
}

#[test]
fn last_header_line_of_a_name_counts() {
    let mut header = Header::new();
    for line in ["Content-Length: 3", "content-length: 5", "Host: h"] {
        assert!(async_protocol::on_header_line(&mut header, Some(line)));
    }
    assert_eq!(async_protocol::content_length(&header), 5);
    assert_eq!(header.len(), 2);
    assert_eq!(header.entry(0).0, "content-length");
    assert_eq!(header.entry(1).1, "h");
}

#[test]
fn blocking_header_keeps_names() {
    let mut header = Header::new();
    assert!(blocking_protocol::on_header_line(&mut header, Some("content-length: 3\r\n")));
    assert_eq!(blocking_protocol::content_length(&header), 0);
    assert!(blocking_protocol::on_header_line(&mut header, Some("Content-Length: 4\r\n")));
    assert!(blocking_protocol::on_header_line(&mut header, Some("Content-Type: application/json")));
    assert_eq!(blocking_protocol::content_length(&header), 4);
    assert_eq!(blocking_protocol::content_type(&header), "application/json");
    assert!(blocking_protocol::on_header_line(&mut header, Some("Content-Length: many\r\n")));
    assert_eq!(blocking_protocol::content_length(&header), 0);
}

#[test]
fn bodies_are_read_by_their_type() {
    assert_eq!(
        parse_body(b"hello".to_vec(), "TEXT/plain"),
        Ok(Some(Value::String("hello".to_string())))
    );
    assert_eq!(
        parse_body(vec![0xff, 0xfe], "text/plain"),
        Ok(Some(Value::String(String::new())))
    );
    assert_eq!(parse_body(b"a=1".to_vec(), "application/x-www-form-urlencoded"), Ok(None));
    assert_eq!(parse_body(b"--".to_vec(), "multipart/form-data"), Ok(None));
    let read = parse_body(b"{\"a\":\"b\"}".to_vec(), "application/json").unwrap().unwrap();
    assert_eq!(text(&read, "a"), "b");
    assert_eq!(parse_body(b"{".to_vec(), "application/json"), Err(BodyError::InvalidJson));
    assert_eq!(parse_body(Vec::new(), "application/json"), Err(BodyError::InvalidJson));
    assert_eq!(parse_body(Vec::new(), "text/html"), Err(BodyError::UnknownContentType));
    assert_eq!(
        parse_body(Vec::new(), "text/plain; charset=utf-8"),
        Err(BodyError::UnknownContentType)
    );
}

#[test]
fn bodies_that_are_not_understood_are_refused() {
    assert!(matches!(take_body("text/plain", None), BodyStep::Refuse(r) if r == replies::BAD_REQUEST));
    assert!(matches!(take_body("x/y", Some(Vec::new())), BodyStep::Refuse(_)));
    assert!(matches!(
        take_body("multipart/form-data", Some(Vec::new())),
        BodyStep::Accept(Value::Null)
    ));
    assert!(matches!(settle_body(Err(BodyError::InvalidJson)), BodyStep::Refuse(_)));
    assert!(matches!(settle_body(Ok(Some(Value::Bool(true)))), BodyStep::Accept(Value::Bool(true))));
}

#[test]
fn ready_made_responses_declare_their_length() {
    for (reply, body) in [
        (replies::BAD_REQUEST, "Bad Request"),
        (replies::NOT_FOUND, "Not Found"),
        (replies::INTERNAL_SERVER_ERROR, "Internal Server Error"),
    ] {
        let (head, tail) = reply.split_once("\r\n\r\n").unwrap();
        assert_eq!(tail, body);
        assert!(head.contains(&format!("\r\nContent-Length: {}\r\n", body.len())));
        assert!(head.contains("Content-Type: text/plain"));
    }
}

#[test]
fn status_lines_have_their_code() {
    for (line, code) in [
        (replies::OK, "200 OK"),
        (replies::CREATED, "201 Created"),
        (replies::NO_CONTENT, "204 No Content"),
        (replies::MOVED_PERMANENTLY, "301 Moved Permanently"),
        (replies::FOUND, "302 Found"),
        (replies::NOT_MODIFIED, "304 Not Modified"),
        (replies::UNAUTHORIZED, "401 Unauthorized"),
        (replies::FORBIDDEN, "403 Forbidden"),
        (replies::METHOD_NOT_ALLOWED, "405 Method Not Allowed"),
        (replies::REQUEST_TIMEOUT, "408 Request Timeout"),
        (replies::CONFLICT, "409 Conflict"),
        (replies::PAYLOAD_TOO_LARGE, "413 Payload Too Large"),
        (replies::UNSUPPORTED_MEDIA_TYPE, "415 Unsupported Media Type"),
        (replies::TOO_MANY_REQUESTS, "429 Too Many Requests"),
        (replies::NOT_IMPLEMENTED, "501 Not Implemented"),
        (replies::BAD_GATEWAY, "502 Bad Gateway"),
        (replies::SERVICE_UNAVAILABLE, "503 Service Unavailable"),
        (replies::GATEWAY_TIMEOUT, "504 Gateway Timeout"),
    ] {
        assert_eq!(line, format!("HTTP/1.1 {}\r\n", code));
    }
}

#[test]
fn response_is_written() {
    let mut response = HttpResponse::new(200, Header::new());
    response.set_status(201).set_header("x", "1").set_header("y", "2").set_header("x", "3");
    assert_eq!(response.write_status(), "HTTP/1.1 201\r\n");
    assert_eq!(response.write_header(), "x:3\r\ny:2\r\n\r\n");
    let bytes = response.write("h\u{e9}");
    assert_eq!(bytes, "HTTP/1.1 201\r\nx:3\r\ny:2\r\ncontent-length:3\r\n\r\nh\u{e9}".as_bytes());
    let bytes = response.write("");
    assert_eq!(bytes, b"HTTP/1.1 201\r\nx:3\r\ny:2\r\ncontent-length:0\r\n\r\n");
}

#[test]
fn response_with_a_value_is_written() {
    let mut response = HttpResponse::new(200, Header::new());
    let mut value = object();
    decode_query("a=b", &mut value);
    let bytes = response.write_value(value);
    assert_eq!(bytes, b"HTTP/1.1 200\r\ncontent-length:9\r\n\r\n{\"a\":\"b\"}");
}

#[test]
fn response_with_a_file_is_written() {
    let mut response = HttpResponse::new(200, Header::new());
    let bytes = response.write_file("./examples/hello.HTML", &b"<p>".to_vec());
    assert_eq!(
        bytes,
        b"HTTP/1.1 200\r\ncontent-type:text/html\r\ncontent-length:3\r\n\r\n<p>"
    );
    let bytes = response.write_sized_file("a.png", 7, &vec![0, 255]);
    assert_eq!(
        bytes,
        b"HTTP/1.1 200\r\ncontent-type:image/png\r\ncontent-length:7\r\n\r\n\x00\xff"
    );
}

#[test]
fn content_types_go_by_extension() {
    for (extension, kind) in [
        ("html", "text/html"),
        ("JS", "application/javascript"),
        ("css", "text/css"),
        ("png", "image/png"),
        ("Jpg", "image/jpeg"),
        ("svg", "image/svg+xml"),
        ("gif", "image/gif"),
        ("ico", "image/x-icon"),
        ("ttf", "font/ttf"),
        ("otf", "font/otf"),
        ("jpeg", "text/plain"),
        ("", "text/plain"),
    ] {
        assert_eq!(HttpResponse::get_content_type(extension), kind);
    }
    assert_eq!(content_type_of("HTML"), "text/plain");
    assert_eq!(path_extension("a.tar.gz"), "gz");
    assert_eq!(path_extension("noext"), "noext");
    assert_eq!(path_extension("dir.d/file"), "d/file");
    assert_eq!(path_extension("end."), "");
}

#[test]
fn written_header_is_read_back() {
    let mut response = HttpResponse::new(200, Header::new());
    response.set_header("Content-Type", "text/css").set_header("Empty", "");
    response.write("12345");
    let mut header = Header::new();
    for line in response.write_header().split_inclusive('\n') {
        let more = blocking_protocol::on_header_line(&mut header, Some(line));
        assert_eq!(more, line != "\r\n");
    }
    assert_eq!(header.len(), 3);
    assert_eq!(field(&header, "Content-Type"), Some("text/css".to_string()));
    assert_eq!(field(&header, "Empty"), Some(String::new()));
    assert_eq!(field(&header, "content-length"), Some("5".to_string()));
    assert_eq!(async_protocol::content_length(&header), 5);
}

fn routes() -> async_protocol::Http<&'static str> {
    let mut http = async_protocol::Http::new();
    http.set_handler(Method::GET, "/a", "exact");
    http.set_handler(Method::GET, "/a/*", "below a");
    http.set_handler(Method::GET, "/a/b/*", "below b");
    http.set_handler(Method::POST, "/*", "post");
    http
}

fn served(http: &async_protocol::Http<&'static str>, method: Method, endpoint: &str) -> Option<&'static str> {
    match http.dispatch(&method, endpoint) {
        async_protocol::Dispatch::Handle(handler) => Some(handler.action),
        async_protocol::Dispatch::Missing(response) => {
            assert_eq!(response, replies::NOT_FOUND);
            None
        }
    }
}

#[test]
fn most_specific_route_wins() {
    let http = routes();
    assert_eq!(served(&http, Method::GET, "/a"), Some("exact"));
    assert_eq!(served(&http, Method::GET, "/a/"), Some("below a"));
    assert_eq!(served(&http, Method::GET, "/a/x"), Some("below a"));
    assert_eq!(served(&http, Method::GET, "/a/b"), Some("below b"));
    assert_eq!(served(&http, Method::GET, "/a/b/c/d"), Some("below b"));
    assert_eq!(served(&http, Method::GET, "/ab"), None);
    assert_eq!(served(&http, Method::GET, "/"), None);
    assert_eq!(served(&http, Method::POST, "/anything"), Some("post"));
    assert_eq!(served(&http, Method::POST, ""), Some("post"));
    assert_eq!(served(&http, Method::POST, "relative"), None);
    assert!(http.search_wildcard(&Method::GET, "/a").is_some());
    assert!(http.search_wildcard(&Method::PUT, "/a").is_none());
}

#[test]
fn later_route_replaces_the_earlier() {
    let mut http = routes();
    http.set_handler(Method::GET, "/a", "new");
    assert_eq!(served(&http, Method::GET, "/a"), Some("new"));
    assert_eq!(served(&http, Method::GET, "/a/x"), Some("below a"));
    assert_eq!(http.handlers.len(), 4);
}

#[test]
fn blocking_routes_are_found() {
    let mut http = blocking_protocol::Http::new();
    http.handle(BlockingMethod::GET, "/x/*", 1u8);
    http.handle(BlockingMethod::GET, "/x/y", 2u8);
    assert!(matches!(
        http.dispatch(&BlockingMethod::GET, "/x/y"),
        blocking_protocol::Dispatch::Handle(h) if h.action == 2
    ));
    assert!(matches!(
        http.dispatch(&BlockingMethod::GET, "/x/z"),
        blocking_protocol::Dispatch::Handle(h) if h.action == 1 && h.endpoint == "/x/*"
    ));
    assert!(matches!(
        http.dispatch(&BlockingMethod::HEAD, "/x/y"),
        blocking_protocol::Dispatch::Missing(r) if r == replies::NOT_FOUND
    ));
    assert!(http.search_wildcard(&BlockingMethod::GET, "/x").is_some());
    assert!(http.get_config().is_none());
    http.set_config(&None);
    assert!(http.config.is_none());
}

#[test]
fn filters_run_from_the_outside_in() {
    let mut http: async_protocol::Http<&'static str> = async_protocol::Http::new();
    http.set_pre_handler("", "root");
    http.set_pre_handler("/a/*", "a below");
    http.set_pre_handler("/a/b", "b");
    http.set_pre_handler("/a/b/*", "hidden");
    http.set_post_handler("/*", "after");
    let names = |phase: Phase, endpoint: &str| -> Vec<&'static str> {
        http.filters(phase, endpoint).iter().map(|h| h.action).collect()
    };
    assert_eq!(names(Phase::PreHandle, "/a/b/c"), vec!["root", "a below", "b"]);
    assert_eq!(names(Phase::PreHandle, "/a"), vec!["root", "a below"]);
    assert_eq!(names(Phase::PreHandle, "/x"), vec!["root"]);
    assert_eq!(names(Phase::PostHandle, "/a/b"), vec!["after"]);
    assert_eq!(http.filters(Phase::PreHandle, "/a")[0].method, Method::ANY);
}

#[test]
fn filters_pass_stop_or_fail() {
    let passed: Result<usize, ()> = Ok(0);
    let sent: Result<usize, ()> = Ok(3);
    let failed: Result<usize, ()> = Err(());
    assert!(matches!(next_filter(2, 0, &passed), FilterStep::Run(0)));
    assert!(matches!(next_filter(2, 1, &passed), FilterStep::Run(1)));
    assert!(matches!(next_filter(2, 2, &passed), FilterStep::Pass));
    assert!(matches!(next_filter(2, 1, &sent), FilterStep::Stop));
    assert!(matches!(
        next_filter(2, 2, &failed),
        FilterStep::Fail(r) if r == replies::INTERNAL_SERVER_ERROR
    ));
}

/// Runs a connection: the lines, the body, and what each action that is run comes to.
/// Gives the actions, the responses that were sent, and the result.
fn converse(
    http: &async_protocol::Http<&'static str>,
    lines: &[&str],
    body: &[u8],
    results: &[Result<usize, u8>],
) -> (Vec<String>, Result<usize, u8>) {
    let mut connection: Connection<u16, u8> = Connection::new();
    let mut log: Vec<String> = Vec::new();
    let mut next_line: usize = 0;
    let mut next_result: usize = 0;
    let mut act: Act<'_, &'static str, u8> = Act::ReadLine;
    loop {
        act = match act {
            Act::ReadLine => {
                let line = lines.get(next_line).copied();
                next_line += 1;
                connection.on_line(line)
            }
            Act::ReadBody(length) => {
                let bytes = if length <= body.len() { Some(body[..length].to_vec()) } else { None };
                connection.on_body(bytes)
            }
            Act::TellPeer => {
                assert!(connection.request().is_none());
                connection.on_peer(http, 9)
            }
            Act::Run(handler) => {
                assert_eq!(connection.request().unwrap().peer, 9);
                log.push(handler.action.to_string());
                let result = results[next_result];
                next_result += 1;
                connection.on_done(http, result)
            }
            Act::Send(response) => {
                log.push(response[9..12].to_string());
                connection.on_done(http, Ok(response.len()))
            }
            Act::Finish(result) => {
                assert!(matches!(connection.stage, Stage::Closed));
                assert!(connection.request().is_none());
                return (log, result);
            }
            Act::Abort => {
                log.push("abort".to_string());
                return (log, Err(255));
            }
        };
    }
}

fn site() -> async_protocol::Http<&'static str> {
    let mut http = async_protocol::Http::new();
    http.set_handler(Method::GET, "/a", "handler");
    http.set_pre_handler("", "outer");
    http.set_pre_handler("/a", "inner");
    http.set_post_handler("/a", "after");
    http
}

#[test]
fn request_goes_through_filters_to_its_handler() {
    let http = site();
    let (log, result) = converse(
        &http,
        &["GET /a HTTP/1.1\r\n", "Host: h\r\n", "\r\n"],
        b"",
        &[Ok(0), Ok(0), Ok(77), Ok(0)],
    );
    assert_eq!(log, vec!["outer", "inner", "handler", "after"]);
    assert_eq!(result, Ok(77));
}

#[test]
fn filter_that_answers_keeps_the_handler_away() {
    let http = site();
    let (log, result) = converse(&http, &["GET /a\r\n", "\r\n"], b"", &[Ok(0), Ok(5)]);
    assert_eq!(log, vec!["outer", "inner"]);
    assert_eq!(result, Ok(1));
}

#[test]
fn filter_that_fails_is_answered_with_an_error() {
    let http = site();
    let (log, result) = converse(&http, &["GET /a\r\n", "\r\n"], b"", &[Err(4)]);
    assert_eq!(log, vec!["outer", "500"]);
    assert_eq!(result, Ok(1));
}

#[test]
fn later_filters_do_not_change_the_result() {
    let http = site();
    let (log, result) =
        converse(&http, &["GET /a\r\n", "\r\n"], b"", &[Ok(0), Ok(0), Err(8), Err(2)]);
    assert_eq!(log, vec!["outer", "inner", "handler", "after", "500"]);
    assert_eq!(result, Err(8));
    let (log, result) =
        converse(&http, &["GET /a\r\n", "\r\n"], b"", &[Ok(0), Ok(0), Ok(6), Ok(2)]);
    assert_eq!(log, vec!["outer", "inner", "handler", "after"]);
    assert_eq!(result, Ok(6));
}

#[test]
fn missing_handler_is_answered_and_followed_up() {
    let http = site();
    let (log, result) = converse(
        &http,
        &["POST /a\r\n", "Content-Length: 2\r\n", "\r\n"],
        b"hi",
        &[Ok(0), Ok(0), Ok(0)],
    );
    assert_eq!(log, vec!["outer", "inner", "404", "after"]);
    assert_eq!(result, Ok(replies::NOT_FOUND.len()));
}

#[test]
fn bad_requests_end_with_what_was_sent() {
    let http = site();
    for lines in [
        vec!["NOPE /a\r\n"],
        vec!["GET /..\r\n"],
        vec!["GET /a\r\n", "content-type: x/y\r\n", "\r\n"],
        vec!["GET /a\r\n", "content-length: 3\r\n", "\r\n"],
        vec![],
    ] {
        let (log, result) = converse(&http, &lines, b"", &[]);
        assert_eq!(log, vec!["400"]);
        assert_eq!(result, Ok(replies::BAD_REQUEST.len()));
    }
    let (log, _) = converse(&http, &["GET\r\n"], b"", &[]);
    assert_eq!(log, vec!["abort"]);
}

#[test]
fn header_that_breaks_off_ends_there() {
    let http = site();
    let (log, result) = converse(&http, &["GET /a\r\n"], b"", &[Ok(0), Ok(0), Ok(1), Ok(0)]);
    assert_eq!(log, vec!["outer", "inner", "handler", "after"]);
    assert_eq!(result, Ok(1));
}

#[test]
fn blocking_connection_runs_its_handler() {
    let mut http = blocking_protocol::Http::new();
    http.handle(BlockingMethod::POST, "/p", "post");
    let mut connection = blocking::Connection::new();
    let act: blocking::Act<'_, &'static str, u16> =
        connection.on_line(Some("POST /p?q=1 HTTP/1.1\r\n"));
    assert!(matches!(act, blocking::Act::ReadLine));
    let act: blocking::Act<'_, &'static str, u16> = connection.on_line(Some("Content-Length: 2\r\n"));
    assert!(matches!(act, blocking::Act::ReadLine));
    let act: blocking::Act<'_, &'static str, u16> =
        connection.on_line(Some("Content-Type: application/json\r\n"));
    assert!(matches!(act, blocking::Act::ReadLine));
    let act: blocking::Act<'_, &'static str, u16> = connection.on_line(Some("\r\n"));
    assert!(matches!(act, blocking::Act::ReadBody(2)));
    match connection.on_body(&http, 80u16, Some(b"[]".to_vec())) {
        blocking::Act::Run(handler, request) => {
            assert_eq!(handler.action, "post");
            assert_eq!(request.endpoint, "/p");
            assert_eq!(request.peer, 80);
            assert_eq!(text(&request.query_params, "q"), "1");
            assert_eq!(request.body_params, Value::Array(Vec::new()));
        }
        _ => panic!("no handler"),
    }
    assert!(matches!(connection.stage, blocking::Stage::Closed));
}

#[test]
fn blocking_connection_refuses() {
    let http: blocking_protocol::Http<u8> = blocking_protocol::Http::new();
    let mut connection = blocking::Connection::new();
    let act: blocking::Act<'_, u8, ()> = connection.on_line(None);
    assert!(matches!(act, blocking::Act::Send(r) if r == replies::BAD_REQUEST));
    let mut connection = blocking::Connection::new();
    let act: blocking::Act<'_, u8, ()> = connection.on_line(Some("PUT"));
    assert!(matches!(act, blocking::Act::Abort));
    let mut connection = blocking::Connection::new();
    let _act: blocking::Act<'_, u8, ()> = connection.on_line(Some("PUT /x"));
    let act: blocking::Act<'_, u8, ()> = connection.on_line(None);
    assert!(matches!(act, blocking::Act::ReadBody(0)));
    assert!(matches!(
        connection.on_body(&http, (), Some(Vec::new())),
        blocking::Act::Send(r) if r == replies::NOT_FOUND
    ));
    let mut connection = blocking::Connection::new();
    let _act: blocking::Act<'_, u8, ()> = connection.on_line(Some("PUT /x"));
    let _act: blocking::Act<'_, u8, ()> = connection.on_line(None);
    assert!(matches!(
        connection.on_body(&http, (), None),
        blocking::Act::Send(r) if r == replies::BAD_REQUEST
    ));
}
