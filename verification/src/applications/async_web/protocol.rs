//! The HTTP protocol of the asynchronous server.
use std::sync::Arc;
use rustls::ServerConfig;
use vstd::prelude::*;
use vstd::utf8::is_ascii_chars;
use crate::applications::async_web::default::{BAD_REQUEST, NOT_FOUND};
use crate::applications::async_web::http::{HttpRequest, Method};
use crate::applications::message::{
    body_length, body_refused, body_taken_as, body_type, declared_length, declared_type,
    ends_header, field_texts, field_value, find_field, raw_name, split_field, store_field,
    law_body_is_declared, law_body_is_read_by_its_type, law_field_line_is_read,
    law_line_without_colon_is_a_name, take_body, BodyStep,
    Header, RequestHead,
};
use crate::encoding::{
    law_case_is_folded, lower_char, lowercase, same_but_case, text_or_empty, to_lowercase,
};
use crate::json::{is_null, parsed_json, string_held};
use crate::number::number_of;
use crate::routing::{
    filters_along, find_filters, find_handler, find_wildcard, law_filters_of_an_endpoint,
    request_handler, targets, wildcard_handler,
};
use crate::table::Table;
use crate::text::{
    copy_text, has_text, is_white, law_occurrence_is_a_part, law_trimming_bares_the_core, occurs_in,
    split, trim, trimmed, CharClass,
};
use crate::tls::share_config;

verus! {

/// An action together with the method and the endpoint for which it stands.
pub type Handler<A> = crate::routing::Handler<Method, A>;

/// When filters run: before the handler of a request or after it.
#[derive(Clone, Copy, PartialEq, Eq, Structural, Debug)]
pub enum Phase {
    PreHandle,
    PostHandle,
}

/// An HTTP server with handlers whose actions are of the type `A`.
pub struct Http<A> {
    pub handlers: Table<(Method, String), Handler<A>>,
    pub pre_handlers: Table<String, Handler<A>>,
    pub post_handlers: Table<String, Handler<A>>,
    pub config: Option<Arc<ServerConfig>>,
    /// Connections run over TLS.
    pub use_tls: bool,
}

/// Whether `handler` does `action` for the method and the endpoint.
pub open spec fn stands_for<A>(
    handler: Handler<A>,
    method: Method,
    endpoint: Seq<char>,
    action: A,
) -> bool {
    handler.method == method && handler.endpoint@ == endpoint && handler.action == action
}

/// The name under which the field of a header line is stored: in lower case.
pub open spec fn stored_name(line: Seq<char>) -> Seq<char> {
    trimmed(lowercase(raw_name(line)))
}

/// The fields after a header line.
pub open spec fn fields_after(fields: Map<Seq<char>, Seq<char>>, line: Seq<char>) -> Map<
    Seq<char>,
    Seq<char>,
> {
    fields.insert(stored_name(line), field_value(line))
}

/// The fields after a run of header lines.
pub open spec fn fields_over(fields: Map<Seq<char>, Seq<char>>, lines: Seq<Seq<char>>) -> Map<
    Seq<char>,
    Seq<char>,
>
    decreases lines.len(),
{
    if lines.len() == 0 {
        fields
    } else {
        fields_after(fields_over(fields, lines.drop_last()), lines.last())
    }
}

/// What to do after the body of a request.
pub enum RequestStep<P> {
    /// Send this response and close.
    Refuse(&'static str),
    /// The request is complete.
    Complete(HttpRequest<P>),
}

/// Whom a request goes to.
pub enum Dispatch<'a, A> {
    /// To this handler.
    Handle(&'a Handler<A>),
    /// To none: send this response.
    Missing(&'static str),
}

/// Whether a client takes compressed responses.
pub open spec fn gzip_accepted(fields: Map<Seq<char>, Seq<char>>) -> bool {
    fields.contains_key("accept-encoding"@) && occurs_in(fields["accept-encoding"@], "gzip"@)
}

/// Tests whether a client takes compressed responses.
pub fn accepts_gzip(header: &Header) -> (accepted: bool)
    ensures
        accepted == gzip_accepted(field_texts(header@)),
{
    match find_field(header, "accept-encoding") {
        Some(text) => has_text(text.as_str(), "gzip"),
        None => false,
    }
}

/// Takes a line of the header, and tells whether the header goes on; `None` where no line
/// could be read.
pub fn on_header_line(header: &mut Header, line: Option<&str>) -> (more: bool)
    ensures
        more == (line matches Some(text) && !ends_header(text@)),
        more ==> field_texts(final(header)@) == fields_after(
            field_texts(old(header)@),
            line->Some_0@,
        ),
        !more ==> *final(header) == *old(header),
{
    match line {
        None => false,
        Some(text) => {
            let whole = trim(text);
            if whole.as_str().is_empty() {
                false
            } else {
                let (name, value) = split_field(text);
                let lower = to_lowercase(name.as_str());
                store_field(header, lower.as_str(), value);
                true
            }
        },
    }
}

/// The length of the body that a header declares.
pub fn content_length(header: &Header) -> (length: usize)
    ensures
        length == declared_length(field_texts(header@), "content-length"@),
{
    body_length(header, "content-length")
}

/// The type of the body that a header declares.
pub fn content_type(header: &Header) -> (kind: String)
    ensures
        kind@ == declared_type(field_texts(header@), "content-type"@),
{
    body_type(header, "content-type")
}

/// What comes of a request whose body has been read: it is refused where the body is not
/// understood, and else complete.
pub open spec fn settled<P>(
    head: RequestHead<Method>,
    peer: P,
    body: Option<Vec<u8>>,
    step: RequestStep<P>,
) -> bool {
    let lower = lowercase(declared_type(field_texts(head.header@), "content-type"@));
    match step {
        RequestStep::Refuse(response) => {
            &&& response == BAD_REQUEST
            &&& body matches Some(bytes) ==> body_refused(lower, bytes@)
        },
        RequestStep::Complete(request) => {
            &&& body matches Some(bytes)
            &&& !body_refused(lower, bytes@)
            &&& body_taken_as(lower, bytes@, request.body_params)
            &&& request.method == head.method
            &&& request.endpoint == head.endpoint
            &&& request.peer == peer
            &&& request.header == head.header
            &&& request.query_params == head.query_params
        },
    }
}

/// Takes the body of a request; `None` where it could not be read.
pub fn on_body<P>(head: RequestHead<Method>, peer: P, body: Option<Vec<u8>>) -> (step: RequestStep<
    P,
>)
    ensures
        settled(head, peer, body, step),
{
    let kind = content_type(&head.header);
    match take_body(kind.as_str(), body) {
        BodyStep::Refuse(response) => RequestStep::Refuse(response),
        BodyStep::Accept(body_params) => RequestStep::Complete(
            HttpRequest::new(
                head.method,
                head.endpoint,
                peer,
                head.header,
                head.query_params,
                body_params,
            ),
        ),
    }
}

/// Whether `after` is `before` with the action as the handler of the method and the endpoint.
pub open spec fn routed<A>(
    before: Http<A>,
    after: Http<A>,
    method: Method,
    endpoint: Seq<char>,
    action: A,
) -> bool {
    let key = (method, endpoint);
    &&& after.handlers@.contains_key(key)
    &&& stands_for(after.handlers@[key], method, endpoint, action)
    &&& after.handlers@ == before.handlers@.insert(key, after.handlers@[key])
    &&& after.pre_handlers == before.pre_handlers
    &&& after.post_handlers == before.post_handlers
    &&& after.config == before.config
    &&& after.use_tls == before.use_tls
}

/// Whether `after` is `before` with the action as the filter of the phase and the pattern.
pub open spec fn filtered<A>(
    before: Http<A>,
    after: Http<A>,
    phase: Phase,
    pattern: Seq<char>,
    action: A,
) -> bool {
    let filters = after.filters_of(phase);
    &&& filters.contains_key(pattern)
    &&& stands_for(filters[pattern], Method::ANY, pattern, action)
    &&& filters == before.filters_of(phase).insert(pattern, filters[pattern])
    &&& phase == Phase::PreHandle ==> after.post_handlers == before.post_handlers
    &&& phase == Phase::PostHandle ==> after.pre_handlers == before.pre_handlers
    &&& after.handlers == before.handlers
    &&& after.config == before.config
    &&& after.use_tls == before.use_tls
}

/// Whether a server has no handlers and no settings.
pub open spec fn bare<A>(http: Http<A>) -> bool {
    &&& http.handlers@ == Map::<(Method, Seq<char>), Handler<A>>::empty()
    &&& http.pre_handlers@ == Map::<Seq<char>, Handler<A>>::empty()
    &&& http.post_handlers@ == Map::<Seq<char>, Handler<A>>::empty()
    &&& http.config is None
    &&& !http.use_tls
}

impl<A> Http<A> {
    /// The filters of a phase.
    pub open spec fn filters_of(&self, phase: Phase) -> Map<Seq<char>, Handler<A>> {
        match phase {
            Phase::PreHandle => self.pre_handlers@,
            Phase::PostHandle => self.post_handlers@,
        }
    }

    /// A server without handlers, in the clear.
    pub fn new() -> (http: Self)
        ensures
            bare(http),
    {
        Self {
            handlers: Table::new(),
            pre_handlers: Table::new(),
            post_handlers: Table::new(),
            config: None,
            use_tls: false,
        }
    }

    /// Sets the TLS settings.
    pub fn set_config(&mut self, config: Arc<ServerConfig>)
        ensures
            *final(self) == (Http { config: Some(config), ..*old(self) }),
    {
        self.config = Some(config);
    }

    /// The TLS settings with which a connection begins, if it runs over TLS.
    pub fn tls_settings(&self) -> (settings: Option<Arc<ServerConfig>>)
        requires
            self.use_tls ==> self.config is Some,
        ensures
            settings == (if self.use_tls {
                self.config
            } else {
                None
            }),
    {
        if self.use_tls {
            match &self.config {
                Some(config) => Some(share_config(config)),
                None => None,
            }
        } else {
            None
        }
    }

    /// Sets the handler for a method and an endpoint, in place of the one that was there.
    pub fn set_handler(&mut self, method: Method, endpoint: &str, action: A)
        ensures
            routed(*old(self), *final(self), method, endpoint@, action),
    {
        let handler = Handler::new(method, endpoint, action);
        self.handlers.insert((method, copy_text(endpoint)), handler);
    }

    /// Sets the filter that runs before the handlers at or below a pattern.
    pub fn set_pre_handler(&mut self, pattern: &str, action: A)
        ensures
            filtered(*old(self), *final(self), Phase::PreHandle, pattern@, action),
    {
        let handler = Handler::new(Method::ANY, pattern, action);
        self.pre_handlers.insert(copy_text(pattern), handler);
    }

    /// Sets the filter that runs after the handlers at or below a pattern.
    pub fn set_post_handler(&mut self, pattern: &str, action: A)
        ensures
            filtered(*old(self), *final(self), Phase::PostHandle, pattern@, action),
    {
        let handler = Handler::new(Method::ANY, pattern, action);
        self.post_handlers.insert(copy_text(pattern), handler);
    }

    /// Finds the wildcard handler of an endpoint.
    pub fn search_wildcard(&self, method: &Method, endpoint: &str) -> (found: Option<&Handler<A>>)
        ensures
            match found {
                Some(handler) => wildcard_handler(
                    self.handlers@,
                    *method,
                    split(endpoint@, '/'),
                ) == Some(*handler),
                None => wildcard_handler(self.handlers@, *method, split(endpoint@, '/')) is None,
            },
    {
        find_wildcard(&self.handlers, method, endpoint)
    }

    /// Finds the handler of a request, or the response to a request that has none.
    pub fn dispatch(&self, method: &Method, endpoint: &str) -> (found: Dispatch<'_, A>)
        ensures
            match found {
                Dispatch::Handle(handler) => request_handler(
                    self.handlers@,
                    *method,
                    endpoint@,
                ) == Some(*handler),
                Dispatch::Missing(response) => {
                    &&& request_handler(self.handlers@, *method, endpoint@) is None
                    &&& response == NOT_FOUND
                },
            },
    {
        match find_handler(&self.handlers, method, endpoint) {
            Some(handler) => Dispatch::Handle(handler),
            None => Dispatch::Missing(NOT_FOUND),
        }
    }

    /// Finds the filters of a phase for an endpoint, in the order in which they run.
    pub fn filters(&self, phase: Phase, endpoint: &str) -> (found: Vec<&Handler<A>>)
        ensures
            targets(found@) == filters_along(self.filters_of(phase), split(endpoint@, '/')),
    {
        match phase {
            Phase::PreHandle => find_filters(&self.pre_handlers, endpoint),
            Phase::PostHandle => find_filters(&self.post_handlers, endpoint),
        }
    }
}

/// Of several header lines with one name the last counts, and a name that no line has keeps
/// what it had.
pub proof fn law_last_field_counts(
    fields: Map<Seq<char>, Seq<char>>,
    lines: Seq<Seq<char>>,
    at: int,
    name: Seq<char>,
)
    requires
        0 <= at < lines.len(),
        forall|k: int| at < k < lines.len() ==> stored_name(#[trigger] lines[k]) != stored_name(
            lines[at],
        ),
    ensures
        fields_over(fields, lines).contains_key(stored_name(lines[at])),
        fields_over(fields, lines)[stored_name(lines[at])] == field_value(lines[at]),
        (forall|k: int| 0 <= k < lines.len() ==> stored_name(#[trigger] lines[k]) != name) ==> {
            &&& fields_over(fields, lines).contains_key(name) == fields.contains_key(name)
            &&& fields.contains_key(name) ==> fields_over(fields, lines)[name] == fields[name]
        },
    decreases lines.len(),
{
    let shorter = lines.drop_last();
    lemma_other_fields_stay(fields, lines, name);
    if at < shorter.len() {
        assert forall|k: int| at < k < shorter.len() implies stored_name(#[trigger] shorter[k])
            != stored_name(shorter[at]) by {
            assert(shorter[k] == lines[k]);
        }
        law_last_field_counts(fields, shorter, at, name);
        assert(stored_name(lines[lines.len() - 1]) != stored_name(lines[at]));
    }
}

proof fn lemma_other_fields_stay(
    fields: Map<Seq<char>, Seq<char>>,
    lines: Seq<Seq<char>>,
    name: Seq<char>,
)
    ensures
        (forall|k: int| 0 <= k < lines.len() ==> stored_name(#[trigger] lines[k]) != name) ==> {
            &&& fields_over(fields, lines).contains_key(name) == fields.contains_key(name)
            &&& fields.contains_key(name) ==> fields_over(fields, lines)[name] == fields[name]
        },
    decreases lines.len(),
{
    if lines.len() > 0 {
        let shorter = lines.drop_last();
        lemma_other_fields_stay(fields, shorter, name);
        if forall|k: int| 0 <= k < lines.len() ==> stored_name(#[trigger] lines[k]) != name {
            assert forall|k: int| 0 <= k < shorter.len() implies stored_name(#[trigger] shorter[k])
                != name by {
                assert(shorter[k] == lines[k]);
            }
            assert(stored_name(lines[lines.len() - 1]) != name);
        }
    }
}

/// The body is as long as the last header line for it says, if that is a number.
pub proof fn law_last_length_counts(
    fields: Map<Seq<char>, Seq<char>>,
    lines: Seq<Seq<char>>,
    at: int,
    length: usize,
)
    requires
        0 <= at < lines.len(),
        stored_name(lines[at]) == "content-length"@,
        number_of(field_value(lines[at])) == Some(length),
        forall|k: int| at < k < lines.len() ==> stored_name(#[trigger] lines[k]) != "content-length"@,
    ensures
        declared_length(fields_over(fields, lines), "content-length"@) == length,
{
    law_last_field_counts(fields, lines, at, "content-length"@);
}

/// A route that has been set is served by its action, and other routes by theirs as before.
pub proof fn law_route_is_served<A>(
    before: Http<A>,
    after: Http<A>,
    method: Method,
    endpoint: Seq<char>,
    action: A,
    other: (Method, Seq<char>),
)
    requires
        routed(before, after, method, endpoint, action),
    ensures
        request_handler(after.handlers@, method, endpoint) matches Some(handler) && handler.action
            == action,
        before.handlers@.contains_key(other) && other != (method, endpoint) ==> request_handler(
            after.handlers@,
            other.0,
            other.1,
        ) == request_handler(before.handlers@, other.0, other.1),
{
    assert(after.handlers@.contains_key((method, endpoint)));
    if before.handlers@.contains_key(other) && other != (method, endpoint) {
        assert(other == (other.0, other.1));
        assert(after.handlers@.contains_key(other));
    }
}

/// The names of fields count in any case of ASCII letters: lines whose names differ in case
/// only store the same field.
pub proof fn law_field_names_ignore_case(first: Seq<char>, second: Seq<char>)
    requires
        same_but_case(raw_name(first), raw_name(second)),
    ensures
        stored_name(first) == stored_name(second),
{
    law_case_is_folded(raw_name(first), raw_name(second));
}

/// Whether every handler is kept under its own method and endpoint, and every filter under its
/// own pattern, for any method.
pub open spec fn well_kept<A>(http: Http<A>) -> bool {
    &&& forall|method: Method, endpoint: Seq<char>| #[trigger]
        http.handlers@.contains_key((method, endpoint)) ==> {
            let handler = http.handlers@[(method, endpoint)];
            handler.method == method && handler.endpoint@ == endpoint
        }
    &&& forall|phase: Phase, pattern: Seq<char>| #[trigger]
        http.filters_of(phase).contains_key(pattern) ==> {
            let filter = http.filters_of(phase)[pattern];
            filter.method == Method::ANY && filter.endpoint@ == pattern
        }
}

/// Handlers and filters are kept under what they stand for from the beginning on, whatever
/// handlers and filters are set.
pub proof fn law_handlers_are_well_kept<A>(
    before: Http<A>,
    after: Http<A>,
    method: Method,
    phase: Phase,
    pattern: Seq<char>,
    action: A,
)
    ensures
        bare(before) ==> well_kept(before),
        well_kept(before) && routed(before, after, method, pattern, action) ==> well_kept(after),
        well_kept(before) && filtered(before, after, phase, pattern, action) ==> well_kept(after),
{
    if well_kept(before) && routed(before, after, method, pattern, action) {
        assert forall|m: Method, endpoint: Seq<char>| #[trigger]
            after.handlers@.contains_key((m, endpoint)) implies {
            let handler = after.handlers@[(m, endpoint)];
            handler.method == m && handler.endpoint@ == endpoint
        } by {
            if (m, endpoint) != (method, pattern) {
                assert(before.handlers@.contains_key((m, endpoint)));
            }
        }
        assert forall|p: Phase, text: Seq<char>| #[trigger]
            after.filters_of(p).contains_key(text) implies {
            let filter = after.filters_of(p)[text];
            filter.method == Method::ANY && filter.endpoint@ == text
        } by {
            assert(before.filters_of(p).contains_key(text));
        }
    }
    if well_kept(before) && filtered(before, after, phase, pattern, action) {
        assert forall|p: Phase, text: Seq<char>| #[trigger]
            after.filters_of(p).contains_key(text) implies {
            let filter = after.filters_of(p)[text];
            filter.method == Method::ANY && filter.endpoint@ == text
        } by {
            if p != phase || text != pattern {
                assert(before.filters_of(p).contains_key(text));
            }
        }
    }
}

/// A header line stores its value, which is what stands between its first colon and the next one
/// or the end of the line, without the white space around it, under its name in lower case; the
/// other fields stay.
pub proof fn law_field_is_stored_in_lower_case(
    fields: Map<Seq<char>, Seq<char>>,
    lead: Seq<char>,
    name: Seq<char>,
    before: Seq<char>,
    gap: Seq<char>,
    value: Seq<char>,
    after: Seq<char>,
    more: Seq<char>,
    tail: Seq<char>,
)
    requires
        forall|i: int| 0 <= i < lead.len() ==> is_white(#[trigger] lead[i]),
        forall|i: int| 0 <= i < before.len() ==> is_white(#[trigger] before[i]),
        forall|i: int| 0 <= i < gap.len() ==> is_white(#[trigger] gap[i]),
        forall|i: int| 0 <= i < after.len() ==> is_white(#[trigger] after[i]),
        forall|i: int| 0 <= i < tail.len() ==> is_white(#[trigger] tail[i]),
        !name.contains(':'),
        !value.contains(':'),
        name.len() > 0,
        !is_white(name[0]) && !is_white(name.last()),
        value.len() > 0 ==> !is_white(value[0]) && !is_white(value.last()),
        more.len() > 0 ==> more[0] == ':',
        is_ascii_chars(name),
        is_ascii_chars(before),
    ensures
        ({
            let line = lead + name + before + seq![':'] + gap + value + after + more + tail;
            &&& fields_after(fields, line) == fields.insert(lowercase(name), value)
            &&& !ends_header(line)
        }),
{
    let line = lead + name + before + seq![':'] + gap + value + after + more + tail;
    law_field_line_is_read(lead, name, before, gap, value, after, more, tail);
    let whole = name + before;
    assert(is_ascii_chars(whole));
    let lower = lowercase(name);
    assert(lowercase(whole) =~= lower + before) by {
        assert forall|i: int| 0 <= i < before.len() implies lower_char(before[i]) == before[i] by {
            assert(is_white(before[i]));
        }
    }
    assert(is_white(lower_char(name[0])) == is_white(name[0]));
    assert(is_white(lower_char(name.last())) == is_white(name.last()));
    let none = Seq::<char>::empty();
    law_trimming_bares_the_core(none, lower, before, CharClass::White);
    assert(none + lower + before =~= lower + before);
}

/// A client takes compressed responses exactly where the field for that is there and `gzip` is a
/// part of it.
pub proof fn law_gzip_is_asked_for(fields: Map<Seq<char>, Seq<char>>, front: Seq<char>, end: Seq<char>)
    ensures
        !fields.contains_key("accept-encoding"@) ==> !gzip_accepted(fields),
        fields.contains_key("accept-encoding"@) && fields["accept-encoding"@] == front + "gzip"@
            + end ==> gzip_accepted(fields),
        gzip_accepted(fields) ==> fields.contains_key("accept-encoding"@) && exists|at: int|
            0 <= at <= fields["accept-encoding"@].len() - 4 && fields["accept-encoding"@]
                == #[trigger] fields["accept-encoding"@].take(at) + "gzip"@
                + fields["accept-encoding"@].skip(at + 4),
{
    reveal_strlit("gzip");
    law_occurrence_is_a_part(front, "gzip"@, end, fields["accept-encoding"@]);
}

/// A request is complete exactly where its body was read and is understood as the type that the
/// header declares, plain text where it declares none: it keeps its method, its endpoint, its
/// header and its parameters, and has the value that the body was read as. Any other is refused as
/// a bad request.
pub proof fn law_request_is_completed<P>(
    head: RequestHead<Method>,
    peer: P,
    body: Option<Vec<u8>>,
    step: RequestStep<P>,
)
    requires
        settled(head, peer, body, step),
    ensures
        ({
            let fields = field_texts(head.header@);
            let kind = lowercase(
                if fields.contains_key("content-type"@) {
                    fields["content-type"@]
                } else {
                    "text/plain"@
                },
            );
            &&& step is Complete <==> body is Some && !body_refused(kind, body->Some_0@)
            &&& step matches RequestStep::Refuse(response) ==> response == BAD_REQUEST
            &&& step matches RequestStep::Complete(request) ==> {
                &&& request.method == head.method
                &&& request.endpoint@ == head.endpoint@
                &&& request.peer == peer
                &&& field_texts(request.header@) == fields
                &&& request.query_params == head.query_params
                &&& kind == "text/plain"@ ==> string_held(request.body_params) == Some(
                    text_or_empty(body->Some_0@),
                )
                &&& kind == "application/json"@ ==> parsed_json(text_or_empty(body->Some_0@))
                    == Some(request.body_params)
                &&& kind != "text/plain"@ && kind != "application/json"@ ==> is_null(
                    request.body_params,
                )
            }
        }),
{
    law_body_is_declared(field_texts(head.header@), "content-type"@);
    if let Some(bytes) = body {
        if let RequestStep::Complete(request) = step {
            let lower = lowercase(declared_type(field_texts(head.header@), "content-type"@));
            law_body_is_read_by_its_type(lower, bytes@, request.body_params);
        }
    }
}

/// Setting a route touches that route only: which others there are, and what they do, stays.
pub proof fn law_other_routes_stay<A>(
    before: Http<A>,
    after: Http<A>,
    method: Method,
    endpoint: Seq<char>,
    action: A,
    other_method: Method,
    other_endpoint: Seq<char>,
)
    requires
        routed(before, after, method, endpoint, action),
        other_method != method || other_endpoint != endpoint,
    ensures
        ({
            let other = (other_method, other_endpoint);
            &&& after.handlers@.contains_key(other) == before.handlers@.contains_key(other)
            &&& before.handlers@.contains_key(other) ==> after.handlers@[other]
                == before.handlers@[other]
        }),
        after.handlers@.contains_key((method, endpoint)),
        after.handlers@[(method, endpoint)].action == action,
        after.handlers@[(method, endpoint)].method == method,
        after.handlers@[(method, endpoint)].endpoint@ == endpoint,
        after.config == before.config,
{
}

/// A filter that has been set runs for every endpoint that is its pattern, or that its pattern is
/// a leading part of up to a slash; the filters of the other phase, and the handlers, stay.
pub proof fn law_filter_is_run<A>(
    before: Http<A>,
    after: Http<A>,
    phase: Phase,
    pattern: Seq<char>,
    action: A,
    rest: Seq<char>,
    other: Seq<char>,
)
    requires
        filtered(before, after, phase, pattern, action),
    ensures
        exists|i: int|
            0 <= i < filters_along(after.filters_of(phase), split(pattern, '/')).len() && (
            #[trigger] filters_along(after.filters_of(phase), split(pattern, '/'))[i]).action
                == action,
        exists|i: int|
            0 <= i < filters_along(
                after.filters_of(phase),
                split(pattern + seq!['/'] + rest, '/'),
            ).len() && (#[trigger] filters_along(
                after.filters_of(phase),
                split(pattern + seq!['/'] + rest, '/'),
            )[i]).action == action,
        other != pattern ==> after.filters_of(phase).contains_key(other) == before.filters_of(
            phase,
        ).contains_key(other),
        other != pattern && before.filters_of(phase).contains_key(other) ==> after.filters_of(
            phase,
        )[other] == before.filters_of(phase)[other],
        after.filters_of(Phase::PreHandle) == after.pre_handlers@,
        after.filters_of(Phase::PostHandle) == after.post_handlers@,
        phase is PreHandle ==> after.post_handlers == before.post_handlers,
        phase is PostHandle ==> after.pre_handlers == before.pre_handlers,
        after.handlers == before.handlers,
{
    let filters = after.filters_of(phase);
    let ends = law_filters_of_an_endpoint(filters, pattern);
    assert(pattern.take(pattern.len() as int) =~= pattern);
    assert(ends.contains(pattern.len() as int));
    let i = choose|i: int| 0 <= i < ends.len() && ends[i] == pattern.len();
    assert(filters_along(filters, split(pattern, '/'))[i].action == action);
    let below = pattern + seq!['/'] + rest;
    let below_ends = law_filters_of_an_endpoint(filters, below);
    assert(below.take(pattern.len() as int) =~= pattern);
    assert(below[pattern.len() as int] == '/');
    assert(below_ends.contains(pattern.len() as int));
    let k = choose|k: int| 0 <= k < below_ends.len() && below_ends[k] == pattern.len();
    assert(filters_along(filters, split(below, '/'))[k].action == action);
}

/// A header line, with whatever characters in its name, stores its value under the lower case form
/// of what stands before its first colon, without the white space around it; a line without a colon
/// stores the empty value under all of it.
pub proof fn law_field_is_stored_by_any_name(
    fields: Map<Seq<char>, Seq<char>>,
    lead: Seq<char>,
    name: Seq<char>,
    before: Seq<char>,
    gap: Seq<char>,
    value: Seq<char>,
    after: Seq<char>,
    more: Seq<char>,
    tail: Seq<char>,
)
    requires
        forall|i: int| 0 <= i < lead.len() ==> is_white(#[trigger] lead[i]),
        forall|i: int| 0 <= i < before.len() ==> is_white(#[trigger] before[i]),
        forall|i: int| 0 <= i < gap.len() ==> is_white(#[trigger] gap[i]),
        forall|i: int| 0 <= i < after.len() ==> is_white(#[trigger] after[i]),
        forall|i: int| 0 <= i < tail.len() ==> is_white(#[trigger] tail[i]),
        !name.contains(':'),
        !value.contains(':'),
        name.len() > 0 ==> !is_white(name[0]) && !is_white(name.last()),
        name.len() == 0 ==> before.len() == 0,
        value.len() > 0 ==> !is_white(value[0]) && !is_white(value.last()),
        more.len() > 0 ==> more[0] == ':',
    ensures
        fields_after(
            fields,
            lead + name + before + seq![':'] + gap + value + after + more + tail,
        ) == fields.insert(trimmed(lowercase(name + before)), value),
        name.len() > 0 ==> fields_after(fields, lead + name + tail) == fields.insert(
            trimmed(lowercase(name)),
            Seq::<char>::empty(),
        ),
{
    law_field_line_is_read(lead, name, before, gap, value, after, more, tail);
    if name.len() > 0 {
        law_line_without_colon_is_a_name(lead, name, tail);
    }
}

} // verus!
