//! The HTTP protocol of the server that gives each connection a thread.
use std::sync::Arc;
use rustls::ServerConfig;
use vstd::prelude::*;
use crate::applications::async_web::default::{BAD_REQUEST, NOT_FOUND};
use crate::applications::message::{
    body_length, body_refused, body_taken_as, body_type, declared_length, declared_type,
    ends_header, field_texts, field_value, law_body_is_declared, law_body_is_read_by_its_type,
    law_field_line_is_read, law_line_without_colon_is_a_name, raw_name, split_field, store_field, take_body, BodyStep, Header,
    RequestHead,
};
use crate::applications::web::http::{HttpRequest, Method};
use crate::encoding::{lowercase, text_or_empty};
use crate::json::{is_null, parsed_json, string_held};
use crate::applications::response::{field_line, law_field_is_read_back};
use crate::number::number_of;
use crate::routing::{
    find_handler, find_wildcard, request_handler, wildcard_handler,
};
use crate::table::{
    distinct_keys, lemma_position_is, lemma_stored, listing_map, stored, Table,
};
use crate::text::{
    copy_text, is_white, law_trimming_bares_the_core, split, trim, trim_start, trimmed, CharClass,
};
use crate::tls::share_config;

verus! {

/// An action together with the method and the endpoint for which it stands.
pub type Handler<A> = crate::routing::Handler<Method, A>;

/// An HTTP server with handlers whose actions are of the type `A`.
pub struct Http<A> {
    pub handlers: Table<(Method, String), Handler<A>>,
    pub config: Option<Arc<ServerConfig>>,
}

/// Whether `handler` does `action` for the method and the endpoint.
pub open spec fn stands_for<A>(
    handler: Handler<A>,
    method: Method,
    endpoint: Seq<char>,
    action: A,
) -> bool {
    handler.method == method && handler.endpoint@ == endpoint && handler.action == action
}

/// Whether `after` is `before` with the action as the handler of the method and the endpoint.
pub open spec fn routed<A>(
    before: Http<A>,
    after: Http<A>,
    method: Method,
    endpoint: Seq<char>,
    action: A,
) -> bool {
    let key = (method, endpoint);
    &&& after.handlers@.contains_key(key)
    &&& stands_for(after.handlers@[key], method, endpoint, action)
    &&& after.handlers@ == before.handlers@.insert(key, after.handlers@[key])
    &&& after.config == before.config
}

/// Whether a server has no handlers and no settings.
pub open spec fn bare<A>(http: Http<A>) -> bool {
    http.handlers@ == Map::<(Method, Seq<char>), Handler<A>>::empty() && http.config is None
}

/// The name under which the field of a header line is stored: as it stands there.
pub open spec fn stored_name(line: Seq<char>) -> Seq<char> {
    trimmed(raw_name(line))
}

/// The fields after a header line.
pub open spec fn fields_after(fields: Map<Seq<char>, Seq<char>>, line: Seq<char>) -> Map<
    Seq<char>,
    Seq<char>,
> {
    fields.insert(stored_name(line), field_value(line))
}

/// The fields after a run of header lines.
pub open spec fn fields_over(fields: Map<Seq<char>, Seq<char>>, lines: Seq<Seq<char>>) -> Map<
    Seq<char>,
    Seq<char>,
>
    decreases lines.len(),
{
    if lines.len() == 0 {
        fields
    } else {
        fields_after(fields_over(fields, lines.drop_last()), lines.last())
    }
}

/// What to do after the body of a request.
pub enum RequestStep<P> {
    /// Send this response and close.
    Refuse(&'static str),
    /// The request is complete.
    Complete(HttpRequest<P>),
}

/// Whom a request goes to.
pub enum Dispatch<'a, A> {
    /// To this handler.
    Handle(&'a Handler<A>),
    /// To none: send this response.
    Missing(&'static str),
}

/// Takes a line of the header, and tells whether the header goes on; `None` where no line
/// could be read.
pub fn on_header_line(header: &mut Header, line: Option<&str>) -> (more: bool)
    ensures
        more == (line matches Some(text) && !ends_header(text@)),
        more ==> field_texts(final(header)@) == fields_after(
            field_texts(old(header)@),
            line->Some_0@,
        ),
        !more ==> *final(header) == *old(header),
{
    match line {
        None => false,
        Some(text) => {
            let whole = trim(text);
            if whole.as_str().is_empty() {
                false
            } else {
                let (name, value) = split_field(text);
                store_field(header, name.as_str(), value);
                true
            }
        },
    }
}

/// The length of the body that a header declares.
pub fn content_length(header: &Header) -> (length: usize)
    ensures
        length == declared_length(field_texts(header@), "Content-Length"@),
{
    body_length(header, "Content-Length")
}

/// The type of the body that a header declares.
pub fn content_type(header: &Header) -> (kind: String)
    ensures
        kind@ == declared_type(field_texts(header@), "Content-Type"@),
{
    body_type(header, "Content-Type")
}

/// What comes of a request whose body has been read: it is refused where the body is not
/// understood, and else complete.
pub open spec fn settled<P>(
    head: RequestHead<Method>,
    peer: P,
    body: Option<Vec<u8>>,
    step: RequestStep<P>,
) -> bool {
    let lower = lowercase(declared_type(field_texts(head.header@), "Content-Type"@));
    match step {
        RequestStep::Refuse(response) => {
            &&& response == BAD_REQUEST
            &&& body matches Some(bytes) ==> body_refused(lower, bytes@)
        },
        RequestStep::Complete(request) => {
            &&& body matches Some(bytes)
            &&& !body_refused(lower, bytes@)
            &&& body_taken_as(lower, bytes@, request.body_params)
            &&& request.method == head.method
            &&& request.endpoint == head.endpoint
            &&& request.peer == peer
            &&& request.header == head.header
            &&& request.query_params == head.query_params
        },
    }
}

/// Takes the body of a request; `None` where it could not be read.
pub fn on_body<P>(head: RequestHead<Method>, peer: P, body: Option<Vec<u8>>) -> (step: RequestStep<
    P,
>)
    ensures
        settled(head, peer, body, step),
{
    let kind = content_type(&head.header);
    match take_body(kind.as_str(), body) {
        BodyStep::Refuse(response) => RequestStep::Refuse(response),
        BodyStep::Accept(body_params) => RequestStep::Complete(
            HttpRequest::new(
                head.method,
                head.endpoint,
                head.header,
                head.query_params,
                body_params,
                peer,
            ),
        ),
    }
}

impl<A> Http<A> {
    /// A server without handlers, in the clear.
    pub fn new() -> (http: Self)
        ensures
            bare(http),
    {
        Self { handlers: Table::new(), config: None }
    }

    /// Takes over the TLS settings.
    pub fn set_config(&mut self, config: &Option<Arc<ServerConfig>>)
        ensures
            *final(self) == (Http { config: *config, ..*old(self) }),
    {
        self.config = match config {
            Some(config) => Some(share_config(config)),
            None => None,
        };
    }

    /// The TLS settings; a connection runs over TLS where there are any.
    pub fn get_config(&self) -> (config: &Option<Arc<ServerConfig>>)
        ensures
            *config == self.config,
    {
        &self.config
    }

    /// Sets the handler for a method and an endpoint, in place of the one that was there.
    pub fn handle(&mut self, method: Method, endpoint: &str, action: A)
        ensures
            routed(*old(self), *final(self), method, endpoint@, action),
    {
        let handler = Handler::new(method, endpoint, action);
        self.handlers.insert((method, copy_text(endpoint)), handler);
    }

    /// Finds the wildcard handler of an endpoint.
    pub fn search_wildcard(&self, method: &Method, endpoint: &str) -> (found: Option<&Handler<A>>)
        ensures
            match found {
                Some(handler) => wildcard_handler(
                    self.handlers@,
                    *method,
                    split(endpoint@, '/'),
                ) == Some(*handler),
                None => wildcard_handler(self.handlers@, *method, split(endpoint@, '/')) is None,
            },
    {
        find_wildcard(&self.handlers, method, endpoint)
    }

    /// Finds the handler of a request, or the response to a request that has none.
    pub fn dispatch(&self, method: &Method, endpoint: &str) -> (found: Dispatch<'_, A>)
        ensures
            match found {
                Dispatch::Handle(handler) => request_handler(
                    self.handlers@,
                    *method,
                    endpoint@,
                ) == Some(*handler),
                Dispatch::Missing(response) => {
                    &&& request_handler(self.handlers@, *method, endpoint@) is None
                    &&& response == NOT_FOUND
                },
            },
    {
        match find_handler(&self.handlers, method, endpoint) {
            Some(handler) => Dispatch::Handle(handler),
            None => Dispatch::Missing(NOT_FOUND),
        }
    }
}

/// Of several header lines with one name the last counts, and a name that no line has keeps
/// what it had.
pub proof fn law_last_field_counts(
    fields: Map<Seq<char>, Seq<char>>,
    lines: Seq<Seq<char>>,
    at: int,
    name: Seq<char>,
)
    requires
        0 <= at < lines.len(),
        forall|k: int| at < k < lines.len() ==> stored_name(#[trigger] lines[k]) != stored_name(
            lines[at],
        ),
    ensures
        fields_over(fields, lines).contains_key(stored_name(lines[at])),
        fields_over(fields, lines)[stored_name(lines[at])] == field_value(lines[at]),
        (forall|k: int| 0 <= k < lines.len() ==> stored_name(#[trigger] lines[k]) != name) ==> {
            &&& fields_over(fields, lines).contains_key(name) == fields.contains_key(name)
            &&& fields.contains_key(name) ==> fields_over(fields, lines)[name] == fields[name]
        },
    decreases lines.len(),
{
    let shorter = lines.drop_last();
    lemma_other_fields_stay(fields, lines, name);
    if at < shorter.len() {
        assert forall|k: int| at < k < shorter.len() implies stored_name(#[trigger] shorter[k])
            != stored_name(shorter[at]) by {
            assert(shorter[k] == lines[k]);
        }
        law_last_field_counts(fields, shorter, at, name);
        assert(stored_name(lines[lines.len() - 1]) != stored_name(lines[at]));
    }
}

proof fn lemma_other_fields_stay(
    fields: Map<Seq<char>, Seq<char>>,
    lines: Seq<Seq<char>>,
    name: Seq<char>,
)
    ensures
        (forall|k: int| 0 <= k < lines.len() ==> stored_name(#[trigger] lines[k]) != name) ==> {
            &&& fields_over(fields, lines).contains_key(name) == fields.contains_key(name)
            &&& fields.contains_key(name) ==> fields_over(fields, lines)[name] == fields[name]
        },
    decreases lines.len(),
{
    if lines.len() > 0 {
        let shorter = lines.drop_last();
        lemma_other_fields_stay(fields, shorter, name);
        if forall|k: int| 0 <= k < lines.len() ==> stored_name(#[trigger] lines[k]) != name {
            assert forall|k: int| 0 <= k < shorter.len() implies stored_name(#[trigger] shorter[k])
                != name by {
                assert(shorter[k] == lines[k]);
            }
            assert(stored_name(lines[lines.len() - 1]) != name);
        }
    }
}

/// The body is as long as the last header line for it says, if that is a number.
pub proof fn law_last_length_counts(
    fields: Map<Seq<char>, Seq<char>>,
    lines: Seq<Seq<char>>,
    at: int,
    length: usize,
)
    requires
        0 <= at < lines.len(),
        stored_name(lines[at]) == "Content-Length"@,
        number_of(field_value(lines[at])) == Some(length),
        forall|k: int| at < k < lines.len() ==> stored_name(#[trigger] lines[k]) != "Content-Length"@,
    ensures
        declared_length(fields_over(fields, lines), "Content-Length"@) == length,
{
    law_last_field_counts(fields, lines, at, "Content-Length"@);
}

/// A route that has been set is served by its action, and other routes by theirs as before.
pub proof fn law_route_is_served<A>(
    before: Http<A>,
    after: Http<A>,
    method: Method,
    endpoint: Seq<char>,
    action: A,
    other: (Method, Seq<char>),
)
    requires
        routed(before, after, method, endpoint, action),
    ensures
        request_handler(after.handlers@, method, endpoint) matches Some(handler) && handler.action
            == action,
        before.handlers@.contains_key(other) && other != (method, endpoint) ==> request_handler(
            after.handlers@,
            other.0,
            other.1,
        ) == request_handler(before.handlers@, other.0, other.1),
{
    assert(after.handlers@.contains_key((method, endpoint)));
    if before.handlers@.contains_key(other) && other != (method, endpoint) {
        assert(other == (other.0, other.1));
        assert(after.handlers@.contains_key(other));
    }
}

/// The lines of a header.
pub open spec fn header_lines(fields: Seq<(Seq<char>, Seq<char>)>) -> Seq<Seq<char>> {
    Seq::new(fields.len(), |i: int| field_line(fields[i].0, fields[i].1))
}

/// Whether a text has neither a colon in it nor white space around it.
pub open spec fn plain(text: Seq<char>) -> bool {
    !text.contains(':') && trimmed(text) == text
}

/// The header of a response is read back as it was written, provided that its names and
/// values have neither colons in them nor white space around them: every line is taken as a
/// field, the empty line ends the header, and the fields are those of the response.
pub proof fn law_header_is_read_back(fields: Seq<(Seq<char>, Seq<char>)>)
    requires
        distinct_keys(fields),
        forall|i: int| 0 <= i < fields.len() ==> plain((#[trigger] fields[i]).0) && plain(
            fields[i].1,
        ),
    ensures
        fields_over(Map::empty(), header_lines(fields)) == listing_map(fields),
        forall|i: int| 0 <= i < fields.len() ==> !ends_header(#[trigger] header_lines(fields)[i]),
        ends_header("\r\n"@),
    decreases fields.len(),
{
    lemma_blank_line_ends();
    if fields.len() > 0 {
        let shorter = fields.drop_last();
        let (name, value) = fields.last();
        assert forall|i: int| 0 <= i < shorter.len() implies plain((#[trigger] shorter[i]).0)
            && plain(shorter[i].1) by {
            assert(shorter[i] == fields[i]);
        }
        assert forall|i: int, j: int| 0 <= i < j < shorter.len() implies (#[trigger] shorter[i]).0
            != (#[trigger] shorter[j]).0 by {
            assert(shorter[i] == fields[i] && shorter[j] == fields[j]);
        }
        law_header_is_read_back(shorter);
        assert(fields[fields.len() - 1] == (name, value));
        law_field_is_read_back(name, value);
        assert(header_lines(fields).drop_last() =~= header_lines(shorter));
        lemma_stored(shorter, name, value);
        lemma_position_is(shorter, name, shorter.len() as int);
        assert(stored(shorter, name, value) =~= fields);
        assert forall|i: int| 0 <= i < fields.len() implies !ends_header(
            #[trigger] header_lines(fields)[i],
        ) by {
            let (name, value) = fields[i];
            law_field_is_read_back(name, value);
        }
    } else {
        assert(fields_over(Map::empty(), header_lines(fields)) =~= listing_map(fields));
    }
}

proof fn lemma_blank_line_ends()
    ensures
        ends_header("\r\n"@),
{
    reveal_strlit("\r\n");
    let line = "\r\n"@;
    assert(line.drop_first().drop_first() =~= Seq::<char>::empty());
    reveal_with_fuel(trim_start, 3);
    assert(trim_start(line, CharClass::White) =~= Seq::<char>::empty());
}

/// Whether every handler is kept under its own method and endpoint.
pub open spec fn well_kept<A>(http: Http<A>) -> bool {
    forall|method: Method, endpoint: Seq<char>| #[trigger]
        http.handlers@.contains_key((method, endpoint)) ==> {
            let handler = http.handlers@[(method, endpoint)];
            handler.method == method && handler.endpoint@ == endpoint
        }
}

/// Handlers are kept under what they stand for from the beginning on, whatever handlers are
/// set.
pub proof fn law_handlers_are_well_kept<A>(
    before: Http<A>,
    after: Http<A>,
    method: Method,
    endpoint: Seq<char>,
    action: A,
)
    ensures
        bare(before) ==> well_kept(before),
        well_kept(before) && routed(before, after, method, endpoint, action) ==> well_kept(after),
{
    if well_kept(before) && routed(before, after, method, endpoint, action) {
        assert forall|m: Method, text: Seq<char>| #[trigger]
            after.handlers@.contains_key((m, text)) implies {
            let handler = after.handlers@[(m, text)];
            handler.method == m && handler.endpoint@ == text
        } by {
            if (m, text) != (method, endpoint) {
                assert(before.handlers@.contains_key((m, text)));
            }
        }
    }
}

/// A header line stores its value, which is what stands between its first colon and the next one
/// or the end of the line, without the white space around it, under its name as it stands there; a
/// line without a colon stores the empty value under all of it. The other fields stay.
pub proof fn law_field_is_stored_as_it_stands(
    fields: Map<Seq<char>, Seq<char>>,
    lead: Seq<char>,
    name: Seq<char>,
    before: Seq<char>,
    gap: Seq<char>,
    value: Seq<char>,
    after: Seq<char>,
    more: Seq<char>,
    tail: Seq<char>,
)
    requires
        forall|i: int| 0 <= i < lead.len() ==> is_white(#[trigger] lead[i]),
        forall|i: int| 0 <= i < before.len() ==> is_white(#[trigger] before[i]),
        forall|i: int| 0 <= i < gap.len() ==> is_white(#[trigger] gap[i]),
        forall|i: int| 0 <= i < after.len() ==> is_white(#[trigger] after[i]),
        forall|i: int| 0 <= i < tail.len() ==> is_white(#[trigger] tail[i]),
        !name.contains(':'),
        !value.contains(':'),
        name.len() > 0 ==> !is_white(name[0]) && !is_white(name.last()),
        name.len() == 0 ==> before.len() == 0,
        value.len() > 0 ==> !is_white(value[0]) && !is_white(value.last()),
        more.len() > 0 ==> more[0] == ':',
    ensures
        ({
            let line = lead + name + before + seq![':'] + gap + value + after + more + tail;
            &&& fields_after(fields, line) == fields.insert(name, value)
            &&& !ends_header(line)
        }),
        name.len() > 0 ==> fields_after(fields, lead + name + tail) == fields.insert(
            name,
            Seq::<char>::empty(),
        ),
{
    law_field_line_is_read(lead, name, before, gap, value, after, more, tail);
    if name.len() > 0 {
        let none = Seq::<char>::empty();
        law_line_without_colon_is_a_name(lead, name, tail);
        law_trimming_bares_the_core(none, name, none, CharClass::White);
        assert(none + name + none =~= name);
    }
}

/// A request is complete exactly where its body was read and is understood as the type that the
/// header declares, plain text where it declares none: it keeps its method, its endpoint, its
/// header and its parameters, and has the value that the body was read as. Any other is refused as
/// a bad request.
pub proof fn law_request_is_completed<P>(
    head: RequestHead<Method>,
    peer: P,
    body: Option<Vec<u8>>,
    step: RequestStep<P>,
)
    requires
        settled(head, peer, body, step),
    ensures
        ({
            let fields = field_texts(head.header@);
            let kind = lowercase(
                if fields.contains_key("Content-Type"@) {
                    fields["Content-Type"@]
                } else {
                    "text/plain"@
                },
            );
            &&& step is Complete <==> body is Some && !body_refused(kind, body->Some_0@)
            &&& step matches RequestStep::Refuse(response) ==> response == BAD_REQUEST
            &&& step matches RequestStep::Complete(request) ==> {
                &&& request.method == head.method
                &&& request.endpoint@ == head.endpoint@
                &&& request.peer == peer
                &&& field_texts(request.header@) == fields
                &&& request.query_params == head.query_params
                &&& kind == "text/plain"@ ==> string_held(request.body_params) == Some(
                    text_or_empty(body->Some_0@),
                )
                &&& kind == "application/json"@ ==> parsed_json(text_or_empty(body->Some_0@))
                    == Some(request.body_params)
                &&& kind != "text/plain"@ && kind != "application/json"@ ==> is_null(
                    request.body_params,
                )
            }
        }),
{
    law_body_is_declared(field_texts(head.header@), "Content-Type"@);
    if let Some(bytes) = body {
        if let RequestStep::Complete(request) = step {
            let lower = lowercase(declared_type(field_texts(head.header@), "Content-Type"@));
            law_body_is_read_by_its_type(lower, bytes@, request.body_params);
        }
    }
}

/// Setting a route touches that route only: which others there are, and what they do, stays.
pub proof fn law_other_routes_stay<A>(
    before: Http<A>,
    after: Http<A>,
    method: Method,
    endpoint: Seq<char>,
    action: A,
    other_method: Method,
    other_endpoint: Seq<char>,
)
    requires
        routed(before, after, method, endpoint, action),
        other_method != method || other_endpoint != endpoint,
    ensures
        ({
            let other = (other_method, other_endpoint);
            &&& after.handlers@.contains_key(other) == before.handlers@.contains_key(other)
            &&& before.handlers@.contains_key(other) ==> after.handlers@[other]
                == before.handlers@[other]
        }),
        after.handlers@.contains_key((method, endpoint)),
        after.handlers@[(method, endpoint)].action == action,
        after.handlers@[(method, endpoint)].method == method,
        after.handlers@[(method, endpoint)].endpoint@ == endpoint,
        after.config == before.config,
{
}

} // verus!
