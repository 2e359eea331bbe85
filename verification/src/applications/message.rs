//! The parts of an HTTP request as they stand on the wire.
use serde_json::Value;
use vstd::prelude::*;
use crate::encoding::{decode_or_empty, lowercase, text_or_empty, to_lowercase, to_uppercase, uppercase};
use crate::applications::async_web::default::BAD_REQUEST;
use crate::json::{
    is_null, is_object, json_null, json_object, json_string, members, no_members, parse_json,
    parsed_json, string_held, text_members,
};
use crate::number::{number_of, parse_number};
use crate::query::{
    decode_query, law_last_pair_counts, law_other_members_are_kept, law_other_members_stay,
    lemma_named_is_there, others_kept, query_pairs, with_pairs,
};
use crate::table::{Key, Table};
use crate::text::{
    copy_text, has_text, is_white, law_split_concat, law_trimming_bares_the_core,
    law_trimming_the_end, lemma_solid, lemma_split_single, lemma_split_some, lemma_trim_behind,
    lemma_trim_end_is_prefix, lemma_trim_keeps, lemma_trim_lead, lemma_trim_line, lemma_trim_tail,
    occurs_in, same_text, solid, split, split_at_char, stands_at, texts, trim, trim_end, trim_start,
    trimmed, CharClass,
};

verus! {

/// The fields of a header by name.
pub type Header = Table<String, String>;

/// The contents of the fields by name.
pub open spec fn field_texts(fields: Map<Seq<char>, String>) -> Map<Seq<char>, Seq<char>> {
    Map::new(|name: Seq<char>| fields.contains_key(name), |name: Seq<char>| fields[name]@)
}

/// The words of a request line.
pub open spec fn request_words(line: Seq<char>) -> Seq<Seq<char>> {
    split(trimmed(line), ' ')
}

/// The method of a request line, in upper case.
pub open spec fn method_word(line: Seq<char>) -> Seq<char> {
    uppercase(trimmed(request_words(line)[0]))
}

/// Whether a request line names a target after its method.
pub open spec fn has_target(line: Seq<char>) -> bool {
    request_words(line).len() > 1
}

/// The target of a request line.
pub open spec fn target(line: Seq<char>) -> Seq<char> {
    trimmed(request_words(line)[1])
}

/// The endpoint of a target: all before the first question mark.
pub open spec fn endpoint_of(target: Seq<char>) -> Seq<char> {
    split(target, '?')[0]
}

/// The query string of a target: what stands between the first and the second question
/// mark.
pub open spec fn query_of(target: Seq<char>) -> Seq<char> {
    let pieces = split(target, '?');
    if pieces.len() > 1 {
        pieces[1]
    } else {
        Seq::empty()
    }
}

/// The words of a request line that the protocols need.
pub struct RequestLine {
    /// The method in upper case.
    pub method: String,
    /// The endpoint and the query string, where the line names a target.
    pub target: Option<(String, String)>,
}

/// Splits a target into the endpoint and the query string.
pub fn split_target(target: &str) -> (parts: (String, String))
    ensures
        parts.0@ == endpoint_of(target@),
        parts.1@ == query_of(target@),
{
    let pieces = split_at_char(target, '?');
    assert(texts(pieces@).len() == pieces@.len());
    assert(texts(pieces@)[0] == pieces@[0]@);
    let endpoint = pieces[0].clone();
    if pieces.len() > 1 {
        assert(texts(pieces@)[1] == pieces@[1]@);
        (endpoint, pieces[1].clone())
    } else {
        (endpoint, String::new())
    }
}

/// Splits a request line.
pub fn split_request_line(line: &str) -> (request: RequestLine)
    ensures
        request.method@ == method_word(line@),
        request.target is Some <==> has_target(line@),
        request.target matches Some(parts) ==> parts.0@ == endpoint_of(target(line@)) && parts.1@
            == query_of(target(line@)),
{
    let whole = trim(line);
    let pieces = split_at_char(whole.as_str(), ' ');
    assert(texts(pieces@).len() == pieces@.len());
    assert(texts(pieces@)[0] == pieces@[0]@);
    let method = to_uppercase(trim(pieces[0].as_str()).as_str());
    if pieces.len() > 1 {
        assert(texts(pieces@)[1] == pieces@[1]@);
        let parts = split_target(trim(pieces[1].as_str()).as_str());
        RequestLine { method, target: Some(parts) }
    } else {
        RequestLine { method, target: None }
    }
}

/// Whether a path tries to leave its directory.
pub open spec fn climbs(endpoint: Seq<char>) -> bool {
    occurs_in(endpoint, ".."@)
}

/// Tests whether a path tries to leave its directory.
pub fn has_climb(endpoint: &str) -> (found: bool)
    ensures
        found == climbs(endpoint@),
{
    has_text(endpoint, "..")
}

/// Whether a line ends the header.
pub open spec fn ends_header(line: Seq<char>) -> bool {
    trimmed(line).len() == 0
}

/// The name of the field in a header line, as it stands there.
pub open spec fn raw_name(line: Seq<char>) -> Seq<char> {
    split(trimmed(line), ':')[0]
}

/// The value of the field in a header line: what stands between the first and the second
/// colon.
pub open spec fn field_value(line: Seq<char>) -> Seq<char> {
    let pieces = split(trimmed(line), ':');
    if pieces.len() > 1 {
        trimmed(pieces[1])
    } else {
        Seq::empty()
    }
}

/// Splits a header line into the name of its field, as it stands there, and its value.
pub fn split_field(line: &str) -> (field: (String, String))
    ensures
        field.0@ == raw_name(line@),
        field.1@ == field_value(line@),
{
    let whole = trim(line);
    let pieces = split_at_char(whole.as_str(), ':');
    assert(texts(pieces@).len() == pieces@.len());
    assert(texts(pieces@)[0] == pieces@[0]@);
    let name = pieces[0].clone();
    if pieces.len() > 1 {
        assert(texts(pieces@)[1] == pieces@[1]@);
        let value = trim(pieces[1].as_str());
        (name, value)
    } else {
        (name, String::new())
    }
}

/// Stores a field under its name without white space around it.
pub fn store_field(header: &mut Header, name: &str, value: String)
    ensures
        field_texts(final(header)@) == field_texts(old(header)@).insert(trimmed(name@), value@),
{
    let key = trim(name);
    header.insert(key, value);
    assert(field_texts(header@) =~= field_texts(old(header)@).insert(trimmed(name@), value@));
}

/// The field of a given name, if the header has one.
pub fn find_field<'a>(header: &'a Header, name: &str) -> (value: Option<&'a String>)
    ensures
        match value {
            Some(text) => field_texts(header@).contains_key(name@) && field_texts(header@)[name@]
                == text@,
            None => !field_texts(header@).contains_key(name@),
        },
{
    header.get(&copy_text(name))
}

/// The length of the body that the field `name` declares; nothing where the field is
/// missing or is no number.
pub open spec fn declared_length(fields: Map<Seq<char>, Seq<char>>, name: Seq<char>) -> usize {
    if fields.contains_key(name) {
        match number_of(fields[name]) {
            Some(length) => length,
            None => 0,
        }
    } else {
        0
    }
}

/// The type of the body that the field `name` declares; plain text where it is missing.
pub open spec fn declared_type(fields: Map<Seq<char>, Seq<char>>, name: Seq<char>) -> Seq<char> {
    if fields.contains_key(name) {
        fields[name]
    } else {
        "text/plain"@
    }
}

/// Reads the length of the body from the field `name`.
pub fn body_length(header: &Header, name: &str) -> (length: usize)
    ensures
        length == declared_length(field_texts(header@), name@),
{
    match find_field(header, name) {
        Some(text) => match parse_number(text.as_str()) {
            Some(length) => length,
            None => 0,
        },
        None => 0,
    }
}

/// Reads the type of the body from the field `name`.
pub fn body_type(header: &Header, name: &str) -> (content_type: String)
    ensures
        content_type@ == declared_type(field_texts(header@), name@),
{
    match find_field(header, name) {
        Some(text) => text.clone(),
        None => copy_text("text/plain"),
    }
}

/// Why a body was not understood.
#[derive(Clone, Copy, PartialEq, Eq, Structural, Debug)]
pub enum BodyError {
    /// The type of the body is none that the server reads.
    UnknownContentType,
    /// The body is no JSON document.
    InvalidJson,
}

/// What a body of the type `lower`, given in lower case, is read as.
pub open spec fn body_read_as(
    lower: Seq<char>,
    body: Seq<u8>,
    result: Result<Option<Value>, BodyError>,
) -> bool {
    let text = text_or_empty(body);
    if lower == "text/plain"@ {
        result matches Ok(Some(value)) && string_held(value) == Some(text)
    } else if lower == "application/x-www-form-urlencoded"@ || lower == "multipart/form-data"@ {
        result == Ok::<Option<Value>, BodyError>(None)
    } else if lower == "application/json"@ {
        match parsed_json(text) {
            Some(value) => result == Ok::<Option<Value>, BodyError>(Some(value)),
            None => result == Err::<Option<Value>, BodyError>(BodyError::InvalidJson),
        }
    } else {
        result == Err::<Option<Value>, BodyError>(BodyError::UnknownContentType)
    }
}

/// Reads a body of the type `lower`, given in lower case.
pub fn parse_body_as(lower: &str, body: Vec<u8>) -> (result: Result<Option<Value>, BodyError>)
    ensures
        body_read_as(lower@, body@, result),
{
    let text = decode_or_empty(body);
    if same_text(lower, "text/plain") {
        Ok(Some(json_string(text)))
    } else if same_text(lower, "application/x-www-form-urlencoded") {
        Ok(None)
    } else if same_text(lower, "multipart/form-data") {
        Ok(None)
    } else if same_text(lower, "application/json") {
        match parse_json(text.as_str()) {
            Ok(value) => Ok(Some(value)),
            Err(_) => Err(BodyError::InvalidJson),
        }
    } else {
        Err(BodyError::UnknownContentType)
    }
}

/// Reads a body of the type `content_type`; the type counts in any letter case.
pub fn parse_body(body: Vec<u8>, content_type: &str) -> (result: Result<Option<Value>, BodyError>)
    ensures
        body_read_as(lowercase(content_type@), body@, result),
{
    let lower = to_lowercase(content_type);
    parse_body_as(lower.as_str(), body)
}

/// Whether a body of the type `lower`, given in lower case, is refused.
pub open spec fn body_refused(lower: Seq<char>, body: Seq<u8>) -> bool {
    if lower == "application/json"@ {
        parsed_json(text_or_empty(body)) is None
    } else {
        lower != "text/plain"@ && lower != "application/x-www-form-urlencoded"@ && lower
            != "multipart/form-data"@
    }
}

/// Whether `value` is what a handler gets for a body of the type `lower`, given in lower
/// case: a text as a string, a JSON document as its value, a form as `null`.
pub open spec fn body_taken_as(lower: Seq<char>, body: Seq<u8>, value: Value) -> bool {
    let text = text_or_empty(body);
    if lower == "text/plain"@ {
        string_held(value) == Some(text)
    } else if lower == "application/json"@ {
        parsed_json(text) == Some(value)
    } else {
        is_null(value)
    }
}

/// What to do after the body of a request.
pub enum BodyStep {
    /// Send this response and close.
    Refuse(&'static str),
    /// Hand the request to its handler with this value for the body.
    Accept(Value),
}

/// Decides what to do after the body, given what it was read as.
pub fn settle_body(read: Result<Option<Value>, BodyError>) -> (step: BodyStep)
    ensures
        match read {
            Ok(Some(value)) => step == BodyStep::Accept(value),
            Ok(None) => step matches BodyStep::Accept(value) && is_null(value),
            Err(_) => step == BodyStep::Refuse(BAD_REQUEST),
        },
{
    match read {
        Ok(Some(value)) => BodyStep::Accept(value),
        Ok(None) => BodyStep::Accept(json_null()),
        Err(_) => BodyStep::Refuse(BAD_REQUEST),
    }
}

/// The types of body that the server reads are different from one another.
proof fn lemma_types_differ()
    ensures
        "text/plain"@ != "application/json"@,
        "text/plain"@ != "application/x-www-form-urlencoded"@,
        "text/plain"@ != "multipart/form-data"@,
        "application/json"@ != "application/x-www-form-urlencoded"@,
        "application/json"@ != "multipart/form-data"@,
{
    reveal_strlit("text/plain");
    reveal_strlit("application/json");
    reveal_strlit("application/x-www-form-urlencoded");
    reveal_strlit("multipart/form-data");
    assert("text/plain"@.len() == 10);
    assert("application/json"@.len() == 16);
    assert("application/x-www-form-urlencoded"@.len() == 33);
    assert("multipart/form-data"@.len() == 19);
}

/// Takes the body of a request of the type `content_type`; `None` where it could not be
/// read.
pub fn take_body(content_type: &str, body: Option<Vec<u8>>) -> (step: BodyStep)
    ensures
        match step {
            BodyStep::Refuse(response) => {
                &&& response == BAD_REQUEST
                &&& body matches Some(bytes) ==> body_refused(lowercase(content_type@), bytes@)
            },
            BodyStep::Accept(value) => {
                &&& body matches Some(bytes)
                &&& !body_refused(lowercase(content_type@), bytes@)
                &&& body_taken_as(lowercase(content_type@), bytes@, value)
            },
        },
{
    match body {
        None => BodyStep::Refuse(BAD_REQUEST),
        Some(bytes) => {
            proof {
                lemma_types_differ();
            }
            settle_body(parse_body(bytes, content_type))
        },
    }
}

/// The methods that a server knows.
pub trait Verb: Key + Copy {
    /// The method that a word in upper case names.
    spec fn named_by(upper: Seq<char>) -> Option<Self>;

    /// Gives the method that a word in upper case names.
    fn named(upper: &str) -> (method: Option<Self>)
        ensures
            method == Self::named_by(upper@),
    ;
}

/// The header of a request while it is read.
pub struct RequestHead<M> {
    pub method: M,
    pub endpoint: String,
    pub query_params: Value,
    pub header: Header,
}

/// What to do after the request line.
pub enum HeadStep<M> {
    /// Send this response and close.
    Refuse(&'static str),
    /// The line names a method without a target: give the connection up without an answer.
    Abort,
    /// Read the header.
    Proceed(RequestHead<M>),
}

/// Why a request line was not understood.
#[derive(Clone, Copy, PartialEq, Eq, Structural, Debug)]
pub enum RequestError {
    /// The method is none that the server knows.
    UnknownMethod,
}

/// The endpoint and the query string of a request line, where it names a target.
pub open spec fn line_target(line: Seq<char>) -> Option<(Seq<char>, Seq<char>)> {
    if has_target(line) {
        Some((endpoint_of(target(line)), query_of(target(line))))
    } else {
        None
    }
}

/// What is read from the words of a request line, and what becomes of the parameters: the
/// pairs of the query string are put in.
pub open spec fn line_read<M>(
    method: Option<M>,
    target: Option<(Seq<char>, Seq<char>)>,
    before: Value,
    after: Value,
    result: Result<(M, String), RequestError>,
) -> bool {
    match (method, target) {
        (Some(known), Some((endpoint, query))) => {
            &&& result matches Ok(request)
            &&& request.0 == known
            &&& request.1@ == endpoint
            &&& is_object(after) == is_object(before)
            &&& is_object(before) ==> text_members(after) == with_pairs(
                text_members(before),
                query_pairs(query),
            )
            &&& is_object(before) ==> others_kept(before, after, query_pairs(query))
            &&& !is_object(before) ==> after == before
        },
        _ => result matches Err(error) && error == RequestError::UnknownMethod && after == before,
    }
}

/// Reads a request line and puts its query parameters into `params`.
pub fn parse_request_line<M: Verb>(line: &str, params: &mut Value) -> (result: Result<
    (M, String),
    RequestError,
>)
    requires
        M::named_by(method_word(line@)) is Some ==> has_target(line@),
    ensures
        line_read(
            M::named_by(method_word(line@)),
            line_target(line@),
            *old(params),
            *final(params),
            result,
        ),
{
    let request = split_request_line(line);
    match M::named(request.method.as_str()) {
        Some(method) => match request.target {
            Some(parts) => {
                decode_query(parts.1.as_str(), params);
                Ok((method, parts.0))
            },
            None => Err(RequestError::UnknownMethod),
        },
        None => Err(RequestError::UnknownMethod),
    }
}

/// Reads a request line and puts its query parameters into `params`; `None` where the line
/// names a known method without a target.
pub fn try_parse_request_line<M: Verb>(line: &str, params: &mut Value) -> (result: Option<
    Result<(M, String), RequestError>,
>)
    ensures
        result is None <==> M::named_by(method_word(line@)) is Some && !has_target(line@),
        result is None ==> *final(params) == *old(params),
        result matches Some(outcome) ==> line_read(
            M::named_by(method_word(line@)),
            line_target(line@),
            *old(params),
            *final(params),
            outcome,
        ),
{
    let request = split_request_line(line);
    let known: Option<M> = M::named(request.method.as_str());
    if known.is_some() && request.target.is_none() {
        None
    } else {
        Some(parse_request_line(line, params))
    }
}

/// What to do after the words of a request line: an unknown method, or a path that tries
/// to leave its directory, is refused; a known method without a target ends the
/// connection; anything else is accepted.
pub open spec fn head_step<M>(
    method: Option<M>,
    target: Option<(Seq<char>, Seq<char>)>,
    step: HeadStep<M>,
) -> bool {
    match method {
        None => step == HeadStep::<M>::Refuse(BAD_REQUEST),
        Some(known) => match target {
            None => step is Abort,
            Some((endpoint, query)) => if climbs(endpoint) {
                step == HeadStep::<M>::Refuse(BAD_REQUEST)
            } else {
                &&& step matches HeadStep::Proceed(head)
                &&& head.method == known
                &&& head.endpoint@ == endpoint
                &&& is_object(head.query_params)
                &&& text_members(head.query_params) == with_pairs(no_members(), query_pairs(query))
                &&& members(head.query_params).dom() == text_members(head.query_params).dom()
                &&& field_texts(head.header@) == no_members()
            },
        },
    }
}

/// Begins a request from what was read of its request line: `None` for a known method
/// without a target.
pub fn begin_request<M: Verb>(
    read: Option<Result<(M, String), RequestError>>,
    query_params: Value,
) -> (step: HeadStep<M>)
    ensures
        match read {
            None => step is Abort,
            Some(Err(_)) => step == HeadStep::<M>::Refuse(BAD_REQUEST),
            Some(Ok((method, endpoint))) => if climbs(endpoint@) {
                step == HeadStep::<M>::Refuse(BAD_REQUEST)
            } else {
                &&& step matches HeadStep::Proceed(head)
                &&& head.method == method
                &&& head.endpoint == endpoint
                &&& head.query_params == query_params
                &&& field_texts(head.header@) == no_members()
            },
        },
{
    match read {
        None => HeadStep::Abort,
        Some(Err(_)) => HeadStep::Refuse(BAD_REQUEST),
        Some(Ok((method, endpoint))) => {
            if has_climb(endpoint.as_str()) {
                HeadStep::Refuse(BAD_REQUEST)
            } else {
                let header: Header = Table::new();
                assert(field_texts(header@) =~= no_members());
                HeadStep::Proceed(RequestHead { method, endpoint, query_params, header })
            }
        },
    }
}

/// An object into which nothing but the pairs has been put has no members but texts.
proof fn lemma_only_texts(before: Value, after: Value, pairs: Seq<(Seq<char>, Seq<char>)>)
    requires
        members(before).is_empty(),
        text_members(after) == with_pairs(no_members(), pairs),
        others_kept(before, after, pairs),
    ensures
        members(after).dom() == text_members(after).dom(),
{
    assert forall|name: Seq<char>| members(after).contains_key(name) implies text_members(
        after,
    ).contains_key(name) by {
        if exists|i: int| 0 <= i < pairs.len() && (#[trigger] pairs[i]).0 == name {
            let i = choose|i: int| 0 <= i < pairs.len() && (#[trigger] pairs[i]).0 == name;
            lemma_named_is_there(no_members(), pairs, i);
        } else {
            assert(!members(before).contains_key(name));
        }
    }
    assert(members(after).dom() =~= text_members(after).dom());
}

/// Takes the request line of a connection; `None` where it could not be read.
pub fn on_request_line<M: Verb>(line: Option<&str>) -> (step: HeadStep<M>)
    ensures
        match line {
            None => step == HeadStep::<M>::Refuse(BAD_REQUEST),
            Some(text) => head_step(M::named_by(method_word(text@)), line_target(text@), step),
        },
{
    match line {
        None => HeadStep::Refuse(BAD_REQUEST),
        Some(text) => {
            let mut query_params = json_object();
            let ghost fresh = query_params;
            assert(text_members(fresh) =~= no_members());
            let read: Option<Result<(M, String), RequestError>> = try_parse_request_line(
                text,
                &mut query_params,
            );
            proof {
                if read matches Some(Ok(_)) {
                    lemma_only_texts(fresh, query_params, query_pairs(query_of(target(text@))));
                }
            }
            begin_request(read, query_params)
        },
    }
}

/// A request that is not accepted is answered with the response to a bad request, or not at
/// all where it names a method without a target; an accepted request has a known method
/// and an endpoint that does not try to leave its directory.
pub proof fn law_refused_requests_are_bad_requests<M>(
    method: Option<M>,
    target: Option<(Seq<char>, Seq<char>)>,
    step: HeadStep<M>,
)
    requires
        head_step(method, target, step),
    ensures
        step matches HeadStep::Refuse(response) ==> response@ == BAD_REQUEST@,
        step is Abort <==> method is Some && target is None,
        step matches HeadStep::Proceed(head) ==> method == Some(head.method) && !climbs(
            head.endpoint@,
        ) && target is Some && target->Some_0.0 == head.endpoint@,
{
}

/// A request line as clients write it is read as it was meant: the method in upper case, the
/// endpoint, and the query string.
pub proof fn law_request_line_is_read(
    word: Seq<char>,
    path: Seq<char>,
    query: Seq<char>,
    version: Seq<char>,
)
    requires
        solid(word),
        solid(path),
        solid(query),
        solid(version),
        word.len() > 0,
        version.len() > 0,
        !path.contains('?'),
        !query.contains('?'),
    ensures
        ({
            let line = word.push(' ') + (path.push('?') + query).push(' ') + version + "\r\n"@;
            &&& method_word(line) == uppercase(word)
            &&& line_target(line) == Some((path, query))
        }),
        ({
            let line = word.push(' ') + path.push(' ') + version + "\r\n"@;
            &&& method_word(line) == uppercase(word)
            &&& line_target(line) == Some((path, Seq::<char>::empty()))
        }),
{
    let asked = path.push('?') + query;
    assert(solid(asked)) by {
        assert forall|i: int| 0 <= i < asked.len() implies !is_white(#[trigger] asked[i]) by {
            if i < path.len() {
                assert(!is_white(path[i]));
            } else if i > path.len() {
                assert(!is_white(query[i - path.len() - 1]));
            }
        }
    }
    lemma_three_words(word, asked, version);
    lemma_three_words(word, path, version);
    lemma_split_single(path, '?');
    lemma_split_single(query, '?');
    law_split_concat(path, query, '?');
    assert(split(asked, '?') =~= seq![path, query]);
}

/// The words of a line of three words.
proof fn lemma_three_words(word: Seq<char>, target_word: Seq<char>, version: Seq<char>)
    requires
        solid(word),
        solid(target_word),
        solid(version),
        word.len() > 0,
        version.len() > 0,
    ensures
        ({
            let line = word.push(' ') + target_word.push(' ') + version + "\r\n"@;
            &&& request_words(line) == seq![word, target_word, version]
            &&& trimmed(word) == word
            &&& trimmed(target_word) == target_word
        }),
{
    let core = word.push(' ') + target_word.push(' ') + version;
    assert(!is_white(word[0]));
    assert(!is_white(version[version.len() - 1]));
    lemma_trim_line(core);
    lemma_solid(word);
    lemma_solid(target_word);
    lemma_solid(version);
    lemma_split_single(word, ' ');
    lemma_split_single(target_word, ' ');
    lemma_split_single(version, ' ');
    law_split_concat(target_word, version, ' ');
    law_split_concat(word, target_word.push(' ') + version, ' ');
    assert(core =~= word.push(' ') + (target_word.push(' ') + version));
    assert(split(core, ' ') =~= seq![word, target_word, version]);
}

/// A header ends with a line of nothing but white space, and with no other line.
pub proof fn law_blank_line_ends_header(line: Seq<char>)
    ensures
        ends_header(line) <==> forall|i: int| 0 <= i < line.len() ==> is_white(#[trigger] line[i]),
{
    if forall|i: int| 0 <= i < line.len() ==> is_white(#[trigger] line[i]) {
        let none = Seq::<char>::empty();
        law_trimming_bares_the_core(line, none, none, CharClass::White);
        assert(line + none + none =~= line);
    } else {
        let i = choose|i: int| 0 <= i < line.len() && !is_white(#[trigger] line[i]);
        lemma_trim_keeps(line, i);
    }
}

/// What is left of a value when the line is trimmed at its end.
proof fn lemma_value_end(gap: Seq<char>, value: Seq<char>, after: Seq<char>, more: Seq<char>)
    requires
        forall|i: int| 0 <= i < gap.len() ==> is_white(#[trigger] gap[i]),
        forall|i: int| 0 <= i < after.len() ==> is_white(#[trigger] after[i]),
        !value.contains(':'),
        value.len() > 0 ==> !is_white(value[0]) && !is_white(value.last()),
        more.len() > 0 ==> more[0] == ':',
    ensures
        ({
            let rest = trim_end(gap + value + after + more, CharClass::White);
            trimmed(split(rest, ':')[0]) == value
        }),
{
    let shown = gap + value + after;
    assert(!shown.contains(':')) by {
        assert forall|i: int| 0 <= i < shown.len() implies shown[i] != ':' by {
            if i < gap.len() {
                assert(is_white(gap[i]));
            } else if i < gap.len() + value.len() {
                assert(value.contains(value[i - gap.len()]));
            } else {
                assert(is_white(after[i - gap.len() - value.len()]));
            }
        }
    }
    law_trimming_bares_the_core(gap, value, after, CharClass::White);
    let none = Seq::<char>::empty();
    if more.len() > 0 {
        let behind = more.drop_first();
        let head = shown.push(':');
        assert(gap + value + after + more =~= head + behind);
        lemma_trim_behind(head, behind, CharClass::White);
        law_split_concat(shown, trim_end(behind, CharClass::White), ':');
        lemma_split_single(shown, ':');
    } else {
        assert(gap + value + after + more =~= shown);
        if value.len() > 0 {
            let head = gap + value;
            lemma_trim_behind(head, after, CharClass::White);
            assert(trim_end(after, CharClass::White) == none) by {
                law_trimming_the_end(none, after, CharClass::White);
                assert(none + after =~= after);
            }
            assert(head + none =~= head);
            assert(!head.contains(':')) by {
                assert forall|i: int| 0 <= i < head.len() implies head[i] != ':' by {
                    assert(shown.contains(shown[i]));
                    assert(shown[i] == head[i]);
                }
            }
            lemma_split_single(head, ':');
            law_trimming_bares_the_core(gap, value, none, CharClass::White);
            assert(gap + value + none =~= head);
        } else {
            assert forall|i: int| 0 <= i < shown.len() implies is_white(#[trigger] shown[i]) by {
                if i < gap.len() {
                    assert(is_white(gap[i]));
                } else {
                    assert(is_white(after[i - gap.len()]));
                }
            }
            law_trimming_the_end(none, shown, CharClass::White);
            assert(none + shown =~= shown);
            lemma_split_single(none, ':');
            law_trimming_bares_the_core(none, none, none, CharClass::White);
            assert(none + none + none =~= none);
            assert(value =~= none);
        }
    }
}

/// A header line is read as the name in front of its first colon and the value between that
/// colon and the next one, or the end of the line where there is no other, each without the
/// white space around it.
pub proof fn law_field_line_is_read(
    lead: Seq<char>,
    name: Seq<char>,
    before: Seq<char>,
    gap: Seq<char>,
    value: Seq<char>,
    after: Seq<char>,
    more: Seq<char>,
    tail: Seq<char>,
)
    requires
        forall|i: int| 0 <= i < lead.len() ==> is_white(#[trigger] lead[i]),
        forall|i: int| 0 <= i < before.len() ==> is_white(#[trigger] before[i]),
        forall|i: int| 0 <= i < gap.len() ==> is_white(#[trigger] gap[i]),
        forall|i: int| 0 <= i < after.len() ==> is_white(#[trigger] after[i]),
        forall|i: int| 0 <= i < tail.len() ==> is_white(#[trigger] tail[i]),
        !name.contains(':'),
        !value.contains(':'),
        name.len() > 0 ==> !is_white(name[0]) && !is_white(name.last()),
        name.len() == 0 ==> before.len() == 0,
        value.len() > 0 ==> !is_white(value[0]) && !is_white(value.last()),
        more.len() > 0 ==> more[0] == ':',
    ensures
        ({
            let line = lead + name + before + seq![':'] + gap + value + after + more + tail;
            &&& raw_name(line) == name + before
            &&& trimmed(raw_name(line)) == name
            &&& field_value(line) == value
            &&& !ends_header(line)
        }),
{
    let line = lead + name + before + seq![':'] + gap + value + after + more + tail;
    let none = Seq::<char>::empty();
    let label = name + before;
    let head = label.push(':');
    let shown = gap + value + after + more;
    let rest = trim_end(shown, CharClass::White);
    lemma_trim_behind(head, shown, CharClass::White);
    let core = head + rest;
    // Trimming at the front takes the lead, and at the end what the value ends with.
    let body = head + shown;
    assert(!is_white(body[0])) by {
        if name.len() > 0 {
            assert(body[0] == name[0]);
        } else {
            assert(body[0] == ':');
        }
    }
    assert(line =~= lead + (body + tail));
    assert((body + tail)[0] == body[0]);
    lemma_trim_lead(lead, body + tail, CharClass::White);
    assert(trim_start(line, CharClass::White) == body + tail);
    lemma_trim_tail(body, tail, CharClass::White);
    assert(trimmed(line) == core);
    assert(!label.contains(':')) by {
        assert forall|i: int| 0 <= i < label.len() implies label[i] != ':' by {
            if i < name.len() {
                assert(name.contains(name[i]));
            } else {
                assert(is_white(before[i - name.len()]));
            }
        }
    }
    law_split_concat(label, rest, ':');
    lemma_split_single(label, ':');
    lemma_split_some(rest, ':');
    let pieces = split(core, ':');
    assert(pieces =~= seq![label] + split(rest, ':'));
    assert(pieces[0] == label);
    assert(pieces[1] == split(rest, ':')[0]);
    lemma_value_end(gap, value, after, more);
    law_trimming_bares_the_core(none, name, before, CharClass::White);
    assert(none + name + before =~= label);
}

/// A header line without a colon is all name, and its value is empty.
pub proof fn law_line_without_colon_is_a_name(lead: Seq<char>, name: Seq<char>, tail: Seq<char>)
    requires
        forall|i: int| 0 <= i < lead.len() ==> is_white(#[trigger] lead[i]),
        forall|i: int| 0 <= i < tail.len() ==> is_white(#[trigger] tail[i]),
        !name.contains(':'),
        name.len() > 0,
        !is_white(name[0]) && !is_white(name.last()),
    ensures
        raw_name(lead + name + tail) == name,
        field_value(lead + name + tail) == Seq::<char>::empty(),
        !ends_header(lead + name + tail),
{
    law_trimming_bares_the_core(lead, name, tail, CharClass::White);
    lemma_split_single(name, ':');
}

/// The first two words of a request line, whatever follows the second one.
proof fn lemma_first_words(
    lead: Seq<char>,
    word: Seq<char>,
    second: Seq<char>,
    rest: Seq<char>,
    tail: Seq<char>,
)
    requires
        forall|i: int| 0 <= i < lead.len() ==> is_white(#[trigger] lead[i]),
        forall|i: int| 0 <= i < tail.len() ==> is_white(#[trigger] tail[i]),
        solid(word),
        solid(second),
        word.len() > 0,
        second.len() > 0,
        rest.len() > 0 ==> rest[0] == ' ',
    ensures
        ({
            let line = lead + word + seq![' '] + second + rest + tail;
            &&& method_word(line) == uppercase(word)
            &&& has_target(line)
            &&& target(line) == second
        }),
{
    let line = lead + word + seq![' '] + second + rest + tail;
    let body = word.push(' ') + second;
    let left = trim_end(rest, CharClass::White);
    assert(!is_white(word[0]));
    assert(!is_white(second[second.len() - 1]));
    assert(body.last() == second[second.len() - 1]);
    let whole = body + rest;
    assert(line =~= lead + (whole + tail));
    assert((whole + tail)[0] == word[0]);
    lemma_trim_lead(lead, whole + tail, CharClass::White);
    lemma_trim_tail(whole, tail, CharClass::White);
    lemma_trim_behind(body, rest, CharClass::White);
    assert(trimmed(line) == body + left);
    lemma_solid(word);
    lemma_solid(second);
    lemma_split_single(word, ' ');
    lemma_split_single(second, ' ');
    lemma_trim_end_is_prefix(rest, CharClass::White);
    if left.len() == 0 {
        law_split_concat(word, second, ' ');
        assert(body + left =~= word.push(' ') + second);
        assert(request_words(line) =~= seq![word, second]);
    } else {
        assert(left[0] == rest[0]);
        let behind = left.drop_first();
        let others = second.push(' ') + behind;
        law_split_concat(second, behind, ' ');
        law_split_concat(word, others, ' ');
        assert(body + left =~= word.push(' ') + others);
        assert(request_words(line) =~= seq![word] + (seq![second] + split(behind, ' ')));
        assert(request_words(line)[0] == word);
        assert(request_words(line)[1] == second);
    }
}

/// A request line is read as its first word, in upper case, and its second one, which is the
/// endpoint as far as the first question mark and the query string from there to the next one,
/// whatever follows: a further question mark, the version of the protocol, or nothing.
pub proof fn law_method_and_target_are_read(
    lead: Seq<char>,
    word: Seq<char>,
    path: Seq<char>,
    query: Seq<char>,
    more: Seq<char>,
    rest: Seq<char>,
    tail: Seq<char>,
)
    requires
        forall|i: int| 0 <= i < lead.len() ==> is_white(#[trigger] lead[i]),
        forall|i: int| 0 <= i < tail.len() ==> is_white(#[trigger] tail[i]),
        forall|i: int| 0 <= i < word.len() ==> !is_white(#[trigger] word[i]),
        forall|i: int| 0 <= i < path.len() ==> !is_white(#[trigger] path[i]) && path[i] != '?',
        forall|i: int| 0 <= i < query.len() ==> !is_white(#[trigger] query[i]) && query[i] != '?',
        forall|i: int| 0 <= i < more.len() ==> !is_white(#[trigger] more[i]),
        word.len() > 0,
        rest.len() > 0 ==> rest[0] == ' ',
    ensures
        path.len() > 0 ==> ({
            let line = lead + word + seq![' '] + path + rest + tail;
            &&& method_word(line) == uppercase(word)
            &&& line_target(line) == Some((path, Seq::<char>::empty()))
        }),
        ({
            let line = lead + word + seq![' '] + (path + seq!['?'] + query) + rest + tail;
            &&& method_word(line) == uppercase(word)
            &&& line_target(line) == Some((path, query))
        }),
        ({
            let line = lead + word + seq![' '] + (path + seq!['?'] + query + seq!['?'] + more)
                + rest + tail;
            &&& method_word(line) == uppercase(word)
            &&& line_target(line) == Some((path, query))
        }),
{
    lemma_split_single(path, '?');
    lemma_split_single(query, '?');
    if path.len() > 0 {
        lemma_first_words(lead, word, path, rest, tail);
    }
    let asked = path + seq!['?'] + query;
    let longer = asked + seq!['?'] + more;
    assert forall|i: int| 0 <= i < longer.len() implies !is_white(#[trigger] longer[i]) by {
        if i < path.len() {
            assert(longer[i] == path[i]);
        } else if path.len() < i < asked.len() {
            assert(longer[i] == query[i - path.len() - 1]);
        } else if i > asked.len() {
            assert(longer[i] == more[i - asked.len() - 1]);
        }
    }
    assert forall|i: int| 0 <= i < asked.len() implies !is_white(#[trigger] asked[i]) by {
        assert(longer[i] == asked[i]);
    }
    lemma_first_words(lead, word, asked, rest, tail);
    lemma_first_words(lead, word, longer, rest, tail);
    assert(asked =~= path.push('?') + query);
    law_split_concat(path, query, '?');
    assert(split(asked, '?') =~= seq![path, query]);
    assert(longer =~= asked.push('?') + more);
    law_split_concat(asked, more, '?');
    assert(split(longer, '?') =~= seq![path, query] + split(more, '?'));
    assert(split(longer, '?')[0] == path && split(longer, '?')[1] == query);
}

/// A request line of one word names a method and no target.
pub proof fn law_lone_method_has_no_target(lead: Seq<char>, word: Seq<char>, tail: Seq<char>)
    requires
        forall|i: int| 0 <= i < lead.len() ==> is_white(#[trigger] lead[i]),
        forall|i: int| 0 <= i < tail.len() ==> is_white(#[trigger] tail[i]),
        forall|i: int| 0 <= i < word.len() ==> !is_white(#[trigger] word[i]),
    ensures
        method_word(lead + word + tail) == uppercase(word),
        line_target(lead + word + tail) is None,
{
    law_trimming_bares_the_core(lead, word, tail, CharClass::White);
    lemma_solid(word);
    lemma_split_single(word, ' ');
}

/// A path tries to leave its directory exactly where two dots stand next to each other.
pub proof fn law_two_dots_climb(endpoint: Seq<char>)
    ensures
        climbs(endpoint) <==> exists|i: int|
            0 <= i < endpoint.len() - 1 && #[trigger] endpoint[i] == '.' && endpoint[i + 1] == '.',
{
    reveal_strlit("..");
    let dots = ".."@;
    assert(dots.len() == 2 && dots[0] == '.' && dots[1] == '.');
    if climbs(endpoint) {
        let at = choose|at: int| stands_at(endpoint, dots, at);
        let part = endpoint.subrange(at, at + dots.len());
        assert(part[0] == endpoint[at] && part[1] == endpoint[at + 1]);
    }
    if exists|i: int|
        0 <= i < endpoint.len() - 1 && #[trigger] endpoint[i] == '.' && endpoint[i + 1] == '.' {
        let i = choose|i: int|
            0 <= i < endpoint.len() - 1 && #[trigger] endpoint[i] == '.' && endpoint[i + 1] == '.';
        assert(endpoint.subrange(i, i + dots.len()) =~= dots);
        assert(stands_at(endpoint, dots, i));
    }
}

/// A request with a known method and a target goes on with that method and that endpoint, unless
/// two dots stand next to each other in the endpoint, with the pairs of the query string as its
/// parameters, of which the last of a name counts, and with no fields yet. Any other request is
/// refused as a bad one, or given up where a known method has no target.
pub proof fn law_request_is_taken_up<M>(
    method: Option<M>,
    target: Option<(Seq<char>, Seq<char>)>,
    step: HeadStep<M>,
    at: int,
)
    requires
        head_step(method, target, step),
    ensures
        ({
            let two_dots = target is Some && exists|i: int|
                0 <= i < target->Some_0.0.len() - 1 && #[trigger] target->Some_0.0[i] == '.'
                    && target->Some_0.0[i + 1] == '.';
            &&& step is Proceed <==> method is Some && target is Some && !two_dots
            &&& step is Abort <==> method is Some && target is None
            &&& step matches HeadStep::Refuse(response) ==> response == BAD_REQUEST
        }),
        step matches HeadStep::Proceed(head) ==> {
            let pairs = query_pairs(target->Some_0.1);
            let params = text_members(head.query_params);
            &&& Some(head.method) == method
            &&& head.endpoint@ == target->Some_0.0
            &&& head.header@.dom() =~= Set::<Seq<char>>::empty()
            &&& 0 <= at < pairs.len() && (forall|later: int|
                at < later < pairs.len() ==> (#[trigger] pairs[later]).0 != pairs[at].0)
                ==> params.contains_key(pairs[at].0) && params[pairs[at].0] == pairs[at].1
            &&& forall|name: Seq<char>|
                #![trigger params.contains_key(name)]
                (forall|i: int| 0 <= i < pairs.len() ==> (#[trigger] pairs[i]).0 != name)
                    ==> !params.contains_key(name)
        },
{
    if target is Some {
        law_two_dots_climb(target->Some_0.0);
    }
    if let HeadStep::Proceed(head) = step {
        let pairs = query_pairs(target->Some_0.1);
        let params = text_members(head.query_params);
        if 0 <= at < pairs.len() && (forall|later: int|
            at < later < pairs.len() ==> (#[trigger] pairs[later]).0 != pairs[at].0) {
            law_last_pair_counts(no_members(), pairs, at);
        }
        assert forall|name: Seq<char>|
            #![trigger params.contains_key(name)]
            (forall|i: int| 0 <= i < pairs.len() ==> (#[trigger] pairs[i]).0
                != name) implies !params.contains_key(name) by {
            law_other_members_stay(no_members(), pairs, name);
        }
        assert forall|name: Seq<char>| !(#[trigger] head.header@.contains_key(name)) by {
            assert(field_texts(head.header@).contains_key(name) == no_members().contains_key(name));
        }
    }
}

/// A request line is understood exactly where it names a known method and a target; then its
/// method and its endpoint are given, and parameters that the query string does not name stay.
pub proof fn law_request_line_is_understood<M>(
    method: Option<M>,
    target: Option<(Seq<char>, Seq<char>)>,
    before: Value,
    after: Value,
    result: Result<(M, String), RequestError>,
    name: Seq<char>,
)
    requires
        line_read(method, target, before, after, result),
    ensures
        result is Ok <==> method is Some && target is Some,
        result is Err ==> after == before,
        !is_object(before) ==> after == before,
        result is Ok ==> method == Some(result->Ok_0.0),
        result is Ok ==> result->Ok_0.1@ == target->Some_0.0,
        result is Ok && is_object(before) && (forall|i: int|
            0 <= i < query_pairs(target->Some_0.1).len() ==> (#[trigger] query_pairs(
                target->Some_0.1,
            )[i]).0 != name) ==> members(after).contains_key(name) == members(before).contains_key(
            name,
        ) && (members(before).contains_key(name) ==> members(after)[name] == members(before)[name]),
{
    if result is Ok && is_object(before) {
        let pairs = query_pairs(target->Some_0.1);
        if forall|i: int| 0 <= i < pairs.len() ==> (#[trigger] pairs[i]).0 != name {
            law_other_members_are_kept(before, after, pairs, name);
        }
    }
}

/// Of the parameters that a request line gives the last pair of a name counts.
pub proof fn law_request_line_gives_parameters<M>(
    method: Option<M>,
    target: Option<(Seq<char>, Seq<char>)>,
    before: Value,
    after: Value,
    result: Result<(M, String), RequestError>,
    at: int,
)
    requires
        line_read(method, target, before, after, result),
        result is Ok,
        is_object(before),
        0 <= at < query_pairs(target->Some_0.1).len(),
        forall|later: int|
            at < later < query_pairs(target->Some_0.1).len() ==> (#[trigger] query_pairs(
                target->Some_0.1,
            )[later]).0 != query_pairs(target->Some_0.1)[at].0,
    ensures
        ({
            let (name, value) = query_pairs(target->Some_0.1)[at];
            members(after).contains_key(name) && string_held(members(after)[name]) == Some(value)
        }),
{
    let pairs = query_pairs(target->Some_0.1);
    law_last_pair_counts(text_members(before), pairs, at);
    assert(text_members(after).contains_key(pairs[at].0));
}

/// A body of plain text is handed on as a string, a JSON document as its value, and a form as
/// `null`; a document that is no JSON, and a body of any other type, is refused.
pub proof fn law_body_is_read_by_its_type(lower: Seq<char>, body: Seq<u8>, value: Value)
    ensures
        lower == "text/plain"@ ==> !body_refused(lower, body) && (body_taken_as(lower, body, value)
            <==> string_held(value) == Some(text_or_empty(body))),
        lower == "application/json"@ ==> (body_refused(lower, body) <==> parsed_json(
            text_or_empty(body),
        ) is None) && (body_taken_as(lower, body, value) <==> parsed_json(text_or_empty(body))
            == Some(value)),
        lower == "application/x-www-form-urlencoded"@ || lower == "multipart/form-data"@
            ==> !body_refused(lower, body) && (body_taken_as(lower, body, value) <==> is_null(
            value,
        )),
        !body_refused(lower, body) ==> lower == "text/plain"@ || lower == "application/json"@
            || lower == "application/x-www-form-urlencoded"@ || lower == "multipart/form-data"@,
{
    lemma_types_differ();
}

/// What a body is read as agrees with whether it is refused and what it is handed on as.
pub proof fn law_refused_bodies_are_not_read(
    lower: Seq<char>,
    body: Seq<u8>,
    result: Result<Option<Value>, BodyError>,
)
    requires
        body_read_as(lower, body, result),
    ensures
        result is Err <==> body_refused(lower, body),
        result == Err::<Option<Value>, BodyError>(BodyError::InvalidJson) <==> lower
            == "application/json"@ && parsed_json(text_or_empty(body)) is None,
        result matches Ok(Some(value)) ==> body_taken_as(lower, body, value) && (lower
            == "text/plain"@ || lower == "application/json"@),
        result matches Ok(None) ==> lower == "application/x-www-form-urlencoded"@ || lower
            == "multipart/form-data"@,
{
    lemma_types_differ();
}

/// The length of a body is the number that its field tells, and nothing where the field is
/// missing or tells none; its type is what its field tells, and else plain text.
pub proof fn law_body_is_declared(fields: Map<Seq<char>, Seq<char>>, name: Seq<char>)
    ensures
        fields.contains_key(name) ==> declared_type(fields, name) == fields[name],
        !fields.contains_key(name) ==> declared_type(fields, name) == "text/plain"@
            && declared_length(fields, name) == 0,
        fields.contains_key(name) ==> match number_of(fields[name]) {
            Some(length) => declared_length(fields, name) == length,
            None => declared_length(fields, name) == 0,
        },
{
}

/// The words of a request line are what stands between its spaces, once the white space around the
/// line is gone: the first is the method and the second the target, each without the white space
/// around it, whatever follows.
pub proof fn law_words_stand_between_spaces(
    line: Seq<char>,
    first: Seq<char>,
    second: Seq<char>,
    rest: Seq<char>,
)
    requires
        !first.contains(' '),
        !second.contains(' '),
        rest.len() > 0 ==> rest[0] == ' ',
    ensures
        trimmed(line) == first + seq![' '] + second + rest ==> {
            &&& method_word(line) == uppercase(trimmed(first))
            &&& has_target(line)
            &&& target(line) == trimmed(second)
            &&& line_target(line) == Some((endpoint_of(trimmed(second)), query_of(trimmed(second))))
        },
        trimmed(line) == first ==> {
            &&& method_word(line) == uppercase(trimmed(first))
            &&& !has_target(line)
            &&& line_target(line) is None
        },
{
    lemma_split_single(first, ' ');
    lemma_split_single(second, ' ');
    if trimmed(line) == first + seq![' '] + second + rest {
        if rest.len() == 0 {
            assert(trimmed(line) =~= first.push(' ') + second);
            law_split_concat(first, second, ' ');
            assert(request_words(line) =~= seq![first, second]);
        } else {
            let behind = rest.drop_first();
            assert(trimmed(line) =~= first.push(' ') + (second.push(' ') + behind));
            law_split_concat(second, behind, ' ');
            law_split_concat(first, second.push(' ') + behind, ' ');
            assert(request_words(line) =~= seq![first] + (seq![second] + split(behind, ' ')));
            assert(request_words(line)[0] == first);
            assert(request_words(line)[1] == second);
        }
    }
}

/// A target is cut at its question marks: the endpoint stands before the first, and the query
/// string between the first and the second, or the end where there is no second.
pub proof fn law_target_is_cut_at_question_marks(
    path: Seq<char>,
    query: Seq<char>,
    more: Seq<char>,
)
    requires
        !path.contains('?'),
        !query.contains('?'),
    ensures
        endpoint_of(path) == path && query_of(path) == Seq::<char>::empty(),
        endpoint_of(path + seq!['?'] + query) == path,
        query_of(path + seq!['?'] + query) == query,
        endpoint_of(path + seq!['?'] + query + seq!['?'] + more) == path,
        query_of(path + seq!['?'] + query + seq!['?'] + more) == query,
{
    lemma_split_single(path, '?');
    lemma_split_single(query, '?');
    let asked = path + seq!['?'] + query;
    assert(asked =~= path.push('?') + query);
    law_split_concat(path, query, '?');
    assert(split(asked, '?') =~= seq![path, query]);
    let longer = asked + seq!['?'] + more;
    assert(longer =~= asked.push('?') + more);
    law_split_concat(asked, more, '?');
    assert(split(longer, '?') =~= seq![path, query] + split(more, '?'));
    assert(split(longer, '?')[0] == path && split(longer, '?')[1] == query);
}

/// The contents of a header are the texts of its fields, each under its name.
pub proof fn law_fields_have_their_texts(fields: Map<Seq<char>, String>, name: Seq<char>)
    ensures
        field_texts(fields).contains_key(name) <==> fields.contains_key(name),
        fields.contains_key(name) ==> field_texts(fields)[name] == fields[name]@,
{
}

} // verus!
