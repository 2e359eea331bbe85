//! A connection of the asynchronous HTTP server from its request line to its end.
//!
//! The program does what an [`Act`] says and hands back what came of it.
use vstd::prelude::*;
use crate::applications::async_web::http::{HttpRequest, Method};
use crate::applications::async_web::default::{BAD_REQUEST, INTERNAL_SERVER_ERROR, NOT_FOUND};
use crate::applications::async_web::protocol::{
    content_length, fields_after, on_body, on_header_line, settled, Dispatch, Handler, Http, Phase,
    RequestStep,
};
use crate::applications::message::{
    declared_length, ends_header, field_texts, head_step, law_blank_line_ends_header,
    law_body_is_declared, law_request_is_taken_up, line_target, method_word, on_request_line,
    HeadStep, RequestHead, Verb,
};
use crate::number::number_of;
use crate::routing::{
    filter_step, filters_along, next_filter, request_handler, targets, FilterStep,
};
use crate::text::{is_white, split};

verus! {

/// How far a connection is. `P` tells where it comes from, `E` is a failure of the program.
pub enum Stage<P, E> {
    /// The request line is read next.
    Opening,
    /// A line of the header is read next.
    Reading(RequestHead<Method>),
    /// The body is read next.
    Receiving(RequestHead<Method>),
    /// The request is complete but for where it comes from, which is asked for next.
    Placing(HttpRequest<()>),
    /// The filters before the handler run; so many have been started.
    Filtering(HttpRequest<P>, usize),
    /// The handler runs, or the response to a request without one is sent.
    Handling(HttpRequest<P>),
    /// The filters after the handler run; so many have been started, and this is what the
    /// handler came to.
    Following(HttpRequest<P>, usize, Result<usize, E>),
    /// A last response is sent. The connection ends with this result, or where there is none
    /// with what sending came to.
    Closing(Option<Result<usize, E>>),
    /// The connection is over.
    Closed,
}

/// What to do next on a connection.
pub enum Act<'h, A, E> {
    /// Read a line.
    ReadLine,
    /// Read so many bytes.
    ReadBody(usize),
    /// Tell where the request comes from.
    TellPeer,
    /// Run the action of this handler on the request.
    Run(&'h Handler<A>),
    /// Send this response.
    Send(&'static str),
    /// End with this result.
    Finish(Result<usize, E>),
    /// Give the connection up.
    Abort,
}

/// What is done after the request line was taken with `step`.
pub open spec fn after_head<A, P, E>(
    step: HeadStep<Method>,
    stage: Stage<P, E>,
    act: Act<'_, A, E>,
) -> bool {
    match step {
        HeadStep::Refuse(response) => {
            &&& act == Act::<'_, A, E>::Send(response)
            &&& stage == Stage::<P, E>::Closing(None)
        },
        HeadStep::Abort => act is Abort && stage is Closed,
        HeadStep::Proceed(head) => act is ReadLine && stage == Stage::<P, E>::Reading(head),
    }
}

/// What is done after a request line; `None` where it could not be read.
pub open spec fn opened<A, P, E>(
    line: Option<Seq<char>>,
    stage: Stage<P, E>,
    act: Act<'_, A, E>,
) -> bool {
    match line {
        None => {
            &&& act == Act::<'_, A, E>::Send(BAD_REQUEST)
            &&& stage == Stage::<P, E>::Closing(None)
        },
        Some(text) => exists|step: HeadStep<Method>| #[trigger]
            head_step(Method::named_by(method_word(text)), line_target(text), step) && after_head(
                step,
                stage,
                act,
            ),
    }
}

/// What is done after a line of the header; `None` where it could not be read.
pub open spec fn header_read<A, P, E>(
    head: RequestHead<Method>,
    line: Option<Seq<char>>,
    stage: Stage<P, E>,
    act: Act<'_, A, E>,
) -> bool {
    if line matches Some(text) && !ends_header(text) {
        &&& act is ReadLine
        &&& stage matches Stage::Reading(after)
        &&& after == (RequestHead { header: after.header, ..head })
        &&& field_texts(after.header@) == fields_after(field_texts(head.header@), line->Some_0)
    } else {
        &&& act == Act::<'_, A, E>::ReadBody(
            declared_length(field_texts(head.header@), "content-length"@),
        )
        &&& stage == Stage::<P, E>::Receiving(head)
    }
}

/// The filters of a phase for a request, in the order in which they run.
pub open spec fn request_filters<A, P>(http: Http<A>, phase: Phase, request: HttpRequest<P>) -> Seq<
    Handler<A>,
> {
    filters_along(http.filters_of(phase), split(request.endpoint@, '/'))
}

/// What is done when the filters before the handler have passed a request on.
pub open spec fn handed_over<A, P, E>(
    http: Http<A>,
    request: HttpRequest<P>,
    stage: Stage<P, E>,
    act: Act<'_, A, E>,
) -> bool {
    &&& stage == Stage::<P, E>::Handling(request)
    &&& match request_handler(http.handlers@, request.method, request.endpoint@) {
        Some(handler) => act matches Act::Run(chosen) && *chosen == handler,
        None => act == Act::<'_, A, E>::Send(NOT_FOUND),
    }
}

/// What is done after `ran` of the filters before the handler have run, the last of them with
/// `last`. A filter that answers or fails ends the connection.
pub open spec fn filters_before<A, P, E>(
    http: Http<A>,
    request: HttpRequest<P>,
    ran: usize,
    last: Result<usize, E>,
    stage: Stage<P, E>,
    act: Act<'_, A, E>,
) -> bool {
    let filters = request_filters(http, Phase::PreHandle, request);
    match filter_step(filters.len() as usize, ran, last) {
        FilterStep::Run(at) => {
            &&& act matches Act::Run(filter) && *filter == filters[at as int]
            &&& stage == Stage::<P, E>::Filtering(request, (ran + 1) as usize)
        },
        FilterStep::Pass => handed_over(http, request, stage, act),
        FilterStep::Stop => act == Act::<'_, A, E>::Finish(Ok(1)) && stage is Closed,
        FilterStep::Fail(response) => {
            &&& act == Act::<'_, A, E>::Send(response)
            &&& stage == Stage::<P, E>::Closing(Some(Ok(1)))
        },
    }
}

/// What is done after `ran` of the filters after the handler have run, the last of them with
/// `last`, where the handler came to `result`. The connection ends with that, whatever the
/// filters do.
pub open spec fn filters_after<A, P, E>(
    http: Http<A>,
    request: HttpRequest<P>,
    ran: usize,
    last: Result<usize, E>,
    result: Result<usize, E>,
    stage: Stage<P, E>,
    act: Act<'_, A, E>,
) -> bool {
    let filters = request_filters(http, Phase::PostHandle, request);
    match filter_step(filters.len() as usize, ran, last) {
        FilterStep::Run(at) => {
            &&& act matches Act::Run(filter) && *filter == filters[at as int]
            &&& stage == Stage::<P, E>::Following(request, (ran + 1) as usize, result)
        },
        FilterStep::Pass => act == Act::<'_, A, E>::Finish(result) && stage is Closed,
        FilterStep::Stop => act == Act::<'_, A, E>::Finish(result) && stage is Closed,
        FilterStep::Fail(response) => {
            &&& act == Act::<'_, A, E>::Send(response)
            &&& stage == Stage::<P, E>::Closing(Some(result))
        },
    }
}

/// What is done after the body of a request was taken with `step`.
pub open spec fn after_body<A, P, E>(
    step: RequestStep<()>,
    stage: Stage<P, E>,
    act: Act<'_, A, E>,
) -> bool {
    match step {
        RequestStep::Refuse(response) => {
            &&& act == Act::<'_, A, E>::Send(response)
            &&& stage == Stage::<P, E>::Closing(None)
        },
        RequestStep::Complete(request) => {
            act is TellPeer && stage == Stage::<P, E>::Placing(request)
        },
    }
}

/// The request, now that it is known where it comes from.
pub open spec fn placed<P>(request: HttpRequest<()>, peer: P) -> HttpRequest<P> {
    HttpRequest {
        method: request.method,
        endpoint: request.endpoint,
        peer,
        header: request.header,
        query_params: request.query_params,
        body_params: request.body_params,
    }
}

/// What is done after an action has run, or a response has been sent, with `result`.
pub open spec fn carried_on<A, P, E>(
    http: Http<A>,
    before: Stage<P, E>,
    result: Result<usize, E>,
    stage: Stage<P, E>,
    act: Act<'_, A, E>,
) -> bool {
    match before {
        Stage::Filtering(request, ran) => filters_before(http, request, ran, result, stage, act),
        Stage::Handling(request) => filters_after(http, request, 0, Ok(0), result, stage, act),
        Stage::Following(request, ran, kept) => filters_after(
            http,
            request,
            ran,
            result,
            kept,
            stage,
            act,
        ),
        Stage::Closing(Some(kept)) => act == Act::<'_, A, E>::Finish(kept) && stage is Closed,
        Stage::Closing(None) => act == Act::<'_, A, E>::Finish(result) && stage is Closed,
        _ => false,
    }
}

/// Whether an action runs or a response is sent.
pub open spec fn busy<P, E>(stage: Stage<P, E>) -> bool {
    stage is Filtering || stage is Handling || stage is Following || stage is Closing
}

/// A connection of the asynchronous HTTP server.
pub struct Connection<P, E> {
    pub stage: Stage<P, E>,
}

impl<P, E> Connection<P, E> {
    /// A connection whose request line is read next.
    pub fn new() -> (connection: Self)
        ensures
            connection.stage is Opening,
    {
        Self { stage: Stage::Opening }
    }

    /// The request, while actions run on it.
    pub fn request(&self) -> (request: Option<&HttpRequest<P>>)
        ensures
            match self.stage {
                Stage::Filtering(held, _) => request == Some(&held),
                Stage::Handling(held) => request == Some(&held),
                Stage::Following(held, _, _) => request == Some(&held),
                _ => request is None,
            },
    {
        match &self.stage {
            Stage::Filtering(request, _) => Some(request),
            Stage::Handling(request) => Some(request),
            Stage::Following(request, _, _) => Some(request),
            _ => None,
        }
    }

    /// Takes the stage out to work on it.
    fn leave(&mut self) -> (stage: Stage<P, E>)
        ensures
            stage == old(self).stage,
            final(self).stage is Closed,
    {
        let mut stage = Stage::Closed;
        std::mem::swap(&mut stage, &mut self.stage);
        stage
    }

    /// Takes a line; `None` where it could not be read.
    pub fn on_line<'h, A>(&mut self, line: Option<&str>) -> (act: Act<'h, A, E>)
        requires
            old(self).stage is Opening || old(self).stage is Reading,
        ensures
            ({
                let text = match line {
                    Some(text) => Some(text@),
                    None => None,
                };
                match old(self).stage {
                    Stage::Reading(head) => header_read(head, text, final(self).stage, act),
                    _ => opened(text, final(self).stage, act),
                }
            }),
    {
        match self.leave() {
            Stage::Reading(head) => {
                let mut head = head;
                if on_header_line(&mut head.header, line) {
                    self.stage = Stage::Reading(head);
                    Act::ReadLine
                } else {
                    let length: usize = content_length(&head.header);
                    self.stage = Stage::Receiving(head);
                    Act::ReadBody(length)
                }
            },
            _ => {
                let step: HeadStep<Method> = on_request_line(line);
                match step {
                    HeadStep::Refuse(response) => {
                        self.stage = Stage::Closing(None);
                        Act::Send(response)
                    },
                    HeadStep::Abort => Act::Abort,
                    HeadStep::Proceed(head) => {
                        self.stage = Stage::Reading(head);
                        Act::ReadLine
                    },
                }
            },
        }
    }

    /// Takes the body of a request; `None` where it could not be read.
    pub fn on_body<'h, A>(&mut self, body: Option<Vec<u8>>) -> (act: Act<'h, A, E>)
        requires
            old(self).stage is Receiving,
        ensures
            exists|step: RequestStep<()>| #[trigger]
                settled(old(self).stage->Receiving_0, (), body, step) && after_body(
                    step,
                    final(self).stage,
                    act,
                ),
    {
        match self.leave() {
            Stage::Receiving(head) => {
                let step = on_body(head, (), body);
                let ghost taken = step;
                assert(settled(head, (), body, taken));
                match step {
                    RequestStep::Refuse(response) => {
                        self.stage = Stage::Closing(None);
                        Act::Send(response)
                    },
                    RequestStep::Complete(request) => {
                        self.stage = Stage::Placing(request);
                        Act::TellPeer
                    },
                }
            },
            _ => Act::Abort,
        }
    }

    /// Takes where the request comes from, and goes on to the filters before its handler.
    pub fn on_peer<'h, A>(&mut self, http: &'h Http<A>, peer: P) -> (act: Act<'h, A, E>)
        requires
            old(self).stage is Placing,
        ensures
            filters_before(
                *http,
                placed(old(self).stage->Placing_0, peer),
                0,
                Ok(0),
                final(self).stage,
                act,
            ),
    {
        match self.leave() {
            Stage::Placing(request) => {
                let request = HttpRequest::new(
                    request.method,
                    request.endpoint,
                    peer,
                    request.header,
                    request.query_params,
                    request.body_params,
                );
                self.filter_before(http, request, 0, Ok(0))
            },
            _ => Act::Abort,
        }
    }

    /// Takes what an action, or sending a response, came to.
    pub fn on_done<'h, A>(&mut self, http: &'h Http<A>, result: Result<usize, E>) -> (act: Act<
        'h,
        A,
        E,
    >)
        requires
            busy(old(self).stage),
        ensures
            carried_on(*http, old(self).stage, result, final(self).stage, act),
    {
        match self.leave() {
            Stage::Filtering(request, ran) => self.filter_before(http, request, ran, result),
            Stage::Handling(request) => self.filter_after(http, request, 0, Ok(0), result),
            Stage::Following(request, ran, kept) => self.filter_after(
                http,
                request,
                ran,
                result,
                kept,
            ),
            Stage::Closing(kept) => match kept {
                Some(kept) => Act::Finish(kept),
                None => Act::Finish(result),
            },
            _ => Act::Abort,
        }
    }

    /// Goes on after `ran` of the filters before the handler.
    fn filter_before<'h, A>(
        &mut self,
        http: &'h Http<A>,
        request: HttpRequest<P>,
        ran: usize,
        last: Result<usize, E>,
    ) -> (act: Act<'h, A, E>)
        requires
            old(self).stage is Closed,
        ensures
            filters_before(*http, request, ran, last, final(self).stage, act),
    {
        let filters = http.filters(Phase::PreHandle, request.endpoint.as_str());
        assert(targets(filters@).len() == filters@.len());
        match next_filter(filters.len(), ran, &last) {
            FilterStep::Run(at) => {
                let filter = filters[at];
                assert(targets(filters@)[at as int] == *filters@[at as int]);
                self.stage = Stage::Filtering(request, ran + 1);
                Act::Run(filter)
            },
            FilterStep::Pass => {
                let found = http.dispatch(&request.method, request.endpoint.as_str());
                self.stage = Stage::Handling(request);
                match found {
                    Dispatch::Handle(handler) => Act::Run(handler),
                    Dispatch::Missing(response) => Act::Send(response),
                }
            },
            FilterStep::Stop => Act::Finish(Ok(1)),
            FilterStep::Fail(response) => {
                self.stage = Stage::Closing(Some(Ok(1)));
                Act::Send(response)
            },
        }
    }

    /// Goes on after `ran` of the filters after the handler.
    fn filter_after<'h, A>(
        &mut self,
        http: &'h Http<A>,
        request: HttpRequest<P>,
        ran: usize,
        last: Result<usize, E>,
        result: Result<usize, E>,
    ) -> (act: Act<'h, A, E>)
        requires
            old(self).stage is Closed,
        ensures
            filters_after(*http, request, ran, last, result, final(self).stage, act),
    {
        let filters = http.filters(Phase::PostHandle, request.endpoint.as_str());
        assert(targets(filters@).len() == filters@.len());
        match next_filter(filters.len(), ran, &last) {
            FilterStep::Run(at) => {
                let filter = filters[at];
                assert(targets(filters@)[at as int] == *filters@[at as int]);
                self.stage = Stage::Following(request, ran + 1, result);
                Act::Run(filter)
            },
            FilterStep::Pass => Act::Finish(result),
            FilterStep::Stop => Act::Finish(result),
            FilterStep::Fail(response) => {
                self.stage = Stage::Closing(Some(result));
                Act::Send(response)
            },
        }
    }
}

/// A handler is run only when every filter before it has passed the request on: where a
/// filter answers or fails, the connection goes on to its end.
pub proof fn law_filters_guard_the_handler<A, P, E>(
    http: Http<A>,
    request: HttpRequest<P>,
    ran: usize,
    result: Result<usize, E>,
    stage: Stage<P, E>,
    act: Act<'_, A, E>,
)
    requires
        carried_on(http, Stage::Filtering(request, ran), result, stage, act),
    ensures
        stage is Handling ==> result == Ok::<usize, E>(0) && ran >= request_filters(
            http,
            Phase::PreHandle,
            request,
        ).len() as usize,
        result != Ok::<usize, E>(0) ==> stage is Closed || stage is Closing,
{
}

/// What the connection will end with, once the handler has run.
pub open spec fn promised<P, E>(stage: Stage<P, E>) -> Option<Result<usize, E>> {
    match stage {
        Stage::Following(_, _, result) => Some(result),
        Stage::Closing(kept) => kept,
        _ => None,
    }
}

/// A connection ends with what its handler came to, whatever the filters after it do.
pub proof fn law_handler_decides_the_result<A, P, E>(
    http: Http<A>,
    before: Stage<P, E>,
    result: Result<usize, E>,
    stage: Stage<P, E>,
    act: Act<'_, A, E>,
)
    requires
        carried_on(http, before, result, stage, act),
    ensures
        before is Handling ==> promised(stage) == Some(result) || act == Act::<'_, A, E>::Finish(
            result,
        ),
        promised(before) matches Some(kept) ==> promised(stage) == Some(kept) || act == Act::<
            '_,
            A,
            E,
        >::Finish(kept),
{
}

/// How many more actions and responses a connection can have, at most.
pub open spec fn left_to_do<A, P, E>(http: Http<A>, stage: Stage<P, E>) -> nat {
    match stage {
        Stage::Filtering(request, ran) => {
            let before = request_filters(http, Phase::PreHandle, request).len();
            let after = request_filters(http, Phase::PostHandle, request).len();
            4 + after + if ran < before {
                (before - ran) as nat
            } else {
                0
            }
        },
        Stage::Handling(request) => 3 + request_filters(http, Phase::PostHandle, request).len(),
        Stage::Following(request, ran, _) => {
            let after = request_filters(http, Phase::PostHandle, request).len();
            2 + if ran < after {
                (after - ran) as nat
            } else {
                0
            }
        },
        Stage::Closing(_) => 1,
        _ => 0,
    }
}

/// Whether the filters of the request can be counted by the machine.
pub open spec fn countable<A, P, E>(http: Http<A>, stage: Stage<P, E>) -> bool {
    match stage {
        Stage::Filtering(request, _) => request_filters(http, Phase::PreHandle, request).len()
            <= usize::MAX,
        Stage::Handling(request) => request_filters(http, Phase::PostHandle, request).len()
            <= usize::MAX,
        Stage::Following(request, _, _) => request_filters(http, Phase::PostHandle, request).len()
            <= usize::MAX,
        _ => true,
    }
}

/// Every connection comes to an end: with each action and each response less is left to do.
pub proof fn law_connection_ends<A, P, E>(
    http: Http<A>,
    before: Stage<P, E>,
    result: Result<usize, E>,
    stage: Stage<P, E>,
    act: Act<'_, A, E>,
)
    requires
        carried_on(http, before, result, stage, act),
        countable(http, before),
    ensures
        left_to_do(http, stage) < left_to_do(http, before),
{
}

/// A result is given exactly when the connection is over; until then an action or a response
/// is under way.
pub proof fn law_finish_is_final<A, P, E>(
    http: Http<A>,
    before: Stage<P, E>,
    result: Result<usize, E>,
    stage: Stage<P, E>,
    act: Act<'_, A, E>,
)
    requires
        carried_on(http, before, result, stage, act),
    ensures
        act is Finish <==> stage is Closed,
        act is Run || act is Send ==> busy(stage),
        act is Finish || act is Run || act is Send,
{
}

/// A connection goes on from its request line to the header exactly where the line names a known
/// method and a target, and has no two dots next to each other in the endpoint: it keeps the method
/// and the endpoint of the line. A known method without a target ends it, and any other line
/// is answered as a bad request.
pub proof fn law_request_line_leads_on<A, P, E>(
    text: Seq<char>,
    stage: Stage<P, E>,
    act: Act<'_, A, E>,
)
    requires
        opened(Some(text), stage, act),
    ensures
        ({
            let method = Method::named_by(method_word(text));
            let target = line_target(text);
            let two_dots = target is Some && exists|i: int|
                0 <= i < target->Some_0.0.len() - 1 && #[trigger] line_target(text)->Some_0.0[i] == '.'
                    && line_target(text)->Some_0.0[i + 1] == '.';
            &&& act is ReadLine <==> method is Some && target is Some && !two_dots
            &&& act is ReadLine <==> stage is Reading
            &&& act is Abort <==> method is Some && target is None
            &&& act is Abort ==> stage is Closed
            &&& act !is ReadLine && act !is Abort ==> act == Act::<'_, A, E>::Send(BAD_REQUEST)
                && stage == Stage::<P, E>::Closing(None)
            &&& stage matches Stage::Reading(head) ==> {
                &&& method == Some(head.method)
                &&& head.endpoint@ == target->Some_0.0
                &&& head.header@.dom() =~= Set::<Seq<char>>::empty()
            }
        }),
{
    let step = choose|step: HeadStep<Method>| #[trigger]
        head_step(Method::named_by(method_word(text)), line_target(text), step) && after_head(
            step,
            stage,
            act,
        );
    law_request_is_taken_up(Method::named_by(method_word(text)), line_target(text), step, 0);
}

/// A connection whose request line cannot be read is answered as a bad request and ends.
pub proof fn law_unread_request_is_refused<A, P, E>(stage: Stage<P, E>, act: Act<'_, A, E>)
    requires
        opened(None, stage, act),
    ensures
        act == Act::<'_, A, E>::Send(BAD_REQUEST),
        stage == Stage::<P, E>::Closing(None),
{
}

/// The header goes on as long as lines come that are not blank, each of which stores its field, and
/// the request stays as it is otherwise. After that as many bytes are read as the header says, and
/// none where it says nothing or no number.
pub proof fn law_header_leads_to_the_body<A, P, E>(
    head: RequestHead<Method>,
    line: Option<Seq<char>>,
    stage: Stage<P, E>,
    act: Act<'_, A, E>,
)
    requires
        header_read(head, line, stage, act),
    ensures
        ({
            let blank = line is None || forall|i: int|
                0 <= i < line->Some_0.len() ==> is_white(#[trigger] line->Some_0[i]);
            let fields = field_texts(head.header@);
            &&& blank ==> stage == Stage::<P, E>::Receiving(head)
            &&& blank ==> act == Act::<'_, A, E>::ReadBody(
                if fields.contains_key("content-length"@) && number_of(
                    fields["content-length"@],
                ) is Some {
                    number_of(fields["content-length"@])->Some_0
                } else {
                    0
                },
            )
            &&& !blank ==> act is ReadLine && stage is Reading
            &&& stage matches Stage::Reading(after) ==> {
                &&& after.method == head.method
                &&& after.endpoint@ == head.endpoint@
                &&& after.query_params == head.query_params
                &&& field_texts(after.header@) == fields_after(fields, line->Some_0)
            }
        }),
{
    if let Some(text) = line {
        law_blank_line_ends_header(text);
    }
    law_body_is_declared(field_texts(head.header@), "content-length"@);
}

/// A body that is not understood, or could not be read, is answered as a bad request, and the
/// connection ends with what sending that came to. A request that is complete goes on to its
/// filters, as it is, once it is known where it comes from.
pub proof fn law_complete_request_goes_on<A, P, E>(
    http: Http<A>,
    head: RequestHead<Method>,
    body: Option<Vec<u8>>,
    step: RequestStep<()>,
    stage: Stage<P, E>,
    act: Act<'_, A, E>,
    peer: P,
    sent: Result<usize, E>,
    last: Stage<P, E>,
    end: Act<'_, A, E>,
)
    requires
        settled(head, (), body, step),
        after_body(step, stage, act),
    ensures
        step is Refuse ==> act == Act::<'_, A, E>::Send(BAD_REQUEST),
        step is Refuse && carried_on(http, stage, sent, last, end) ==> end == Act::<
            '_,
            A,
            E,
        >::Finish(sent),
        step matches RequestStep::Complete(request) ==> act is TellPeer && stage == Stage::<
            P,
            E,
        >::Placing(request),
        step matches RequestStep::Complete(request) ==> ({
            let whole = placed(request, peer);
            &&& whole.peer == peer
            &&& whole.method == head.method
            &&& whole.endpoint@ == head.endpoint@
            &&& whole.header == head.header
            &&& whole.query_params == head.query_params
            &&& whole.body_params == request.body_params
        }),
{
}

/// The filters before the handler run one after the other, in their order, as long as they send
/// nothing. When the last of them has passed the request on, the handler that the route of the
/// request has is run, or the response to a request without one is sent. A filter that sends
/// something ends the connection, and one that fails is answered for.
pub proof fn law_filters_before_take_turns<A, P, E>(
    http: Http<A>,
    request: HttpRequest<P>,
    ran: usize,
    result: Result<usize, E>,
    stage: Stage<P, E>,
    act: Act<'_, A, E>,
)
    requires
        filters_before(http, request, ran, result, stage, act) || carried_on(
            http,
            Stage::Filtering(request, ran),
            result,
            stage,
            act,
        ),
        filters_along(http.pre_handlers@, split(request.endpoint@, '/')).len() <= usize::MAX,
    ensures
        ({
            let filters = filters_along(http.pre_handlers@, split(request.endpoint@, '/'));
            let handler = request_handler(http.handlers@, request.method, request.endpoint@);
            &&& result == Ok::<usize, E>(0) && ran < filters.len() ==> {
                &&& act matches Act::Run(filter) && *filter == filters[ran as int]
                &&& stage == Stage::<P, E>::Filtering(request, (ran + 1) as usize)
            }
            &&& result == Ok::<usize, E>(0) && ran >= filters.len() ==> {
                &&& stage == Stage::<P, E>::Handling(request)
                &&& handler matches Some(chosen) ==> act matches Act::Run(run) && *run == chosen
                &&& handler is None ==> act == Act::<'_, A, E>::Send(NOT_FOUND)
            }
            &&& result is Ok && result != Ok::<usize, E>(0) ==> act == Act::<'_, A, E>::Finish(Ok(1))
                && stage is Closed
            &&& result is Err ==> act == Act::<'_, A, E>::Send(INTERNAL_SERVER_ERROR) && stage
                == Stage::<P, E>::Closing(Some(Ok(1)))
        }),
{
}

/// The filters after the handler run one after the other, in their order, as long as they send
/// nothing; a filter that fails is answered for. However they end, and where there are none, the
/// connection ends with what the handler came to.
pub proof fn law_filters_after_take_turns<A, P, E>(
    http: Http<A>,
    request: HttpRequest<P>,
    ran: usize,
    result: Result<usize, E>,
    kept: Result<usize, E>,
    stage: Stage<P, E>,
    act: Act<'_, A, E>,
)
    requires
        carried_on(http, Stage::Following(request, ran, kept), result, stage, act) || (carried_on(
            http,
            Stage::Handling(request),
            kept,
            stage,
            act,
        ) && ran == 0 && result == Ok::<usize, E>(0)),
        filters_along(http.post_handlers@, split(request.endpoint@, '/')).len() <= usize::MAX,
    ensures
        ({
            let filters = filters_along(http.post_handlers@, split(request.endpoint@, '/'));
            &&& result == Ok::<usize, E>(0) && ran < filters.len() ==> {
                &&& act matches Act::Run(filter) && *filter == filters[ran as int]
                &&& stage == Stage::<P, E>::Following(request, (ran + 1) as usize, kept)
            }
            &&& result == Ok::<usize, E>(0) && ran >= filters.len() || (result is Ok && result
                != Ok::<usize, E>(0)) ==> act == Act::<'_, A, E>::Finish(kept) && stage is Closed
            &&& result is Err ==> act == Act::<'_, A, E>::Send(INTERNAL_SERVER_ERROR) && stage
                == Stage::<P, E>::Closing(Some(kept))
        }),
{
}

/// After a last response the connection ends: with the result that was settled before, and where
/// none was, with what sending the response came to.
pub proof fn law_last_response_ends_the_connection<A, P, E>(
    http: Http<A>,
    settled_result: Option<Result<usize, E>>,
    sent: Result<usize, E>,
    stage: Stage<P, E>,
    act: Act<'_, A, E>,
)
    requires
        carried_on(http, Stage::Closing(settled_result), sent, stage, act),
    ensures
        stage is Closed,
        settled_result matches Some(result) ==> act == Act::<'_, A, E>::Finish(result),
        settled_result is None ==> act == Act::<'_, A, E>::Finish(sent),
{
}

} // verus!
