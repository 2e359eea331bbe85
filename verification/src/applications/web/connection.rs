//! A connection of the HTTP server that gives each connection a thread.
//!
//! The program does what an [`Act`] says and hands back what came of it.
use vstd::prelude::*;
use crate::applications::async_web::default::{BAD_REQUEST, NOT_FOUND};
use crate::applications::message::{
    declared_length, ends_header, field_texts, head_step, law_blank_line_ends_header,
    law_body_is_declared, law_request_is_taken_up, line_target, method_word, on_request_line,
    HeadStep, RequestHead, Verb,
};
use crate::number::number_of;
use crate::text::is_white;
use crate::applications::web::http::{HttpRequest, Method};
use crate::applications::web::protocol::{
    content_length, fields_after, on_body, on_header_line, settled, Dispatch, Handler, Http,
    RequestStep,
};
use crate::routing::request_handler;

verus! {

/// How far a connection is.
pub enum Stage {
    /// The request line is read next.
    Opening,
    /// A line of the header is read next.
    Reading(RequestHead<Method>),
    /// The body is read next.
    Receiving(RequestHead<Method>),
    /// The last thing to do has been told.
    Closed,
}

/// What to do next on a connection. `P` tells where it comes from.
pub enum Act<'h, A, P> {
    /// Read a line.
    ReadLine,
    /// Read so many bytes.
    ReadBody(usize),
    /// Run the action of this handler on this request and end with its result.
    Run(&'h Handler<A>, HttpRequest<P>),
    /// Send this response and end.
    Send(&'static str),
    /// Give the connection up.
    Abort,
}

/// What is done after the request line was taken with `step`.
pub open spec fn after_head<A, P>(step: HeadStep<Method>, stage: Stage, act: Act<'_, A, P>) -> bool {
    match step {
        HeadStep::Refuse(response) => act == Act::<'_, A, P>::Send(response) && stage is Closed,
        HeadStep::Abort => act is Abort && stage is Closed,
        HeadStep::Proceed(head) => act is ReadLine && stage == Stage::Reading(head),
    }
}

/// What is done after a request line; `None` where it could not be read.
pub open spec fn opened<A, P>(line: Option<Seq<char>>, stage: Stage, act: Act<'_, A, P>) -> bool {
    match line {
        None => act == Act::<'_, A, P>::Send(BAD_REQUEST) && stage is Closed,
        Some(text) => exists|step: HeadStep<Method>| #[trigger]
            head_step(Method::named_by(method_word(text)), line_target(text), step) && after_head(
                step,
                stage,
                act,
            ),
    }
}

/// What is done after a line of the header; `None` where it could not be read.
pub open spec fn header_read<A, P>(
    head: RequestHead<Method>,
    line: Option<Seq<char>>,
    stage: Stage,
    act: Act<'_, A, P>,
) -> bool {
    if line matches Some(text) && !ends_header(text) {
        &&& act is ReadLine
        &&& stage matches Stage::Reading(after)
        &&& after == (RequestHead { header: after.header, ..head })
        &&& field_texts(after.header@) == fields_after(field_texts(head.header@), line->Some_0)
    } else {
        &&& act == Act::<'_, A, P>::ReadBody(
            declared_length(field_texts(head.header@), "Content-Length"@),
        )
        &&& stage == Stage::Receiving(head)
    }
}

/// What is done after the body of a request was taken with `step`: a complete request goes to
/// its handler, or is answered where it has none.
pub open spec fn after_body<A, P>(
    http: Http<A>,
    step: RequestStep<P>,
    stage: Stage,
    act: Act<'_, A, P>,
) -> bool {
    &&& stage is Closed
    &&& match step {
        RequestStep::Refuse(response) => act == Act::<'_, A, P>::Send(response),
        RequestStep::Complete(request) => match request_handler(
            http.handlers@,
            request.method,
            request.endpoint@,
        ) {
            Some(handler) => act matches Act::Run(chosen, handed) && *chosen == handler && handed
                == request,
            None => act == Act::<'_, A, P>::Send(NOT_FOUND),
        },
    }
}

/// A connection of the HTTP server.
pub struct Connection {
    pub stage: Stage,
}

impl Connection {
    /// A connection whose request line is read next.
    pub fn new() -> (connection: Self)
        ensures
            connection.stage is Opening,
    {
        Self { stage: Stage::Opening }
    }

    /// Takes the stage out to work on it.
    fn leave(&mut self) -> (stage: Stage)
        ensures
            stage == old(self).stage,
            final(self).stage is Closed,
    {
        let mut stage = Stage::Closed;
        std::mem::swap(&mut stage, &mut self.stage);
        stage
    }

    /// Takes a line; `None` where it could not be read.
    pub fn on_line<'h, A, P>(&mut self, line: Option<&str>) -> (act: Act<'h, A, P>)
        requires
            old(self).stage is Opening || old(self).stage is Reading,
        ensures
            ({
                let text = match line {
                    Some(text) => Some(text@),
                    None => None,
                };
                match old(self).stage {
                    Stage::Reading(head) => header_read(head, text, final(self).stage, act),
                    _ => opened(text, final(self).stage, act),
                }
            }),
    {
        match self.leave() {
            Stage::Reading(head) => {
                let mut head = head;
                if on_header_line(&mut head.header, line) {
                    self.stage = Stage::Reading(head);
                    Act::ReadLine
                } else {
                    let length: usize = content_length(&head.header);
                    self.stage = Stage::Receiving(head);
                    Act::ReadBody(length)
                }
            },
            _ => {
                let step: HeadStep<Method> = on_request_line(line);
                match step {
                    HeadStep::Refuse(response) => Act::Send(response),
                    HeadStep::Abort => Act::Abort,
                    HeadStep::Proceed(head) => {
                        self.stage = Stage::Reading(head);
                        Act::ReadLine
                    },
                }
            },
        }
    }

    /// Takes the body of a request and where it comes from; `None` where the body could not
    /// be read.
    pub fn on_body<'h, A, P>(&mut self, http: &'h Http<A>, peer: P, body: Option<Vec<u8>>) -> (act:
        Act<'h, A, P>)
        requires
            old(self).stage is Receiving,
        ensures
            exists|step: RequestStep<P>| #[trigger]
                settled(old(self).stage->Receiving_0, peer, body, step) && after_body(
                    *http,
                    step,
                    final(self).stage,
                    act,
                ),
    {
        match self.leave() {
            Stage::Receiving(head) => {
                let step = on_body(head, peer, body);
                let ghost taken = step;
                assert(settled(head, peer, body, taken));
                match step {
                    RequestStep::Refuse(response) => Act::Send(response),
                    RequestStep::Complete(request) => {
                        match http.dispatch(&request.method, request.endpoint.as_str()) {
                            Dispatch::Handle(handler) => Act::Run(handler, request),
                            Dispatch::Missing(response) => Act::Send(response),
                        }
                    },
                }
            },
            _ => Act::Abort,
        }
    }
}

/// A request line is answered at once with the response to a bad request, or the header is
/// read, or the connection is given up: no handler runs on a line alone.
pub proof fn law_lines_run_no_handler<A, P>(
    line: Option<Seq<char>>,
    stage: Stage,
    act: Act<'_, A, P>,
)
    requires
        opened(line, stage, act),
    ensures
        act matches Act::Send(response) ==> response == BAD_REQUEST,
        act is Send || act is Abort || act is ReadLine,
        act is ReadLine <==> stage is Reading,
{
}

/// A connection goes on from its request line to the header exactly where the line names a known
/// method and a target, and has no two dots next to each other in the endpoint: it keeps the method
/// and the endpoint of the line. A known method without a target ends it, and any other line
/// is answered as a bad request.
pub proof fn law_request_line_leads_on<A, P>(
    text: Seq<char>,
    stage: Stage,
    act: Act<'_, A, P>,
)
    requires
        opened(Some(text), stage, act),
    ensures
        ({
            let method = Method::named_by(method_word(text));
            let target = line_target(text);
            let two_dots = target is Some && exists|i: int|
                0 <= i < target->Some_0.0.len() - 1 && #[trigger] line_target(text)->Some_0.0[i] == '.'
                    && line_target(text)->Some_0.0[i + 1] == '.';
            &&& act is ReadLine <==> method is Some && target is Some && !two_dots
            &&& act is ReadLine <==> stage is Reading
            &&& act is Abort <==> method is Some && target is None
            &&& act is Abort ==> stage is Closed
            &&& act !is ReadLine && act !is Abort ==> act == Act::<'_, A, P>::Send(BAD_REQUEST)
                && stage is Closed
            &&& stage matches Stage::Reading(head) ==> {
                &&& method == Some(head.method)
                &&& head.endpoint@ == target->Some_0.0
                &&& head.header@.dom() =~= Set::<Seq<char>>::empty()
            }
        }),
{
    let step = choose|step: HeadStep<Method>| #[trigger]
        head_step(Method::named_by(method_word(text)), line_target(text), step) && after_head(
            step,
            stage,
            act,
        );
    law_request_is_taken_up(Method::named_by(method_word(text)), line_target(text), step, 0);
}

/// A connection whose request line cannot be read is answered as a bad request and ends.
pub proof fn law_unread_request_is_refused<A, P>(stage: Stage, act: Act<'_, A, P>)
    requires
        opened(None, stage, act),
    ensures
        act == Act::<'_, A, P>::Send(BAD_REQUEST),
        stage is Closed,
{
}

/// The header goes on as long as lines come that are not blank, each of which stores its field, and
/// the request stays as it is otherwise. After that as many bytes are read as the header says, and
/// none where it says nothing or no number.
pub proof fn law_header_leads_to_the_body<A, P>(
    head: RequestHead<Method>,
    line: Option<Seq<char>>,
    stage: Stage,
    act: Act<'_, A, P>,
)
    requires
        header_read(head, line, stage, act),
    ensures
        ({
            let blank = line is None || forall|i: int|
                0 <= i < line->Some_0.len() ==> is_white(#[trigger] line->Some_0[i]);
            let fields = field_texts(head.header@);
            &&& blank ==> stage == Stage::Receiving(head)
            &&& blank ==> act == Act::<'_, A, P>::ReadBody(
                if fields.contains_key("Content-Length"@) && number_of(
                    fields["Content-Length"@],
                ) is Some {
                    number_of(fields["Content-Length"@])->Some_0
                } else {
                    0
                },
            )
            &&& !blank ==> act is ReadLine && stage is Reading
            &&& stage matches Stage::Reading(after) ==> {
                &&& after.method == head.method
                &&& after.endpoint@ == head.endpoint@
                &&& after.query_params == head.query_params
                &&& field_texts(after.header@) == fields_after(fields, line->Some_0)
            }
        }),
{
    if let Some(text) = line {
        law_blank_line_ends_header(text);
    }
    law_body_is_declared(field_texts(head.header@), "Content-Length"@);
}

/// A request is handed over with its body to the handler that its route has, as it is, and answered
/// where it has none; one whose body is not understood, or could not be read, is answered as a bad
/// request. Then the connection ends.
pub proof fn law_request_is_handed_over<A, P>(
    http: Http<A>,
    head: RequestHead<Method>,
    peer: P,
    body: Option<Vec<u8>>,
    step: RequestStep<P>,
    stage: Stage,
    act: Act<'_, A, P>,
)
    requires
        settled(head, peer, body, step),
        after_body(http, step, stage, act),
    ensures
        stage is Closed,
        step is Refuse ==> act == Act::<'_, A, P>::Send(BAD_REQUEST),
        step matches RequestStep::Complete(request) ==> {
            let handler = request_handler(http.handlers@, head.method, head.endpoint@);
            &&& handler matches Some(chosen) ==> {
                &&& act matches Act::Run(run, handed)
                &&& *run == chosen
                &&& handed.method == head.method
                &&& handed.endpoint@ == head.endpoint@
                &&& handed.peer == peer
                &&& handed.header == head.header
                &&& handed.query_params == head.query_params
                &&& handed.body_params == request.body_params
            }
            &&& handler is None ==> act == Act::<'_, A, P>::Send(NOT_FOUND)
        },
{
}

} // verus!
