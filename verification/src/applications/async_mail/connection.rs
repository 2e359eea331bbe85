//! A connection of the asynchronous mail server from its greeting to its end.
//!
//! The program does what an [`Act`] says and hands back what came of it.
use std::sync::Arc;
use rustls::ServerConfig;
use vstd::prelude::*;
use crate::applications::async_mail::protocol::{
    law_leave_is_noted, law_upgrade_needs_settings, mail_step, MailStep, MailStepModel, Smtp,
};
use crate::applications::async_mail::smtp::{fresh_session, SessionModel, SmtpSession};
use crate::applications::mail::command::greeting_text;
use crate::tls::share_config;

verus! {

/// How far a connection is, with what its client has said until then.
pub enum Stage {
    /// A text is sent; a line is read after that.
    Replying(SmtpSession),
    /// The line that announces TLS is sent; TLS with these settings begins after that.
    Announcing(SmtpSession, Arc<ServerConfig>),
    /// The connection goes over to TLS; a line is read after that.
    Securing(SmtpSession),
    /// The farewell is sent; the session ends after that.
    Leaving(SmtpSession),
    /// A line is read.
    Reading(SmtpSession),
    /// The session has been handed over to be followed up.
    Following,
    /// The connection is over.
    Closed,
}

/// What to do next on a connection; `E` is a failure of the program.
pub enum Act<E> {
    /// Send this text.
    Send(String),
    /// Read a line.
    ReadLine,
    /// Go over to TLS with these settings.
    Secure(Arc<ServerConfig>),
    /// Follow up this session.
    Follow(SmtpSession),
    /// End with this result.
    Finish(Result<usize, E>),
}

/// How far a connection is, as a value of specifications.
pub enum StageModel {
    Replying(SessionModel),
    Announcing(SessionModel, Arc<ServerConfig>),
    Securing(SessionModel),
    Leaving(SessionModel),
    Reading(SessionModel),
    Following,
    Closed,
}

/// What to do next, as a value of specifications.
pub enum ActModel<E> {
    Send(Seq<char>),
    ReadLine,
    Secure(Arc<ServerConfig>),
    Follow(SessionModel),
    Finish(Result<usize, E>),
}

impl View for Stage {
    type V = StageModel;

    open spec fn view(&self) -> StageModel {
        match self {
            Stage::Replying(session) => StageModel::Replying(session@),
            Stage::Announcing(session, config) => StageModel::Announcing(session@, *config),
            Stage::Securing(session) => StageModel::Securing(session@),
            Stage::Leaving(session) => StageModel::Leaving(session@),
            Stage::Reading(session) => StageModel::Reading(session@),
            Stage::Following => StageModel::Following,
            Stage::Closed => StageModel::Closed,
        }
    }
}

impl<E> View for Act<E> {
    type V = ActModel<E>;

    open spec fn view(&self) -> ActModel<E> {
        match self {
            Act::Send(text) => ActModel::Send(text@),
            Act::ReadLine => ActModel::ReadLine,
            Act::Secure(config) => ActModel::Secure(*config),
            Act::Follow(session) => ActModel::Follow(session@),
            Act::Finish(result) => ActModel::Finish(*result),
        }
    }
}

/// What the program hands back.
pub enum Event<E> {
    /// What sending, going over to TLS, or following up came to.
    Done(Result<(), E>),
    /// How many bytes were read, none at the end of the input, and the text of the line.
    Read(Result<usize, E>, Seq<char>),
}

/// How a connection begins.
pub open spec fn begun<E>(domain: Seq<char>) -> (StageModel, ActModel<E>) {
    (StageModel::Replying(fresh_session()), ActModel::Send(greeting_text(domain)))
}

/// What is done after a line.
pub open spec fn line_taken<E>(
    settings: Option<Arc<ServerConfig>>,
    session: SessionModel,
    line: Seq<char>,
) -> (StageModel, ActModel<E>) {
    let (after, step) = mail_step(settings is Some, line, session);
    match step {
        MailStepModel::Send(text) => (StageModel::Replying(after), ActModel::Send(text)),
        MailStepModel::Wait => (StageModel::Reading(after), ActModel::ReadLine),
        MailStepModel::Upgrade(text) => (
            StageModel::Announcing(after, settings->Some_0),
            ActModel::Send(text),
        ),
        MailStepModel::Leave(text) => (StageModel::Leaving(after), ActModel::Send(text)),
    }
}

/// What is done after something was read: the end of the input ends the session, and a failure
/// the connection.
pub open spec fn read_taken<E>(
    settings: Option<Arc<ServerConfig>>,
    session: SessionModel,
    read: Result<usize, E>,
    line: Seq<char>,
) -> (StageModel, ActModel<E>) {
    match read {
        Err(error) => (StageModel::Closed, ActModel::Finish(Err(error))),
        Ok(count) => if count == 0 {
            (StageModel::Following, ActModel::Follow(session))
        } else {
            line_taken(settings, session, line)
        },
    }
}

/// What is done after something was sent, TLS was begun or the session was followed up. A
/// failure ends the connection, and so does a session that has been followed up.
pub open spec fn done_taken<E>(stage: StageModel, result: Result<(), E>) -> (
    StageModel,
    ActModel<E>,
) {
    match result {
        Err(error) => (StageModel::Closed, ActModel::Finish(Err(error))),
        Ok(_) => match stage {
            StageModel::Announcing(session, config) => (
                StageModel::Securing(session),
                ActModel::Secure(config),
            ),
            StageModel::Replying(session) => (StageModel::Reading(session), ActModel::ReadLine),
            StageModel::Securing(session) => (StageModel::Reading(session), ActModel::ReadLine),
            StageModel::Leaving(session) => (StageModel::Following, ActModel::Follow(session)),
            _ => (StageModel::Closed, ActModel::Finish(Ok(1))),
        },
    }
}

/// Whether something is sent, TLS is begun or the session is followed up.
pub open spec fn busy(stage: StageModel) -> bool {
    stage !is Reading && stage !is Closed
}

/// A connection of the asynchronous mail server.
pub struct Connection {
    pub stage: Stage,
}

impl Connection {
    /// Begins a connection.
    pub fn begin<H, E>(smtp: &Smtp<H>) -> (begun_with: (Self, Act<E>))
        ensures
            (begun_with.0.stage@, begun_with.1@) == begun::<E>(smtp.domain_name()),
    {
        let connection = Self { stage: Stage::Replying(SmtpSession::new()) };
        (connection, Act::Send(smtp.greeting()))
    }

    /// Whether a line is awaited.
    pub fn is_reading(&self) -> (answer: bool)
        ensures
            answer == (self.stage@ is Reading),
    {
        match self.stage {
            Stage::Reading(_) => true,
            _ => false,
        }
    }

    /// Whether something is sent, TLS is begun or the session is followed up.
    pub fn is_busy(&self) -> (answer: bool)
        ensures
            answer == busy(self.stage@),
    {
        match self.stage {
            Stage::Reading(_) => false,
            Stage::Closed => false,
            _ => true,
        }
    }

    /// Takes the stage out to work on it.
    fn leave(&mut self) -> (stage: Stage)
        ensures
            stage == old(self).stage,
            final(self).stage is Closed,
    {
        let mut stage = Stage::Closed;
        std::mem::swap(&mut stage, &mut self.stage);
        stage
    }

    /// Takes what reading a line came to: how many bytes were read, none at the end of the
    /// input, and the text of the line.
    pub fn on_line<H, E>(&mut self, smtp: &Smtp<H>, read: Result<usize, E>, line: &str) -> (act: Act<
        E,
    >)
        requires
            old(self).stage@ is Reading,
        ensures
            (final(self).stage@, act@) == read_taken(
                smtp.settings(),
                old(self).stage@->Reading_0,
                read,
                line@,
            ),
    {
        let mut session = match self.leave() {
            Stage::Reading(session) => session,
            _ => SmtpSession::new(),
        };
        let count: usize = match read {
            Ok(count) => count,
            Err(error) => return Act::Finish(Err(error)),
        };
        if count == 0 {
            self.stage = Stage::Following;
            return Act::Follow(session);
        }
        let ghost before = session@;
        let step = smtp.on_line(line, &mut session);
        match step {
            MailStep::Send(text) => {
                self.stage = Stage::Replying(session);
                Act::Send(text)
            },
            MailStep::Wait => {
                self.stage = Stage::Reading(session);
                Act::ReadLine
            },
            MailStep::Upgrade(text) => {
                proof {
                    law_upgrade_needs_settings(smtp.settings() is Some, line@, before);
                }
                match smtp.config() {
                    Some(config) => {
                        self.stage = Stage::Announcing(session, share_config(config));
                    },
                    None => {},
                }
                Act::Send(text)
            },
            MailStep::Leave(text) => {
                self.stage = Stage::Leaving(session);
                Act::Send(text)
            },
        }
    }

    /// Takes what sending a text, going over to TLS, or following up the session came to.
    pub fn on_done<E>(&mut self, result: Result<(), E>) -> (act: Act<E>)
        requires
            busy(old(self).stage@),
        ensures
            (final(self).stage@, act@) == done_taken(old(self).stage@, result),
    {
        let stage = self.leave();
        match result {
            Err(error) => return Act::Finish(Err(error)),
            Ok(_) => {},
        }
        match stage {
            Stage::Announcing(session, config) => {
                self.stage = Stage::Securing(session);
                Act::Secure(config)
            },
            Stage::Replying(session) => {
                self.stage = Stage::Reading(session);
                Act::ReadLine
            },
            Stage::Securing(session) => {
                self.stage = Stage::Reading(session);
                Act::ReadLine
            },
            Stage::Leaving(session) => {
                self.stage = Stage::Following;
                Act::Follow(session)
            },
            _ => Act::Finish(Ok(1)),
        }
    }
}

/// Whether the program can hand this back at a stage.
pub open spec fn awaited<E>(stage: StageModel, event: Event<E>) -> bool {
    match event {
        Event::Done(_) => busy(stage),
        Event::Read(_, _) => stage is Reading,
    }
}

/// What is done after the program has handed something back.
pub open spec fn taken<E>(
    settings: Option<Arc<ServerConfig>>,
    stage: StageModel,
    event: Event<E>,
) -> (StageModel, ActModel<E>) {
    match event {
        Event::Done(result) => done_taken(stage, result),
        Event::Read(read, line) => read_taken(settings, stage->Reading_0, read, line),
    }
}

/// How far a connection is after these events, and what is done next.
pub open spec fn reached<E>(
    domain: Seq<char>,
    settings: Option<Arc<ServerConfig>>,
    events: Seq<Event<E>>,
) -> (StageModel, ActModel<E>)
    decreases events.len(),
{
    if events.len() == 0 {
        begun(domain)
    } else {
        taken(settings, reached(domain, settings, events.drop_last()).0, events.last())
    }
}

/// Whether each event comes when it is awaited.
pub open spec fn orderly<E>(
    domain: Seq<char>,
    settings: Option<Arc<ServerConfig>>,
    events: Seq<Event<E>>,
) -> bool
    decreases events.len(),
{
    events.len() > 0 ==> {
        &&& orderly(domain, settings, events.drop_last())
        &&& awaited(reached(domain, settings, events.drop_last()).0, events.last())
    }
}

/// The sessions that have been handed over to be followed up.
pub open spec fn followed_up<E>(
    domain: Seq<char>,
    settings: Option<Arc<ServerConfig>>,
    events: Seq<Event<E>>,
) -> Seq<SessionModel>
    decreases events.len(),
{
    if events.len() == 0 {
        Seq::empty()
    } else {
        let before = followed_up(domain, settings, events.drop_last());
        match reached(domain, settings, events).1 {
            ActModel::Follow(session) => before.push(session),
            _ => before,
        }
    }
}

/// The failure that an event tells of.
pub open spec fn failure<E>(event: Event<E>) -> Option<E> {
    match event {
        Event::Done(Err(error)) => Some(error),
        Event::Read(Err(error), _) => Some(error),
        _ => None,
    }
}

/// The lines that were read, in order.
pub open spec fn lines_read<E>(events: Seq<Event<E>>) -> Seq<Seq<char>>
    decreases events.len(),
{
    if events.len() == 0 {
        Seq::empty()
    } else {
        let before = lines_read(events.drop_last());
        match events.last() {
            Event::Read(Ok(count), line) => if count == 0 {
                before
            } else {
                before.push(line)
            },
            _ => before,
        }
    }
}

/// What a session has gathered from these lines.
pub open spec fn gathered(tls: bool, lines: Seq<Seq<char>>) -> SessionModel
    decreases lines.len(),
{
    if lines.len() == 0 {
        fresh_session()
    } else {
        mail_step(tls, lines.last(), gathered(tls, lines.drop_last())).0
    }
}

/// The session of a connection that has not handed it over.
pub open spec fn held(stage: StageModel) -> Option<SessionModel> {
    match stage {
        StageModel::Replying(session) => Some(session),
        StageModel::Announcing(session, _) => Some(session),
        StageModel::Securing(session) => Some(session),
        StageModel::Leaving(session) => Some(session),
        StageModel::Reading(session) => Some(session),
        _ => None,
    }
}

/// A session is followed up once, with all that its lines have said, and then no line is taken
/// any more. It is not followed up where reading, writing or going over to TLS fails. The
/// connection ends with the first failure, or else well once the session has been followed up.
pub proof fn law_session_is_followed_up_once<E>(
    domain: Seq<char>,
    settings: Option<Arc<ServerConfig>>,
    events: Seq<Event<E>>,
)
    requires
        orderly(domain, settings, events),
    ensures
        ({
            let (stage, act) = reached(domain, settings, events);
            let sessions = followed_up(domain, settings, events);
            let all_said = gathered(settings is Some, lines_read(events));
            let before = reached(domain, settings, events.drop_last()).0;
            &&& held(stage) is Some ==> held(stage) == Some(all_said) && sessions.len() == 0
            &&& held(stage) is Some ==> (stage is Leaving <==> all_said.quit)
            &&& stage is Following ==> act == ActModel::<E>::Follow(all_said)
            &&& stage is Following ==> sessions == seq![all_said]
            &&& stage is Closed <==> act is Finish
            &&& act matches ActModel::Finish(result) ==> {
                &&& events.len() > 0
                &&& sessions == if before is Following {
                    seq![all_said]
                } else {
                    Seq::empty()
                }
                &&& match failure(events.last()) {
                    Some(error) => result == Err::<usize, E>(error),
                    None => before is Following && result == Ok::<usize, E>(1),
                }
            }
        }),
        forall|i: int|
            0 <= i < events.len() - 1 ==> failure(#[trigger] events[i]) is None,
    decreases events.len(),
{
    if events.len() > 0 {
        let earlier = events.drop_last();
        law_session_is_followed_up_once(domain, settings, earlier);
        let (before, _) = reached(domain, settings, earlier);
        let lines = lines_read(earlier);
        if let Event::Read(Ok(count), line) = events.last() {
            if count > 0 {
                assert(lines_read(events).drop_last() =~= lines);
                law_leave_is_noted(settings is Some, line, gathered(settings is Some, lines));
            }
        }
        assert forall|i: int| 0 <= i < events.len() - 1 implies failure(
            #[trigger] events[i],
        ) is None by {
            assert(earlier[i] == events[i]);
            if i == earlier.len() - 1 && failure(events[i]) is Some {
                assert(earlier.last() == events[i]);
                assert(before is Closed);
            }
        }
    } else {
        assert(followed_up(domain, settings, events) =~= Seq::<SessionModel>::empty());
    }
}

/// A session ends with the end of the input or with the farewell, and with nothing else.
pub proof fn law_session_ends_with_farewell_or_input<E>(
    settings: Option<Arc<ServerConfig>>,
    stage: StageModel,
    event: Event<E>,
)
    requires
        awaited(stage, event),
    ensures
        taken(settings, stage, event).1 is Follow <==> {
            ||| stage is Leaving && event matches Event::Done(Ok(_))
            ||| event matches Event::Read(Ok(count), _) && count == 0
        },
        taken(settings, stage, event).0 is Leaving <==> {
            &&& event matches Event::Read(Ok(count), line)
            &&& count > 0
            &&& mail_step(settings is Some, line, stage->Reading_0).1 is Leave
        },
{
}

/// Every line is answered as it is due, and then the next line is read: after a reply at once,
/// after the announcement of TLS once the connection has gone over to it with the settings of the
/// server, and after the farewell not any more, since the session ends. A line that is not answered
/// is followed by the next one.
pub proof fn law_lines_are_answered<E>(
    settings: Option<Arc<ServerConfig>>,
    session: SessionModel,
    line: Seq<char>,
    count: usize,
)
    requires
        count > 0,
    ensures
        ({
            let (after, step) = mail_step(settings is Some, line, session);
            let (stage, act) = read_taken::<E>(settings, session, Ok(count), line);
            let (next_stage, next_act) = done_taken::<E>(stage, Ok(()));
            &&& step matches MailStepModel::Send(text) ==> {
                &&& act == ActModel::<E>::Send(text)
                &&& next_act is ReadLine
                &&& next_stage == StageModel::Reading(after)
            }
            &&& step is Wait ==> act is ReadLine && stage == StageModel::Reading(after)
            &&& step matches MailStepModel::Upgrade(text) ==> {
                &&& act == ActModel::<E>::Send(text)
                &&& settings is Some
                &&& next_act == ActModel::<E>::Secure(settings->Some_0)
                &&& done_taken::<E>(next_stage, Ok(())) == (
                    StageModel::Reading(after),
                    ActModel::<E>::ReadLine,
                )
            }
            &&& step matches MailStepModel::Leave(text) ==> {
                &&& act == ActModel::<E>::Send(text)
                &&& next_act == ActModel::<E>::Follow(after)
                &&& done_taken::<E>(next_stage, Ok(())).1 == ActModel::<E>::Finish(Ok(1))
            }
        }),
{
    law_upgrade_needs_settings(settings is Some, line, session);
}

/// A connection begins with the greeting of the server, and then the first line is read.
pub proof fn law_connection_begins_with_the_greeting<E>(domain: Seq<char>)
    ensures
        begun::<E>(domain).1 == ActModel::<E>::Send("220 "@ + domain + " ESMTP ready\r\n"@),
        done_taken::<E>(begun::<E>(domain).0, Ok(())) == (
            StageModel::Reading(fresh_session()),
            ActModel::<E>::ReadLine,
        ),
{
}

} // verus!
