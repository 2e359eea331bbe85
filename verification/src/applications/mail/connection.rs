//! A connection of the mail server with a thread for each, from its greeting to its end.
//!
//! The program does what an [`Act`] says and hands back what came of it.
use vstd::prelude::*;
use crate::applications::async_mail::smtp::{fresh_session, SessionModel, SmtpSession};
use crate::applications::mail::command::greeting_text;
use crate::applications::mail::protocol::{
    dialogue_step, Smtp, SmtpDialogue, SmtpStep, SmtpStepModel, READY_FOR_TLS,
};
use crate::text::copy_text;

verus! {

/// How far a connection is.
pub enum Stage {
    /// A text is sent; a line is read after that.
    Replying(SmtpDialogue),
    /// The line that announces TLS is sent; TLS begins after that.
    Announcing(SmtpDialogue),
    /// The connection goes over to TLS; a line is read after that.
    Securing(SmtpDialogue),
    /// A line is read.
    Reading(SmtpDialogue),
    /// The session has been handed over to be followed up.
    Following,
    /// The connection is over.
    Closed,
}

/// What to do next on a connection; `E` is a failure of the program.
pub enum Act<E> {
    /// Send this text.
    Send(String),
    /// Read a line.
    ReadLine,
    /// Go over to TLS with the settings of the server.
    Secure,
    /// Follow up this session.
    Follow(SmtpSession),
    /// End with this result.
    Finish(Result<(), E>),
}

/// What a client has said, and whether over TLS, as a value of specifications.
pub struct DialogueModel {
    pub session: SessionModel,
    pub secured: bool,
}

impl View for SmtpDialogue {
    type V = DialogueModel;

    open spec fn view(&self) -> DialogueModel {
        DialogueModel { session: self.session@, secured: self.secured }
    }
}

/// How far a connection is, as a value of specifications.
pub enum StageModel {
    Replying(DialogueModel),
    Announcing(DialogueModel),
    Securing(DialogueModel),
    Reading(DialogueModel),
    Following,
    Closed,
}

/// What to do next, as a value of specifications.
pub enum ActModel<E> {
    Send(Seq<char>),
    ReadLine,
    Secure,
    Follow(SessionModel),
    Finish(Result<(), E>),
}

impl View for Stage {
    type V = StageModel;

    open spec fn view(&self) -> StageModel {
        match self {
            Stage::Replying(dialogue) => StageModel::Replying(dialogue@),
            Stage::Announcing(dialogue) => StageModel::Announcing(dialogue@),
            Stage::Securing(dialogue) => StageModel::Securing(dialogue@),
            Stage::Reading(dialogue) => StageModel::Reading(dialogue@),
            Stage::Following => StageModel::Following,
            Stage::Closed => StageModel::Closed,
        }
    }
}

impl<E> View for Act<E> {
    type V = ActModel<E>;

    open spec fn view(&self) -> ActModel<E> {
        match self {
            Act::Send(text) => ActModel::Send(text@),
            Act::ReadLine => ActModel::ReadLine,
            Act::Secure => ActModel::Secure,
            Act::Follow(session) => ActModel::Follow(session@),
            Act::Finish(result) => ActModel::Finish(*result),
        }
    }
}

/// What the program hands back.
pub enum Event<E> {
    /// What sending, going over to TLS, or following up came to.
    Done(Result<(), E>),
    /// How many bytes were read, none at the end of the input, and the text of the line.
    Read(Result<usize, E>, Seq<char>),
}

/// A connection in the clear with a fresh session.
pub open spec fn fresh_dialogue() -> DialogueModel {
    DialogueModel { session: fresh_session(), secured: false }
}

/// How a connection begins.
pub open spec fn begun<E>(domain: Seq<char>) -> (StageModel, ActModel<E>) {
    (StageModel::Replying(fresh_dialogue()), ActModel::Send(greeting_text(domain)))
}

/// What a client has said after one more line.
pub open spec fn told(tls: bool, dialogue: DialogueModel, line: Seq<char>) -> DialogueModel {
    let (session, secured, _) = dialogue_step(tls, line, dialogue.session, dialogue.secured);
    DialogueModel { session, secured }
}

/// What is done after a line.
pub open spec fn line_taken<E>(tls: bool, dialogue: DialogueModel, line: Seq<char>) -> (
    StageModel,
    ActModel<E>,
) {
    let after = told(tls, dialogue, line);
    match dialogue_step(tls, line, dialogue.session, dialogue.secured).2 {
        SmtpStepModel::Send(text) => (StageModel::Replying(after), ActModel::Send(text)),
        SmtpStepModel::Wait => (StageModel::Reading(after), ActModel::ReadLine),
        SmtpStepModel::Upgrade => (StageModel::Announcing(after), ActModel::Send(READY_FOR_TLS@)),
    }
}

/// What is done after something was read: the end of the input ends the session, and a failure
/// the connection.
pub open spec fn read_taken<E>(
    tls: bool,
    dialogue: DialogueModel,
    read: Result<usize, E>,
    line: Seq<char>,
) -> (StageModel, ActModel<E>) {
    match read {
        Err(error) => (StageModel::Closed, ActModel::Finish(Err(error))),
        Ok(count) => if count == 0 {
            (StageModel::Following, ActModel::Follow(dialogue.session))
        } else {
            line_taken(tls, dialogue, line)
        },
    }
}

/// What is done after something was sent, TLS was begun or the session was followed up. A
/// failure ends the connection, and so does a session that has been followed up.
pub open spec fn done_taken<E>(stage: StageModel, result: Result<(), E>) -> (
    StageModel,
    ActModel<E>,
) {
    match result {
        Err(error) => (StageModel::Closed, ActModel::Finish(Err(error))),
        Ok(_) => match stage {
            StageModel::Announcing(dialogue) => (StageModel::Securing(dialogue), ActModel::Secure),
            StageModel::Replying(dialogue) => (StageModel::Reading(dialogue), ActModel::ReadLine),
            StageModel::Securing(dialogue) => (StageModel::Reading(dialogue), ActModel::ReadLine),
            _ => (StageModel::Closed, ActModel::Finish(Ok(()))),
        },
    }
}

/// Whether something is sent, TLS is begun or the session is followed up.
pub open spec fn busy(stage: StageModel) -> bool {
    stage !is Reading && stage !is Closed
}

/// A connection of the mail server.
pub struct Connection {
    pub stage: Stage,
}

impl Connection {
    /// Begins a connection.
    pub fn begin<H, E>(smtp: &Smtp<H>) -> (begun_with: (Self, Act<E>))
        ensures
            (begun_with.0.stage@, begun_with.1@) == begun::<E>(smtp.domain_name()),
    {
        let connection = Self { stage: Stage::Replying(SmtpDialogue::new()) };
        (connection, Act::Send(smtp.greeting()))
    }

    /// Whether a line is awaited.
    pub fn is_reading(&self) -> (answer: bool)
        ensures
            answer == (self.stage@ is Reading),
    {
        match self.stage {
            Stage::Reading(_) => true,
            _ => false,
        }
    }

    /// Whether something is sent, TLS is begun or the session is followed up.
    pub fn is_busy(&self) -> (answer: bool)
        ensures
            answer == busy(self.stage@),
    {
        match self.stage {
            Stage::Reading(_) => false,
            Stage::Closed => false,
            _ => true,
        }
    }

    /// Takes the stage out to work on it.
    fn leave(&mut self) -> (stage: Stage)
        ensures
            stage == old(self).stage,
            final(self).stage is Closed,
    {
        let mut stage = Stage::Closed;
        std::mem::swap(&mut stage, &mut self.stage);
        stage
    }

    /// Takes what reading a line came to: how many bytes were read, none at the end of the
    /// input, and the text of the line.
    pub fn on_line<H, E>(&mut self, smtp: &Smtp<H>, read: Result<usize, E>, line: &str) -> (act: Act<
        E,
    >)
        requires
            old(self).stage@ is Reading,
        ensures
            (final(self).stage@, act@) == read_taken(
                smtp.settings() is Some,
                old(self).stage@->Reading_0,
                read,
                line@,
            ),
    {
        let mut dialogue = match self.leave() {
            Stage::Reading(dialogue) => dialogue,
            _ => SmtpDialogue::new(),
        };
        let count: usize = match read {
            Ok(count) => count,
            Err(error) => return Act::Finish(Err(error)),
        };
        if count == 0 {
            self.stage = Stage::Following;
            return Act::Follow(dialogue.session);
        }
        match smtp.on_line(&mut dialogue, line) {
            SmtpStep::Send(text) => {
                self.stage = Stage::Replying(dialogue);
                Act::Send(text)
            },
            SmtpStep::Wait => {
                self.stage = Stage::Reading(dialogue);
                Act::ReadLine
            },
            SmtpStep::Upgrade => {
                self.stage = Stage::Announcing(dialogue);
                Act::Send(copy_text(READY_FOR_TLS))
            },
        }
    }

    /// Takes what sending a text, going over to TLS, or following up the session came to.
    pub fn on_done<E>(&mut self, result: Result<(), E>) -> (act: Act<E>)
        requires
            busy(old(self).stage@),
        ensures
            (final(self).stage@, act@) == done_taken(old(self).stage@, result),
    {
        let stage = self.leave();
        match result {
            Err(error) => return Act::Finish(Err(error)),
            Ok(_) => {},
        }
        match stage {
            Stage::Announcing(dialogue) => {
                self.stage = Stage::Securing(dialogue);
                Act::Secure
            },
            Stage::Replying(dialogue) => {
                self.stage = Stage::Reading(dialogue);
                Act::ReadLine
            },
            Stage::Securing(dialogue) => {
                self.stage = Stage::Reading(dialogue);
                Act::ReadLine
            },
            _ => Act::Finish(Ok(())),
        }
    }
}

/// Whether the program can hand this back at a stage.
pub open spec fn awaited<E>(stage: StageModel, event: Event<E>) -> bool {
    match event {
        Event::Done(_) => busy(stage),
        Event::Read(_, _) => stage is Reading,
    }
}

/// What is done after the program has handed something back.
pub open spec fn taken<E>(tls: bool, stage: StageModel, event: Event<E>) -> (
    StageModel,
    ActModel<E>,
) {
    match event {
        Event::Done(result) => done_taken(stage, result),
        Event::Read(read, line) => read_taken(tls, stage->Reading_0, read, line),
    }
}

/// How far a connection is after these events, and what is done next.
pub open spec fn reached<E>(domain: Seq<char>, tls: bool, events: Seq<Event<E>>) -> (
    StageModel,
    ActModel<E>,
)
    decreases events.len(),
{
    if events.len() == 0 {
        begun(domain)
    } else {
        taken(tls, reached(domain, tls, events.drop_last()).0, events.last())
    }
}

/// Whether each event comes when it is awaited.
pub open spec fn orderly<E>(domain: Seq<char>, tls: bool, events: Seq<Event<E>>) -> bool
    decreases events.len(),
{
    events.len() > 0 ==> {
        &&& orderly(domain, tls, events.drop_last())
        &&& awaited(reached(domain, tls, events.drop_last()).0, events.last())
    }
}

/// The sessions that have been handed over to be followed up.
pub open spec fn followed_up<E>(domain: Seq<char>, tls: bool, events: Seq<Event<E>>) -> Seq<
    SessionModel,
>
    decreases events.len(),
{
    if events.len() == 0 {
        Seq::empty()
    } else {
        let before = followed_up(domain, tls, events.drop_last());
        match reached(domain, tls, events).1 {
            ActModel::Follow(session) => before.push(session),
            _ => before,
        }
    }
}

/// How many times the connection has gone over to TLS.
pub open spec fn times_secured<E>(domain: Seq<char>, tls: bool, events: Seq<Event<E>>) -> nat
    decreases events.len(),
{
    if events.len() == 0 {
        0
    } else {
        times_secured(domain, tls, events.drop_last()) + if reached(
            domain,
            tls,
            events,
        ).1 is Secure {
            1nat
        } else {
            0nat
        }
    }
}

/// The failure that an event tells of.
pub open spec fn failure<E>(event: Event<E>) -> Option<E> {
    match event {
        Event::Done(Err(error)) => Some(error),
        Event::Read(Err(error), _) => Some(error),
        _ => None,
    }
}

/// The lines that were read, in order.
pub open spec fn lines_read<E>(events: Seq<Event<E>>) -> Seq<Seq<char>>
    decreases events.len(),
{
    if events.len() == 0 {
        Seq::empty()
    } else {
        let before = lines_read(events.drop_last());
        match events.last() {
            Event::Read(Ok(count), line) => if count == 0 {
                before
            } else {
                before.push(line)
            },
            _ => before,
        }
    }
}

/// What these lines have said.
pub open spec fn gathered(tls: bool, lines: Seq<Seq<char>>) -> DialogueModel
    decreases lines.len(),
{
    if lines.len() == 0 {
        fresh_dialogue()
    } else {
        told(tls, gathered(tls, lines.drop_last()), lines.last())
    }
}

/// What the client of a connection has said, as long as the session is not handed over.
pub open spec fn held(stage: StageModel) -> Option<DialogueModel> {
    match stage {
        StageModel::Replying(dialogue) => Some(dialogue),
        StageModel::Announcing(dialogue) => Some(dialogue),
        StageModel::Securing(dialogue) => Some(dialogue),
        StageModel::Reading(dialogue) => Some(dialogue),
        _ => None,
    }
}

/// A session is followed up once, at the end of the input, with all that its lines have said,
/// and then no line is taken any more. It is not followed up where reading, writing or going
/// over to TLS fails. The connection ends with the first failure, or else well once the session
/// has been followed up.
pub proof fn law_session_is_followed_up_once<E>(
    domain: Seq<char>,
    tls: bool,
    events: Seq<Event<E>>,
)
    requires
        orderly(domain, tls, events),
    ensures
        ({
            let (stage, act) = reached(domain, tls, events);
            let sessions = followed_up(domain, tls, events);
            let all_said = gathered(tls, lines_read(events));
            let before = reached(domain, tls, events.drop_last()).0;
            &&& held(stage) is Some ==> held(stage) == Some(all_said) && sessions.len() == 0
            &&& stage is Following ==> {
                &&& act == ActModel::<E>::Follow(all_said.session)
                &&& sessions == seq![all_said.session]
                &&& events.last() matches Event::Read(Ok(count), _)
                &&& count == 0
            }
            &&& stage is Closed <==> act is Finish
            &&& act matches ActModel::Finish(result) ==> {
                &&& events.len() > 0
                &&& sessions == if before is Following {
                    seq![all_said.session]
                } else {
                    Seq::empty()
                }
                &&& match failure(events.last()) {
                    Some(error) => result == Err::<(), E>(error),
                    None => before is Following && result is Ok,
                }
            }
        }),
        forall|i: int|
            0 <= i < events.len() - 1 ==> failure(#[trigger] events[i]) is None,
    decreases events.len(),
{
    if events.len() > 0 {
        let earlier = events.drop_last();
        law_session_is_followed_up_once(domain, tls, earlier);
        let (before, _) = reached(domain, tls, earlier);
        if let Event::Read(Ok(count), line) = events.last() {
            if count > 0 {
                assert(lines_read(events).drop_last() =~= lines_read(earlier));
            }
        }
        assert forall|i: int| 0 <= i < events.len() - 1 implies failure(
            #[trigger] events[i],
        ) is None by {
            assert(earlier[i] == events[i]);
            if i == earlier.len() - 1 && failure(events[i]) is Some {
                assert(earlier.last() == events[i]);
                assert(before is Closed);
            }
        }
    }
}

/// A connection goes over to TLS once at most, and not at all where the server has no settings.
pub proof fn law_connection_is_secured_once<E>(domain: Seq<char>, tls: bool, events: Seq<Event<E>>)
    requires
        orderly(domain, tls, events),
    ensures
        times_secured(domain, tls, events) <= 1,
        !tls ==> times_secured(domain, tls, events) == 0,
{
    lemma_secured(domain, tls, events);
}

/// Until the session is handed over the connection has gone over to TLS, or is about to, exactly
/// where the dialogue says so; without settings the session never wants it.
proof fn lemma_secured<E>(domain: Seq<char>, tls: bool, events: Seq<Event<E>>)
    requires
        orderly(domain, tls, events),
    ensures
        ({
            let stage = reached(domain, tls, events).0;
            let times = times_secured(domain, tls, events);
            &&& times <= 1
            &&& !tls ==> times == 0
            &&& held(stage) matches Some(dialogue) ==> {
                &&& !tls ==> !dialogue.session.use_tls && !dialogue.secured
                &&& stage is Announcing ==> dialogue.secured && times == 0
                &&& !dialogue.secured ==> times == 0
            }
        }),
    decreases events.len(),
{
    if events.len() > 0 {
        lemma_secured(domain, tls, events.drop_last());
    }
}

/// Every line is answered as it is due, and then the next line is read: after a reply at once, and
/// after the announcement of TLS once the connection has gone over to it. A line that is not
/// answered is followed by the next one.
pub proof fn law_lines_are_answered<E>(
    tls: bool,
    dialogue: DialogueModel,
    line: Seq<char>,
    count: usize,
)
    requires
        count > 0,
    ensures
        ({
            let (session, secured, step) = dialogue_step(
                tls,
                line,
                dialogue.session,
                dialogue.secured,
            );
            let after = DialogueModel { session, secured };
            let (stage, act) = read_taken::<E>(tls, dialogue, Ok(count), line);
            let (next_stage, next_act) = done_taken::<E>(stage, Ok(()));
            &&& step matches SmtpStepModel::Send(text) ==> {
                &&& act == ActModel::<E>::Send(text)
                &&& next_act is ReadLine
                &&& next_stage == StageModel::Reading(after)
            }
            &&& step is Wait ==> act is ReadLine && stage == StageModel::Reading(after)
            &&& step is Upgrade ==> {
                &&& act == ActModel::<E>::Send("220 2.0.0 Ready to start TLS\r\n"@)
                &&& next_act is Secure
                &&& done_taken::<E>(next_stage, Ok(())) == (
                    StageModel::Reading(after),
                    ActModel::<E>::ReadLine,
                )
            }
        }),
{
}

/// A connection begins in the clear with the greeting of the server, and then the first line is
/// read.
pub proof fn law_connection_begins_with_the_greeting<E>(domain: Seq<char>)
    ensures
        begun::<E>(domain).1 == ActModel::<E>::Send("220 "@ + domain + " ESMTP ready\r\n"@),
        done_taken::<E>(begun::<E>(domain).0, Ok(())) == (
            StageModel::Reading(DialogueModel { session: fresh_session(), secured: false }),
            ActModel::<E>::ReadLine,
        ),
{
}

} // verus!
