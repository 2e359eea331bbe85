//! The mail protocol of the asynchronous server.
use std::sync::Arc;
use rustls::ServerConfig;
use vstd::prelude::*;
use crate::applications::async_mail::smtp::{SessionModel, SmtpSession};
use crate::applications::mail::command::{
    command_word, first_word, greeting_text, is_command, law_commands_count_in_any_case, law_commands_do_as_told,
    line_step,
    take_line, unknown_reply, write_greeting, write_unknown, Outcome,
};
use crate::encoding::{same_but_case, uppercase};
use crate::text::{copy_text, is_white, solid};

verus! {

/// A mail server; `post_handle` is what becomes of a finished session.
pub struct Smtp<H> {
    domain: String,
    config: Option<Arc<ServerConfig>>,
    post_handle: H,
}

/// What to do next on a connection.
pub enum MailStep {
    /// Send this text and read the next line.
    Send(String),
    /// Read the next line.
    Wait,
    /// Send this text, switch to TLS, and read the next line.
    Upgrade(String),
    /// Send this text and end the session.
    Leave(String),
}

/// What to do next on a connection, as a value of specifications.
pub enum MailStepModel {
    Send(Seq<char>),
    Wait,
    Upgrade(Seq<char>),
    Leave(Seq<char>),
}

impl View for MailStep {
    type V = MailStepModel;

    open spec fn view(&self) -> MailStepModel {
        match self {
            MailStep::Send(text) => MailStepModel::Send(text@),
            MailStep::Wait => MailStepModel::Wait,
            MailStep::Upgrade(text) => MailStepModel::Upgrade(text@),
            MailStep::Leave(text) => MailStepModel::Leave(text@),
        }
    }
}

/// What to do after a line that was taken with `outcome`.
pub open spec fn step_for(tls: bool, outcome: Outcome, command: Seq<char>) -> MailStepModel {
    match outcome {
        Outcome::Absorbed => MailStepModel::Wait,
        Outcome::StartTls => MailStepModel::Upgrade("220 2.0.0 Ready to start TLS\r\n"@),
        Outcome::Accepted => MailStepModel::Send("250 Ok\r\n"@),
        Outcome::Hello => if tls {
            MailStepModel::Send("250 STARTTLS\r\n"@)
        } else {
            MailStepModel::Send("250 Hello\r\n"@)
        },
        Outcome::BadSyntax => MailStepModel::Send("501 Syntax error\r\n"@),
        Outcome::SendData => MailStepModel::Send("354 End data with <CR><LF>.<CR><LF>\r\n"@),
        Outcome::Bye => MailStepModel::Leave("221 Bye\r\n"@),
        Outcome::Unknown => MailStepModel::Send(unknown_reply(command)),
    }
}

/// The session after a line, and what to do next. Taking leave is noted in the session.
pub open spec fn mail_step(tls: bool, line: Seq<char>, session: SessionModel) -> (
    SessionModel,
    MailStepModel,
) {
    let (after, outcome) = line_step(tls, line, session);
    let noted = if outcome == Outcome::Bye {
        SessionModel { quit: true, ..after }
    } else {
        after
    };
    (noted, step_for(tls, outcome, command_word(line)))
}

/// Gives the step for a line that was taken with `outcome`.
pub fn write_step(tls: bool, outcome: Outcome, command: &str) -> (step: MailStep)
    ensures
        step@ == step_for(tls, outcome, command@),
{
    match outcome {
        Outcome::Absorbed => MailStep::Wait,
        Outcome::StartTls => MailStep::Upgrade(copy_text("220 2.0.0 Ready to start TLS\r\n")),
        Outcome::Accepted => MailStep::Send(copy_text("250 Ok\r\n")),
        Outcome::Hello => {
            if tls {
                MailStep::Send(copy_text("250 STARTTLS\r\n"))
            } else {
                MailStep::Send(copy_text("250 Hello\r\n"))
            }
        },
        Outcome::BadSyntax => MailStep::Send(copy_text("501 Syntax error\r\n")),
        Outcome::SendData => MailStep::Send(copy_text("354 End data with <CR><LF>.<CR><LF>\r\n")),
        Outcome::Bye => MailStep::Leave(copy_text("221 Bye\r\n")),
        Outcome::Unknown => MailStep::Send(write_unknown(command)),
    }
}

/// Takes a line from a client of a server that offers TLS or does not.
pub fn answer_line(tls: bool, line: &str, session: &mut SmtpSession) -> (step: MailStep)
    ensures
        (final(session)@, step@) == mail_step(tls, line@, old(session)@),
{
    let outcome = take_line(tls, line, session);
    if outcome == Outcome::Bye {
        session.quit = true;
    }
    let command = first_word(line);
    write_step(tls, outcome, command.as_str())
}

impl<H> Smtp<H> {
    /// The name under which the server greets.
    pub closed spec fn domain_name(&self) -> Seq<char> {
        self.domain@
    }

    /// The TLS settings of the server.
    pub closed spec fn settings(&self) -> Option<Arc<ServerConfig>> {
        self.config
    }

    /// What becomes of a finished session.
    pub closed spec fn follow_up(&self) -> H {
        self.post_handle
    }

    /// A server without TLS.
    pub fn new(domain: &str, post_handle: H) -> (smtp: Self)
        ensures
            smtp.domain_name() == domain@,
            smtp.settings() is None,
            smtp.follow_up() == post_handle,
    {
        Self { domain: copy_text(domain), config: None, post_handle }
    }

    /// The TLS settings.
    pub fn config(&self) -> (config: &Option<Arc<ServerConfig>>)
        ensures
            *config == self.settings(),
    {
        &self.config
    }

    /// What becomes of a finished session.
    pub fn post_handle(&self) -> (post_handle: &H)
        ensures
            *post_handle == self.follow_up(),
    {
        &self.post_handle
    }

    /// The line that opens a connection.
    pub fn greeting(&self) -> (line: String)
        ensures
            line@ == greeting_text(self.domain_name()),
    {
        write_greeting(self.domain.as_str())
    }

    /// Takes a line from the client of a connection.
    pub fn on_line(&self, line: &str, session: &mut SmtpSession) -> (step: MailStep)
        ensures
            (final(session)@, step@) == mail_step(self.settings() is Some, line@, old(session)@),
    {
        answer_line(self.config.is_some(), line, session)
    }
}

/// The session ends with a farewell exactly when the session notes that the client has
/// taken its leave.
pub proof fn law_leave_is_noted(tls: bool, line: Seq<char>, session: SessionModel)
    requires
        !session.quit,
    ensures
        mail_step(tls, line, session).1 is Leave <==> mail_step(tls, line, session).0.quit,
{
}

/// A switch to TLS is due only where the server has TLS settings.
pub proof fn law_upgrade_needs_settings(tls: bool, line: Seq<char>, session: SessionModel)
    ensures
        mail_step(tls, line, session).1 is Upgrade ==> tls && mail_step(
            tls,
            line,
            session,
        ).0.use_tls,
{
}

/// Commands count in any case of ASCII letters: lines that differ in the case of a command
/// word only lead to the same step and do the same to the session.
pub proof fn law_steps_ignore_case(
    tls: bool,
    lead: Seq<char>,
    first: Seq<char>,
    second: Seq<char>,
    rest: Seq<char>,
    session: SessionModel,
)
    requires
        !session.is_data,
        forall|i: int| 0 <= i < lead.len() ==> is_white(#[trigger] lead[i]),
        solid(first),
        solid(second),
        first.len() > 0,
        same_but_case(first, second),
        is_command(uppercase(first)),
        rest.len() > 0 ==> is_white(rest[0]),
    ensures
        mail_step(tls, lead + first + rest, session) == mail_step(
            tls,
            lead + second + rest,
            session,
        ),
{
    law_commands_count_in_any_case(tls, lead, first, second, rest, session);
}

/// What is done after a command, whatever stands behind it: each has its own reply, an unknown word
/// is repeated, TLS is announced where it is offered, and the farewell ends the session.
pub proof fn law_commands_have_their_steps(
    tls: bool,
    lead: Seq<char>,
    word: Seq<char>,
    rest: Seq<char>,
    session: SessionModel,
)
    requires
        !session.is_data,
        forall|i: int| 0 <= i < lead.len() ==> is_white(#[trigger] lead[i]),
        forall|i: int| 0 <= i < word.len() ==> !is_white(#[trigger] word[i]),
        word.len() > 0,
        rest.len() > 0 ==> is_white(rest[0]),
    ensures
        ({
            let upper = uppercase(word);
            let (after, step) = mail_step(tls, lead + word + rest, session);
            let blank = forall|i: int| 0 <= i < rest.len() ==> is_white(#[trigger] rest[i]);
            &&& (upper == "HELO"@ || upper == "EHLO"@) && tls ==> step == MailStepModel::Send(
                "250 STARTTLS\r\n"@,
            ) && after == session
            &&& (upper == "HELO"@ || upper == "EHLO"@) && !tls ==> step == MailStepModel::Send(
                "250 Hello\r\n"@,
            ) && after == session
            &&& upper == "DATA"@ ==> step == MailStepModel::Send(
                "354 End data with <CR><LF>.<CR><LF>\r\n"@,
            ) && after == (SessionModel { is_data: true, ..session })
            &&& upper == "QUIT"@ ==> step == MailStepModel::Leave("221 Bye\r\n"@) && after == (
            SessionModel { quit: true, ..session })
            &&& upper == "STARTTLS"@ && tls ==> step == MailStepModel::Upgrade(
                "220 2.0.0 Ready to start TLS\r\n"@,
            ) && after == (SessionModel { use_tls: true, ..session })
            &&& (upper == "MAIL"@ || upper == "RCPT"@) && blank ==> step == MailStepModel::Send(
                "501 Syntax error\r\n"@,
            ) && after == session
            &&& upper == "STARTTLS"@ && !tls || !seq![
                "HELO"@,
                "EHLO"@,
                "DATA"@,
                "QUIT"@,
                "STARTTLS"@,
                "MAIL"@,
                "RCPT"@,
            ].contains(upper) ==> step == MailStepModel::Send(
                "500 Unknown command: "@ + word + "\r\n"@,
            ) && after == session
        }),
{
    law_commands_do_as_told(tls, lead, word, rest, session);
}

/// A line that is taken as it should be is answered so, a part of a message is not answered, and
/// only the farewell ends the session: any other line changes the session as the line says.
pub proof fn law_accepted_lines_are_confirmed(tls: bool, line: Seq<char>, session: SessionModel)
    ensures
        ({
            let (after, outcome) = line_step(tls, line, session);
            let (noted, step) = mail_step(tls, line, session);
            &&& outcome is Accepted ==> step == MailStepModel::Send("250 Ok\r\n"@)
            &&& step is Wait <==> outcome is Absorbed
            &&& step is Leave <==> outcome is Bye
            &&& step is Upgrade <==> outcome is StartTls
            &&& step !is Leave ==> noted == after
            &&& step is Leave ==> noted == (SessionModel { quit: true, ..after })
        }),
{
}

} // verus!
