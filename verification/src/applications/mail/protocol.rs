//! The mail protocol of a server that gives each connection a thread.
use std::sync::Arc;
use rustls::ServerConfig;
use vstd::prelude::*;
use crate::applications::async_mail::smtp::{fresh_session, SessionModel, SmtpSession};
use crate::applications::mail::command::{
    command_word, first_word, greeting_text, is_command, law_commands_count_in_any_case, law_commands_do_as_told,
    line_step,
    take_line, unknown_reply, write_greeting, write_unknown, Outcome,
};
use crate::encoding::{same_but_case, uppercase};
use crate::text::{copy_text, is_white, solid};
use crate::tls::share_config;

verus! {

/// The reply to a line that was taken with `outcome`.
pub open spec fn reply_text(tls: bool, outcome: Outcome, command: Seq<char>) -> Option<Seq<char>> {
    match outcome {
        Outcome::Absorbed => None,
        Outcome::StartTls => None,
        Outcome::Accepted => Some("250 Ok\r\n"@),
        Outcome::Hello => if tls {
            Some("250 STARTTLS\r\n"@)
        } else {
            Some("250 Hello {}\r\n"@)
        },
        Outcome::BadSyntax => Some("501 Syntax error\r\n"@),
        Outcome::SendData => Some("354 End data with <CR><LF>.<CR><LF>\r\n"@),
        Outcome::Bye => Some("221 Bye\r\n"@),
        Outcome::Unknown => Some(unknown_reply(command)),
    }
}

/// Writes the reply to a line that was taken with `outcome`.
pub fn write_reply(tls: bool, outcome: Outcome, command: &str) -> (reply: Option<String>)
    ensures
        reply is Some <==> reply_text(tls, outcome, command@) is Some,
        reply matches Some(text) ==> reply_text(tls, outcome, command@) == Some(text@),
{
    match outcome {
        Outcome::Absorbed => None,
        Outcome::StartTls => None,
        Outcome::Accepted => Some(copy_text("250 Ok\r\n")),
        Outcome::Hello => {
            if tls {
                Some(copy_text("250 STARTTLS\r\n"))
            } else {
                Some(copy_text("250 Hello {}\r\n"))
            }
        },
        Outcome::BadSyntax => Some(copy_text("501 Syntax error\r\n")),
        Outcome::SendData => Some(copy_text("354 End data with <CR><LF>.<CR><LF>\r\n")),
        Outcome::Bye => Some(copy_text("221 Bye\r\n")),
        Outcome::Unknown => Some(write_unknown(command)),
    }
}

/// A mail server; `post_handle` is what becomes of a finished session.
pub struct Smtp<H> {
    domain: String,
    config: Option<Arc<ServerConfig>>,
    post_handle: H,
}

/// What to do next on a connection.
pub enum SmtpStep {
    /// Send this text and read the next line.
    Send(String),
    /// Read the next line.
    Wait,
    /// Send the line that announces TLS, switch to TLS, and read the next line.
    Upgrade,
}

/// What to do next on a connection, as a value of specifications.
pub enum SmtpStepModel {
    Send(Seq<char>),
    Wait,
    Upgrade,
}

impl View for SmtpStep {
    type V = SmtpStepModel;

    open spec fn view(&self) -> SmtpStepModel {
        match self {
            SmtpStep::Send(text) => SmtpStepModel::Send(text@),
            SmtpStep::Wait => SmtpStepModel::Wait,
            SmtpStep::Upgrade => SmtpStepModel::Upgrade,
        }
    }
}

/// The line that announces the switch to TLS.
pub const READY_FOR_TLS: &'static str = "220 2.0.0 Ready to start TLS\r\n";

/// A connection with a mail client.
pub struct SmtpDialogue {
    /// What the client has sent.
    pub session: SmtpSession,
    /// The connection runs over TLS.
    pub secured: bool,
}

/// The session and the state of the connection after a line, and what to do next. A
/// connection in the clear switches to TLS as soon as the session wants it, and the
/// session begins anew; over TLS a wish for TLS is passed over.
pub open spec fn dialogue_step(
    tls: bool,
    line: Seq<char>,
    session: SessionModel,
    secured: bool,
) -> (SessionModel, bool, SmtpStepModel) {
    let (after, outcome) = line_step(tls, line, session);
    match reply_text(tls, outcome, command_word(line)) {
        Some(text) => (after, secured, SmtpStepModel::Send(text)),
        None => if !secured && after.use_tls {
            (fresh_session(), true, SmtpStepModel::Upgrade)
        } else {
            (after, secured, SmtpStepModel::Wait)
        },
    }
}

impl<H> Smtp<H> {
    /// The name under which the server greets.
    pub closed spec fn domain_name(&self) -> Seq<char> {
        self.domain@
    }

    /// The TLS settings of the server.
    pub closed spec fn settings(&self) -> Option<Arc<ServerConfig>> {
        self.config
    }

    /// What becomes of a finished session.
    pub closed spec fn follow_up(&self) -> H {
        self.post_handle
    }

    /// A server without TLS.
    pub fn new(domain: &str, post_handle: H) -> (smtp: Self)
        ensures
            smtp.domain_name() == domain@,
            smtp.settings() is None,
            smtp.follow_up() == post_handle,
    {
        Self { domain: copy_text(domain), config: None, post_handle }
    }

    /// Takes over the TLS settings.
    pub fn set_config(&mut self, config: &Option<Arc<ServerConfig>>)
        ensures
            final(self).settings() == *config,
            final(self).domain_name() == old(self).domain_name(),
            final(self).follow_up() == old(self).follow_up(),
    {
        self.config = match config {
            Some(config) => Some(share_config(config)),
            None => None,
        };
    }

    /// The TLS settings.
    pub fn get_config(&self) -> (config: &Option<Arc<ServerConfig>>)
        ensures
            *config == self.settings(),
    {
        &self.config
    }

    /// What becomes of a finished session.
    pub fn post_handle(&self) -> (post_handle: &H)
        ensures
            *post_handle == self.follow_up(),
    {
        &self.post_handle
    }

    /// The line that opens a connection.
    pub fn greeting(&self) -> (line: String)
        ensures
            line@ == greeting_text(self.domain_name()),
    {
        write_greeting(self.domain.as_str())
    }

    /// Takes a line from the client and gives the reply, if it has one.
    pub fn build_response(&self, incoming: &str, session: &mut SmtpSession) -> (reply: Option<
        String,
    >)
        ensures
            final(session)@ == line_step(self.settings() is Some, incoming@, old(session)@).0,
            ({
                let outcome = line_step(self.settings() is Some, incoming@, old(session)@).1;
                let expected = reply_text(self.settings() is Some, outcome, command_word(incoming@));
                match reply {
                    Some(text) => expected == Some(text@),
                    None => expected is None,
                }
            }),
    {
        let tls = self.config.is_some();
        let outcome = take_line(tls, incoming, session);
        let command = first_word(incoming);
        write_reply(tls, outcome, command.as_str())
    }

    /// Takes a line from the client of a connection.
    pub fn on_line(&self, dialogue: &mut SmtpDialogue, line: &str) -> (step: SmtpStep)
        ensures
            (final(dialogue).session@, final(dialogue).secured, step@) == dialogue_step(
                self.settings() is Some,
                line@,
                old(dialogue).session@,
                old(dialogue).secured,
            ),
    {
        match self.build_response(line, &mut dialogue.session) {
            Some(text) => SmtpStep::Send(text),
            None => {
                if !dialogue.secured && dialogue.session.use_tls {
                    dialogue.session = SmtpSession::new();
                    dialogue.secured = true;
                    SmtpStep::Upgrade
                } else {
                    SmtpStep::Wait
                }
            },
        }
    }
}

impl SmtpDialogue {
    /// A connection as it begins: in the clear, with a fresh session.
    pub fn new() -> (dialogue: Self)
        ensures
            dialogue.session@ == fresh_session(),
            !dialogue.secured,
    {
        Self { session: SmtpSession::new(), secured: false }
    }
}

/// A connection switches to TLS at most once, and only where the server has TLS settings:
/// the settings are there whenever the switch is due.
pub proof fn law_upgrade_needs_settings(
    tls: bool,
    line: Seq<char>,
    session: SessionModel,
    secured: bool,
)
    requires
        !tls ==> !session.use_tls,
    ensures
        ({
            let (after, now_secured, step) = dialogue_step(tls, line, session, secured);
            &&& step is Upgrade ==> tls && !secured && now_secured
            &&& step !is Upgrade ==> now_secured == secured
            &&& !tls ==> !after.use_tls
        }),
{
}

/// Nothing that a client said in the clear outlives the switch to TLS.
pub proof fn law_upgrade_forgets(tls: bool, line: Seq<char>, session: SessionModel, secured: bool)
    ensures
        dialogue_step(tls, line, session, secured).2 is Upgrade ==> dialogue_step(
            tls,
            line,
            session,
            secured,
        ).0 == fresh_session(),
{
}

/// Commands count in any case of ASCII letters: lines that differ in the case of a command
/// word only get the same reply and do the same to the session.
pub proof fn law_replies_ignore_case(
    tls: bool,
    lead: Seq<char>,
    first: Seq<char>,
    second: Seq<char>,
    rest: Seq<char>,
    session: SessionModel,
)
    requires
        !session.is_data,
        forall|i: int| 0 <= i < lead.len() ==> is_white(#[trigger] lead[i]),
        solid(first),
        solid(second),
        first.len() > 0,
        same_but_case(first, second),
        is_command(uppercase(first)),
        rest.len() > 0 ==> is_white(rest[0]),
    ensures
        ({
            let one = lead + first + rest;
            let other = lead + second + rest;
            let (after_one, taken_one) = line_step(tls, one, session);
            let (after_other, taken_other) = line_step(tls, other, session);
            &&& after_one == after_other
            &&& reply_text(tls, taken_one, command_word(one)) == reply_text(
                tls,
                taken_other,
                command_word(other),
            )
        }),
{
    law_commands_count_in_any_case(tls, lead, first, second, rest, session);
}

/// What commands are answered, whatever stands behind them: each has its own reply, an unknown
/// word is repeated, and where TLS begins the reply is left to the one who begins it.
pub proof fn law_commands_have_their_replies(
    tls: bool,
    lead: Seq<char>,
    word: Seq<char>,
    rest: Seq<char>,
    session: SessionModel,
)
    requires
        !session.is_data,
        forall|i: int| 0 <= i < lead.len() ==> is_white(#[trigger] lead[i]),
        forall|i: int| 0 <= i < word.len() ==> !is_white(#[trigger] word[i]),
        word.len() > 0,
        rest.len() > 0 ==> is_white(rest[0]),
    ensures
        ({
            let line = lead + word + rest;
            let upper = uppercase(word);
            let reply = reply_text(tls, line_step(tls, line, session).1, command_word(line));
            let blank = forall|i: int| 0 <= i < rest.len() ==> is_white(#[trigger] rest[i]);
            &&& (upper == "HELO"@ || upper == "EHLO"@) && tls ==> reply == Some(
                "250 STARTTLS\r\n"@,
            )
            &&& (upper == "HELO"@ || upper == "EHLO"@) && !tls ==> reply == Some(
                "250 Hello {}\r\n"@,
            )
            &&& upper == "DATA"@ ==> reply == Some("354 End data with <CR><LF>.<CR><LF>\r\n"@)
            &&& upper == "QUIT"@ ==> reply == Some("221 Bye\r\n"@)
            &&& upper == "STARTTLS"@ && tls ==> reply is None
            &&& (upper == "MAIL"@ || upper == "RCPT"@) && blank ==> reply == Some(
                "501 Syntax error\r\n"@,
            )
            &&& upper == "STARTTLS"@ && !tls || !seq![
                "HELO"@,
                "EHLO"@,
                "DATA"@,
                "QUIT"@,
                "STARTTLS"@,
                "MAIL"@,
                "RCPT"@,
            ].contains(upper) ==> reply == Some("500 Unknown command: "@ + word + "\r\n"@)
        }),
        reply_text(tls, Outcome::Accepted, word) == Some("250 Ok\r\n"@),
        reply_text(tls, Outcome::Absorbed, word) is None,
{
    law_commands_do_as_told(tls, lead, word, rest, session);
}

/// A connection in the clear goes over to TLS with the line that asks for it, with nothing of what
/// was said before; over TLS such a line is passed over. Any other line is answered with its reply,
/// and changes the session as the line says.
pub proof fn law_only_the_wish_for_tls_secures(
    tls: bool,
    line: Seq<char>,
    session: SessionModel,
    secured: bool,
)
    requires
        !session.use_tls || secured,
    ensures
        ({
            let (after, outcome) = line_step(tls, line, session);
            let (kept, now_secured, step) = dialogue_step(tls, line, session, secured);
            let reply = reply_text(tls, outcome, command_word(line));
            &&& step is Upgrade <==> outcome is StartTls && !secured
            &&& step is Upgrade ==> now_secured && kept == fresh_session()
            &&& step !is Upgrade ==> kept == after && now_secured == secured
            &&& step is Send <==> reply is Some
            &&& step matches SmtpStepModel::Send(text) ==> reply == Some(text)
        }),
{
}

} // verus!
