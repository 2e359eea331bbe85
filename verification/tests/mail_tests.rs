use server_kit::applications::async_mail::connection as async_connection;
use server_kit::applications::async_mail::protocol::{answer_line, MailStep};
use server_kit::applications::async_mail::protocol::Smtp as AsyncSmtp;
use server_kit::applications::async_mail::smtp::SmtpSession;
use server_kit::applications::mail::command::{
    first_word, take_command, take_data, take_line, write_greeting, write_unknown, Outcome,
};
use server_kit::applications::mail::connection as blocking_connection;
use server_kit::applications::mail::protocol::{
    write_reply, Smtp, SmtpDialogue, SmtpStep, READY_FOR_TLS,
};
use std::sync::Arc;

#[derive(Debug)]
struct NoCertificate;

impl rustls::server::ResolvesServerCert for NoCertificate {
    fn resolve(
        &self,
        _hello: rustls::server::ClientHello<'_>,
    ) -> Option<Arc<rustls::sign::CertifiedKey>> {
        None
    }
}

fn settings() -> Arc<rustls::ServerConfig> {
    let provider = Arc::new(rustls::crypto::ring::default_provider());
    Arc::new(
        rustls::ServerConfig::builder_with_provider(provider)
            .with_safe_default_protocol_versions()
            .unwrap()
            .with_no_client_auth()
            .with_cert_resolver(Arc::new(NoCertificate)),
    )
}

fn run(tls: bool, lines: &[&str], session: &mut SmtpSession) -> Vec<Outcome> {
    let mut taken = Vec::new();
    for line in lines {
        taken.push(take_line(tls, line, session));
    }
    taken
}

#[test]
fn fresh_session_is_empty() {
    let session = SmtpSession::new();
    assert_eq!(session.client_domain, "");
    assert_eq!(session.from, "");
    assert!(session.to.is_empty());
    assert_eq!(session.cc, "");
    assert_eq!(session.date, "");
    assert_eq!(session.subject, "");
    assert_eq!(session.content, "");
    assert!(!session.is_data && !session.is_content && !session.use_tls && !session.quit);
}

#[test]
fn first_message_is_received() {
    let mut session = SmtpSession::new();
    let taken = run(
        false,
        &[
            "EHLO client\r\n",
            "mail FROM:<a@b.c>\r\n",
            "RCPT TO:<x@y.z>\r\n",
            "rcpt to:<u@v.w>\r\n",
            "Data\r\n",
            "Subject: hi\r\n",
            "\r\n",
            "one\r\n",
            "\r\n",
            "two\r\n",
            ".\r\n",
            "QUIT\r\n",
        ],
        &mut session,
    );
    assert_eq!(
        taken,
        vec![
            Outcome::Hello,
            Outcome::Accepted,
            Outcome::Accepted,
            Outcome::Accepted,
            Outcome::SendData,
            Outcome::Absorbed,
            Outcome::Absorbed,
            Outcome::Absorbed,
            Outcome::Absorbed,
            Outcome::Absorbed,
            Outcome::Accepted,
            Outcome::Bye,
        ]
    );
    assert_eq!(session.from, "a@b.c");
    assert_eq!(session.to, vec!["x@y.z", "u@v.w"]);
    assert_eq!(session.content, "onetwo");
    assert!(!session.is_data);
    assert!(session.is_content);
    assert!(!session.quit);
}

#[test]
fn later_message_keeps_its_header() {
    let mut session = SmtpSession::new();
    run(false, &["DATA", "H: 1", "", "body", "."], &mut session);
    run(false, &["DATA", "H: 2", "", "more", "."], &mut session);
    assert_eq!(session.content, "bodyH: 2more");
}

#[test]
fn header_lines_are_dropped() {
    let mut session = SmtpSession::new();
    session.is_data = true;
    assert_eq!(take_data("To: someone\r\n", &mut session), Outcome::Absorbed);
    assert_eq!(session.content, "");
    assert_eq!(take_data("\r\n", &mut session), Outcome::Absorbed);
    assert!(session.is_content);
    assert_eq!(take_data(". not the end\r\n", &mut session), Outcome::Absorbed);
    assert_eq!(session.content, ". not the end");
    assert_eq!(take_data(".\r\n", &mut session), Outcome::Accepted);
    assert!(!session.is_data);
}

#[test]
fn addresses_are_cleaned() {
    for (argument, address) in [
        ("FROM:<a@b>", "a@b"),
        ("from:<a@b>", "a@b"),
        ("FROM:from:<a@b>", "a@b"),
        ("from:FROM:<a@b>", "FROM:<a@b"),
        ("From:<a@b>", "From:<a@b"),
        ("<a@b>", "a@b"),
        ("a@b", "a@b"),
        ("FROM:", ""),
    ] {
        let mut session = SmtpSession::new();
        assert_eq!(take_command(false, "MAIL", Some(argument), &mut session), Outcome::Accepted);
        assert_eq!(session.from, address, "{}", argument);
    }
}

#[test]
fn commands_without_argument_are_syntax_errors() {
    let mut session = SmtpSession::new();
    assert_eq!(take_line(false, "MAIL\r\n", &mut session), Outcome::BadSyntax);
    assert_eq!(take_line(false, "RCPT \r\n", &mut session), Outcome::BadSyntax);
    assert_eq!(session.from, "");
    assert!(session.to.is_empty());
}

#[test]
fn unknown_commands_are_told() {
    let mut session = SmtpSession::new();
    assert_eq!(take_line(false, "NOOP\r\n", &mut session), Outcome::Unknown);
    assert_eq!(take_line(false, "\r\n", &mut session), Outcome::Unknown);
    assert_eq!(take_line(false, "STARTTLS\r\n", &mut session), Outcome::Unknown);
    assert!(!session.use_tls);
    assert_eq!(first_word("  noop x\r\n"), "noop");
    assert_eq!(first_word(" \r\n"), "");
    assert_eq!(write_unknown("noop"), "500 Unknown command: noop\r\n");
}

#[test]
fn commands_count_in_any_case() {
    let smtp = Smtp::new("d", ());
    for (one, other) in [
        ("EHLO x\r\n", "eHlO x\r\n"),
        ("helo\r\n", "HELO\r\n"),
        (" Mail FROM:<a>\r\n", " mAIL FROM:<a>\r\n"),
        ("rcpt\r\n", "RCPT\r\n"),
        ("quit", "QUIT"),
        ("Data\r\n", "dATA\r\n"),
    ] {
        let mut first = SmtpSession::new();
        let mut second = SmtpSession::new();
        assert_eq!(smtp.build_response(one, &mut first), smtp.build_response(other, &mut second));
        assert_eq!(format!("{:?}", first), format!("{:?}", second));
    }
}

#[test]
fn command_case_is_that_of_unicode() {
    let mut session = SmtpSession::new();
    // The long s is an upper case S.
    assert_eq!(take_line(true, "\u{17f}tarttl\u{17f}\r\n", &mut session), Outcome::StartTls);
    assert!(session.use_tls);
}

#[test]
fn greeting_names_the_domain() {
    assert_eq!(write_greeting("mail.example"), "220 mail.example ESMTP ready\r\n");
    let smtp = Smtp::new("mail.example", 7u8);
    assert_eq!(smtp.greeting(), "220 mail.example ESMTP ready\r\n");
    assert_eq!(*smtp.post_handle(), 7);
    let smtp = AsyncSmtp::new("other.example", 8u8);
    assert_eq!(smtp.greeting(), "220 other.example ESMTP ready\r\n");
    assert_eq!(*smtp.post_handle(), 8);
    assert!(smtp.config().is_none());
}

#[test]
fn replies_of_the_blocking_server() {
    let smtp = Smtp::new("d", ());
    let mut session = SmtpSession::new();
    assert_eq!(smtp.build_response("HELO x\r\n", &mut session).unwrap(), "250 Hello {}\r\n");
    assert_eq!(smtp.build_response("MAIL FROM:<a>\r\n", &mut session).unwrap(), "250 Ok\r\n");
    assert_eq!(smtp.build_response("MAIL\r\n", &mut session).unwrap(), "501 Syntax error\r\n");
    assert_eq!(
        smtp.build_response("DATA\r\n", &mut session).unwrap(),
        "354 End data with <CR><LF>.<CR><LF>\r\n"
    );
    assert!(smtp.build_response("line\r\n", &mut session).is_none());
    assert_eq!(smtp.build_response(".\r\n", &mut session).unwrap(), "250 Ok\r\n");
    assert_eq!(smtp.build_response("QUIT\r\n", &mut session).unwrap(), "221 Bye\r\n");
    assert!(!session.quit);
    assert_eq!(
        smtp.build_response("starttls\r\n", &mut session).unwrap(),
        "500 Unknown command: starttls\r\n"
    );
    assert_eq!(write_reply(true, Outcome::Hello, "EHLO").unwrap(), "250 STARTTLS\r\n");
    assert!(write_reply(true, Outcome::StartTls, "STARTTLS").is_none());
}

#[test]
fn blocking_connection_switches_to_tls_once() {
    let mut smtp = Smtp::new("d", ());
    smtp.set_config(&Some(settings()));
    assert!(smtp.get_config().is_some());
    let mut dialogue = SmtpDialogue::new();
    assert!(matches!(smtp.on_line(&mut dialogue, "EHLO x\r\n"), SmtpStep::Send(t) if t == "250 STARTTLS\r\n"));
    assert!(matches!(smtp.on_line(&mut dialogue, "MAIL FROM:<a>\r\n"), SmtpStep::Send(_)));
    assert_eq!(dialogue.session.from, "a");
    assert!(matches!(smtp.on_line(&mut dialogue, "STARTTLS\r\n"), SmtpStep::Upgrade));
    assert!(dialogue.secured);
    assert_eq!(dialogue.session.from, "");
    assert!(!dialogue.session.use_tls);
    assert!(matches!(smtp.on_line(&mut dialogue, "STARTTLS\r\n"), SmtpStep::Wait));
    assert!(dialogue.session.use_tls);
    assert_eq!(READY_FOR_TLS, "220 2.0.0 Ready to start TLS\r\n");
}

#[test]
fn blocking_connection_without_settings_stays_in_the_clear() {
    let mut smtp = Smtp::new("d", ());
    smtp.set_config(&None);
    let mut dialogue = SmtpDialogue::new();
    assert!(matches!(
        smtp.on_line(&mut dialogue, "STARTTLS\r\n"),
        SmtpStep::Send(t) if t == "500 Unknown command: STARTTLS\r\n"
    ));
    assert!(!dialogue.secured);
}

#[test]
fn steps_of_the_asynchronous_server() {
    let mut session = SmtpSession::new();
    assert!(matches!(
        answer_line(false, "HELO x\r\n", &mut session),
        MailStep::Send(t) if t == "250 Hello\r\n"
    ));
    assert!(matches!(
        answer_line(true, "HELO x\r\n", &mut session),
        MailStep::Send(t) if t == "250 STARTTLS\r\n"
    ));
    assert!(matches!(
        answer_line(true, "StartTls\r\n", &mut session),
        MailStep::Upgrade(t) if t == "220 2.0.0 Ready to start TLS\r\n"
    ));
    assert!(session.use_tls);
    assert!(matches!(
        answer_line(false, "DATA\r\n", &mut session),
        MailStep::Send(t) if t == "354 End data with <CR><LF>.<CR><LF>\r\n"
    ));
    assert!(matches!(answer_line(false, "QUIT\r\n", &mut session), MailStep::Wait));
    assert!(!session.quit);
    assert!(matches!(answer_line(false, ".\r\n", &mut session), MailStep::Send(t) if t == "250 Ok\r\n"));
    assert!(matches!(
        answer_line(false, "quit\r\n", &mut session),
        MailStep::Leave(t) if t == "221 Bye\r\n"
    ));
    assert!(session.quit);
    assert!(matches!(
        answer_line(false, "VRFY a\r\n", &mut session),
        MailStep::Send(t) if t == "500 Unknown command: VRFY\r\n"
    ));
    let smtp = AsyncSmtp::new("d", ());
    assert!(matches!(
        smtp.on_line("RCPT\r\n", &mut session),
        MailStep::Send(t) if t == "501 Syntax error\r\n"
    ));
}

/// Runs an asynchronous connection on what is read and on what doing things comes to, well where
/// nothing is said. Gives what was done, the sessions that were followed up, and the result.
fn converse(
    reads: &[Result<&str, u8>],
    outcomes: &[Result<(), u8>],
) -> (Vec<String>, Vec<SmtpSession>, Result<usize, u8>) {
    let smtp = AsyncSmtp::new("d", ());
    let mut log = Vec::new();
    let mut sessions = Vec::new();
    let mut reads = reads.iter();
    let mut outcomes = outcomes.iter();
    let (mut connection, mut act) = async_connection::Connection::begin::<(), u8>(&smtp);
    loop {
        match act {
            async_connection::Act::Send(text) => log.push(text),
            async_connection::Act::Secure(_) => log.push("secure".to_string()),
            async_connection::Act::Follow(session) => {
                log.push("follow".to_string());
                sessions.push(session);
            }
            async_connection::Act::ReadLine => {
                assert!(connection.is_reading() && !connection.is_busy());
                let line = reads.next().copied().unwrap_or(Ok(""));
                act = connection.on_line(&smtp, line.map(|line| line.len()), line.unwrap_or(""));
                continue;
            }
            async_connection::Act::Finish(result) => {
                assert!(!connection.is_reading() && !connection.is_busy());
                return (log, sessions, result);
            }
        }
        assert!(connection.is_busy() && !connection.is_reading());
        act = connection.on_done(outcomes.next().copied().unwrap_or(Ok(())));
    }
}

#[test]
fn session_is_followed_up_after_the_farewell() {
    let (log, sessions, result) =
        converse(&[Ok("MAIL FROM:<a>\r\n"), Ok("QUIT\r\n"), Ok("MAIL FROM:<b>\r\n")], &[]);
    assert_eq!(log, vec!["220 d ESMTP ready\r\n", "250 Ok\r\n", "221 Bye\r\n", "follow"]);
    assert_eq!(sessions.len(), 1);
    assert_eq!(sessions[0].from, "a");
    assert!(sessions[0].quit);
    assert_eq!(result, Ok(1));
}

#[test]
fn session_is_followed_up_at_the_end_of_the_input() {
    let (log, sessions, result) = converse(&[Ok("DATA\r\n"), Ok("QUIT\r\n")], &[]);
    assert_eq!(
        log,
        vec!["220 d ESMTP ready\r\n", "354 End data with <CR><LF>.<CR><LF>\r\n", "follow"]
    );
    assert_eq!(sessions.len(), 1);
    assert!(sessions[0].is_data && !sessions[0].quit);
    assert_eq!(result, Ok(1));
}

#[test]
fn failures_end_the_session_without_a_follow_up() {
    let (log, sessions, result) = converse(&[], &[Err(5)]);
    assert_eq!(log, vec!["220 d ESMTP ready\r\n"]);
    assert!(sessions.is_empty());
    assert_eq!(result, Err(5));
    let (_, sessions, result) = converse(&[Ok("MAIL FROM:<a>\r\n"), Err(6)], &[]);
    assert!(sessions.is_empty());
    assert_eq!(result, Err(6));
    let (_, sessions, result) = converse(&[Ok("QUIT\r\n")], &[Ok(()), Err(7)]);
    assert!(sessions.is_empty());
    assert_eq!(result, Err(7));
}

#[test]
fn failed_follow_up_is_told() {
    let (_, sessions, result) = converse(&[], &[Ok(()), Err(9)]);
    assert_eq!(sessions.len(), 1);
    assert_eq!(result, Err(9));
}

#[test]
fn blocking_session_is_followed_up_at_the_end_of_the_input() {
    let mut smtp = Smtp::new("d", ());
    smtp.set_config(&Some(settings()));
    let reads = ["MAIL FROM:<a>\r\n", "STARTTLS\r\n", "RCPT TO:<b>\r\n", "QUIT\r\n", ""];
    let mut reads = reads.iter();
    let mut log = Vec::new();
    let mut sessions = Vec::new();
    let (mut connection, mut act) = blocking_connection::Connection::begin::<(), u8>(&smtp);
    loop {
        match act {
            blocking_connection::Act::Send(text) => log.push(text),
            blocking_connection::Act::Secure => log.push("secure".to_string()),
            blocking_connection::Act::Follow(session) => sessions.push(session),
            blocking_connection::Act::ReadLine => {
                assert!(connection.is_reading());
                let line = reads.next().unwrap();
                act = connection.on_line(&smtp, Ok(line.len()), line);
                continue;
            }
            blocking_connection::Act::Finish(result) => {
                assert_eq!(result, Ok(()));
                break;
            }
        }
        assert!(connection.is_busy());
        act = connection.on_done(Ok(()));
    }
    assert_eq!(
        log,
        vec![
            "220 d ESMTP ready\r\n",
            "250 Ok\r\n",
            READY_FOR_TLS,
            "secure",
            "250 Ok\r\n",
            "221 Bye\r\n"
        ]
    );
    assert_eq!(sessions.len(), 1);
    assert_eq!(sessions[0].from, "");
    assert_eq!(sessions[0].to, vec!["b".to_string()]);
}

#[test]
fn blocking_session_that_fails_is_not_followed_up() {
    let smtp = Smtp::new("d", ());
    let (mut connection, _) = blocking_connection::Connection::begin::<(), u8>(&smtp);
    assert!(matches!(connection.on_done(Ok::<(), u8>(())), blocking_connection::Act::ReadLine));
    assert!(matches!(
        connection.on_line(&smtp, Err(3), ""),
        blocking_connection::Act::Finish(Err(3u8))
    ));
    assert!(!connection.is_busy() && !connection.is_reading());
    let (mut connection, _) = blocking_connection::Connection::begin::<(), u8>(&smtp);
    assert!(matches!(connection.on_done(Err(4u8)), blocking_connection::Act::Finish(Err(4))));
}
