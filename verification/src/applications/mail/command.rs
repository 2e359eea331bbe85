//! What a line from a mail client does to its session.
use vstd::prelude::*;
use crate::applications::async_mail::smtp::{SessionModel, SmtpSession};
use crate::encoding::{law_case_is_folded, same_but_case, to_uppercase, uppercase};
use crate::text::{
    copy_text, is_white, law_character_classes, law_prefixes_are_stripped,
    law_trimming_bares_the_core, law_trimming_the_end,
    law_words_are_parted_by_white_space, lemma_first_word, same_text, solid, split_words, strip_all, strip_prefixes,
    texts, trim_both, trim_end, trim_ends, trim_start, trim_tail, words, CharClass,
};

verus! {

/// How a line was taken.
#[derive(Clone, Copy, PartialEq, Eq, Structural, Debug)]
pub enum Outcome {
    /// Part of a message: no reply.
    Absorbed,
    /// Done as asked.
    Accepted,
    /// The client asked for TLS and can have it.
    StartTls,
    /// A greeting.
    Hello,
    /// A command without its argument.
    BadSyntax,
    /// The client may send its message.
    SendData,
    /// The client takes its leave.
    Bye,
    /// No command of this server.
    Unknown,
}

/// The first word of a line; empty where there is none.
pub open spec fn command_word(line: Seq<char>) -> Seq<char> {
    let list = words(line);
    if list.len() > 0 {
        list[0]
    } else {
        Seq::empty()
    }
}

/// The second word of a line.
pub open spec fn argument_word(line: Seq<char>) -> Option<Seq<char>> {
    let list = words(line);
    if list.len() > 1 {
        Some(list[1])
    } else {
        None
    }
}

/// The address in the argument of a command: without the leading key word in either case,
/// and without angle brackets and line ends around it.
pub open spec fn address(argument: Seq<char>, upper_key: Seq<char>, lower_key: Seq<char>) -> Seq<
    char,
> {
    trim_both(strip_all(strip_all(argument, upper_key), lower_key), CharClass::AddressMark)
}

/// The session after a line of a message, and how the line was taken.
pub open spec fn data_step(line: Seq<char>, session: SessionModel) -> (SessionModel, Outcome) {
    let stripped = trim_end(line, CharClass::LineBreak);
    if stripped == "."@ {
        (SessionModel { is_data: false, ..session }, Outcome::Accepted)
    } else if stripped == ""@ {
        (SessionModel { is_content: true, ..session }, Outcome::Absorbed)
    } else if session.is_content {
        (SessionModel { content: session.content + stripped, ..session }, Outcome::Absorbed)
    } else {
        (session, Outcome::Absorbed)
    }
}

/// The session after the command `upper`, given in upper case, with the argument that
/// follows it, and how the command was taken; `tls` says whether the server offers TLS.
pub open spec fn command_step(
    tls: bool,
    upper: Seq<char>,
    argument: Option<Seq<char>>,
    session: SessionModel,
) -> (SessionModel, Outcome) {
    if upper == "STARTTLS"@ {
        if tls {
            (SessionModel { use_tls: true, ..session }, Outcome::StartTls)
        } else {
            (session, Outcome::Unknown)
        }
    } else if upper == "EHLO"@ || upper == "HELO"@ {
        (session, Outcome::Hello)
    } else if upper == "MAIL"@ {
        match argument {
            Some(sender) => (
                SessionModel { from: address(sender, "FROM:"@, "from:"@), ..session },
                Outcome::Accepted,
            ),
            None => (session, Outcome::BadSyntax),
        }
    } else if upper == "RCPT"@ {
        match argument {
            Some(receiver) => (
                SessionModel {
                    to: session.to.push(address(receiver, "TO:"@, "to:"@)),
                    ..session
                },
                Outcome::Accepted,
            ),
            None => (session, Outcome::BadSyntax),
        }
    } else if upper == "DATA"@ {
        (SessionModel { is_data: true, ..session }, Outcome::SendData)
    } else if upper == "QUIT"@ {
        (session, Outcome::Bye)
    } else {
        (session, Outcome::Unknown)
    }
}

/// The session after a line, and how the line was taken.
pub open spec fn line_step(tls: bool, line: Seq<char>, session: SessionModel) -> (
    SessionModel,
    Outcome,
) {
    if session.is_data {
        data_step(line, session)
    } else {
        command_step(tls, uppercase(command_word(line)), argument_word(line), session)
    }
}

/// Takes the address out of the argument of a command.
fn clean_address(argument: &str, upper_key: &str, lower_key: &str) -> (cleaned: String)
    ensures
        cleaned@ == address(argument@, upper_key@, lower_key@),
{
    let first = strip_prefixes(argument, upper_key);
    let second = strip_prefixes(first.as_str(), lower_key);
    trim_ends(second.as_str(), CharClass::AddressMark)
}

/// Takes a line of a message.
pub fn take_data(line: &str, session: &mut SmtpSession) -> (outcome: Outcome)
    ensures
        (final(session)@, outcome) == data_step(line@, old(session)@),
{
    let stripped = trim_tail(line, CharClass::LineBreak);
    if same_text(stripped.as_str(), ".") {
        session.is_data = false;
        Outcome::Accepted
    } else if same_text(stripped.as_str(), "") {
        session.is_content = true;
        Outcome::Absorbed
    } else {
        if session.is_content {
            session.content.append(stripped.as_str());
        }
        Outcome::Absorbed
    }
}

/// Takes the command `upper`, given in upper case, with the argument that follows it.
pub fn take_command(
    tls: bool,
    upper: &str,
    argument: Option<&str>,
    session: &mut SmtpSession,
) -> (outcome: Outcome)
    ensures
        (final(session)@, outcome) == command_step(
            tls,
            upper@,
            (match argument {
                Some(word) => Some(word@),
                None => None,
            }),
            old(session)@,
        ),
{
    if same_text(upper, "STARTTLS") {
        if tls {
            session.use_tls = true;
            Outcome::StartTls
        } else {
            Outcome::Unknown
        }
    } else if same_text(upper, "EHLO") || same_text(upper, "HELO") {
        Outcome::Hello
    } else if same_text(upper, "MAIL") {
        match argument {
            Some(sender) => {
                session.from = clean_address(sender, "FROM:", "from:");
                Outcome::Accepted
            },
            None => Outcome::BadSyntax,
        }
    } else if same_text(upper, "RCPT") {
        match argument {
            Some(receiver) => {
                let cleaned = clean_address(receiver, "TO:", "to:");
                session.to.push(cleaned);
                assert(session@.to =~= old(session)@.to.push(
                    address(receiver@, "TO:"@, "to:"@),
                ));
                Outcome::Accepted
            },
            None => Outcome::BadSyntax,
        }
    } else if same_text(upper, "DATA") {
        session.is_data = true;
        Outcome::SendData
    } else if same_text(upper, "QUIT") {
        Outcome::Bye
    } else {
        Outcome::Unknown
    }
}

/// The first word of a line; empty where there is none.
pub fn first_word(line: &str) -> (word: String)
    ensures
        word@ == command_word(line@),
{
    let list = split_words(line);
    assert(list@.len() == words(line@).len());
    if list.len() > 0 {
        assert(texts(list@)[0] == list@[0]@);
        list[0].clone()
    } else {
        String::new()
    }
}

/// Takes a line from the client.
pub fn take_line(tls: bool, line: &str, session: &mut SmtpSession) -> (outcome: Outcome)
    ensures
        (final(session)@, outcome) == line_step(tls, line@, old(session)@),
{
    if session.is_data {
        take_data(line, session)
    } else {
        let list = split_words(line);
        assert(list@.len() == words(line@).len());
        let command = first_word(line);
        let upper = to_uppercase(command.as_str());
        if list.len() > 1 {
            assert(texts(list@)[1] == list@[1]@);
            take_command(tls, upper.as_str(), Some(list[1].as_str()), session)
        } else {
            take_command(tls, upper.as_str(), None, session)
        }
    }
}

/// The reply to a command that the server does not know.
pub open spec fn unknown_reply(command: Seq<char>) -> Seq<char> {
    "500 Unknown command: "@ + command + "\r\n"@
}

/// Writes the reply to a command that the server does not know.
pub fn write_unknown(command: &str) -> (reply: String)
    ensures
        reply@ == unknown_reply(command@),
{
    let mut reply = copy_text("500 Unknown command: ");
    reply.append(command);
    reply.append("\r\n");
    reply
}

/// The line with which a server of `domain` opens a session.
pub open spec fn greeting_text(domain: Seq<char>) -> Seq<char> {
    "220 "@ + domain + " ESMTP ready\r\n"@
}

/// Writes the line that opens a session.
pub fn write_greeting(domain: &str) -> (line: String)
    ensures
        line@ == greeting_text(domain@),
{
    let mut line = copy_text("220 ");
    line.append(domain);
    line.append(" ESMTP ready\r\n");
    line
}

/// The session after the lines, taken one after the other.
pub open spec fn session_after(
    tls: bool,
    lines: Seq<Seq<char>>,
    session: SessionModel,
) -> SessionModel
    decreases lines.len(),
{
    if lines.len() == 0 {
        session
    } else {
        line_step(tls, lines.last(), session_after(tls, lines.drop_last(), session)).0
    }
}

/// How the lines are taken, one after the other.
pub open spec fn outcomes(tls: bool, lines: Seq<Seq<char>>, session: SessionModel) -> Seq<Outcome>
    decreases lines.len(),
{
    if lines.len() == 0 {
        Seq::empty()
    } else {
        outcomes(tls, lines.drop_last(), session).push(
            line_step(tls, lines.last(), session_after(tls, lines.drop_last(), session)).1,
        )
    }
}

/// A line without the line break at its end.
pub open spec fn stripped(line: Seq<char>) -> Seq<char> {
    trim_end(line, CharClass::LineBreak)
}

/// The lines without their line breaks, put together.
pub open spec fn body_text(lines: Seq<Seq<char>>) -> Seq<char>
    decreases lines.len(),
{
    if lines.len() == 0 {
        Seq::empty()
    } else {
        body_text(lines.drop_last()) + stripped(lines.last())
    }
}

/// Whether no line is the single dot that ends a message.
pub open spec fn no_end_mark(lines: Seq<Seq<char>>) -> bool {
    forall|i: int| 0 <= i < lines.len() ==> stripped(#[trigger] lines[i]) != "."@
}

/// Whether no line is blank.
pub open spec fn no_blank(lines: Seq<Seq<char>>) -> bool {
    forall|i: int| 0 <= i < lines.len() ==> stripped(#[trigger] lines[i]) != ""@
}

/// Taking two runs of lines one after the other is taking them as one run.
pub proof fn law_runs_compose(
    tls: bool,
    first: Seq<Seq<char>>,
    second: Seq<Seq<char>>,
    session: SessionModel,
)
    ensures
        session_after(tls, first + second, session) == session_after(
            tls,
            second,
            session_after(tls, first, session),
        ),
        outcomes(tls, first + second, session) == outcomes(tls, first, session) + outcomes(
            tls,
            second,
            session_after(tls, first, session),
        ),
    decreases second.len(),
{
    if second.len() == 0 {
        assert(first + second =~= first);
    } else {
        law_runs_compose(tls, first, second.drop_last(), session);
        assert((first + second).drop_last() =~= first + second.drop_last());
    }
}

/// The lines of a message after its header, up to the end mark, are appended to the
/// content of the session without their line breaks; they are not answered, and nothing
/// else of the session changes.
pub proof fn law_body_is_collected(tls: bool, lines: Seq<Seq<char>>, session: SessionModel)
    requires
        session.is_data,
        session.is_content,
        no_end_mark(lines),
    ensures
        session_after(tls, lines, session) == (SessionModel {
            content: session.content + body_text(lines),
            ..session
        }),
        forall|i: int| 0 <= i < lines.len() ==> outcomes(tls, lines, session)[i]
            == Outcome::Absorbed,
        outcomes(tls, lines, session).len() == lines.len(),
    decreases lines.len(),
{
    reveal_strlit("");
    if lines.len() == 0 {
        assert(session.content + body_text(lines) =~= session.content);
    } else {
        let shorter = lines.drop_last();
        assert forall|i: int| 0 <= i < shorter.len() implies stripped(#[trigger] shorter[i])
            != "."@ by {
            assert(stripped(lines[i]) != "."@);
        }
        law_body_is_collected(tls, shorter, session);
        assert(stripped(lines[lines.len() - 1]) != "."@);
        let before = session_after(tls, shorter, session);
        assert(before.content + stripped(lines.last()) =~= session.content + body_text(lines));
        if stripped(lines.last()) == ""@ {
            assert(session.content + body_text(lines) =~= before.content);
        }
    }
}

/// The lines of the header of a message are dropped and not answered.
pub proof fn law_header_is_dropped(tls: bool, lines: Seq<Seq<char>>, session: SessionModel)
    requires
        session.is_data,
        !session.is_content,
        no_end_mark(lines),
        no_blank(lines),
    ensures
        session_after(tls, lines, session) == session,
        forall|i: int| 0 <= i < lines.len() ==> outcomes(tls, lines, session)[i]
            == Outcome::Absorbed,
        outcomes(tls, lines, session).len() == lines.len(),
    decreases lines.len(),
{
    if lines.len() > 0 {
        let shorter = lines.drop_last();
        assert forall|i: int| 0 <= i < shorter.len() implies stripped(#[trigger] shorter[i])
            != "."@ && stripped(shorter[i]) != ""@ by {
            assert(stripped(lines[i]) != "."@ && stripped(lines[i]) != ""@);
        }
        law_header_is_dropped(tls, shorter, session);
        assert(stripped(lines[lines.len() - 1]) != "."@);
        assert(stripped(lines[lines.len() - 1]) != ""@);
    }
}

/// The command that announces a message makes the session read one.
proof fn lemma_announced(tls: bool, announce: Seq<char>, session: SessionModel)
    requires
        !session.is_data,
        uppercase(command_word(announce)) == "DATA"@,
    ensures
        session_after(tls, seq![announce], session) == (SessionModel { is_data: true, ..session }),
{
    reveal_strlit("DATA");
    reveal_strlit("STARTTLS");
    reveal_strlit("EHLO");
    reveal_strlit("HELO");
    reveal_strlit("MAIL");
    reveal_strlit("RCPT");
    assert("DATA"@[0] == 'D');
    assert("STARTTLS"@[0] == 'S');
    assert("EHLO"@[0] == 'E');
    assert("HELO"@[0] == 'H');
    assert("MAIL"@[0] == 'M');
    assert("RCPT"@[0] == 'R');
    let opening = seq![announce];
    assert(opening.drop_last() =~= Seq::<Seq<char>>::empty());
    assert(opening.last() == announce);
    assert(session_after(tls, opening.drop_last(), session) == session);
}

/// The first message of a session: after the command that announces it, its header, a
/// blank line, its body and the end mark, the session holds the body as its content and
/// is otherwise as before, and takes commands again.
pub proof fn law_first_message_is_received(
    tls: bool,
    announce: Seq<char>,
    header: Seq<Seq<char>>,
    blank: Seq<char>,
    body: Seq<Seq<char>>,
    end: Seq<char>,
    session: SessionModel,
)
    requires
        !session.is_data,
        !session.is_content,
        uppercase(command_word(announce)) == "DATA"@,
        no_end_mark(header),
        no_blank(header),
        stripped(blank) == ""@,
        no_end_mark(body),
        stripped(end) == "."@,
    ensures
        session_after(tls, (seq![announce] + header).push(blank) + body.push(end), session) == (
        SessionModel { content: session.content + body_text(body), is_content: true, ..session }),
{
    reveal_strlit("");
    reveal_strlit(".");
    let opening = seq![announce];
    let opened = SessionModel { is_data: true, ..session };
    lemma_announced(tls, announce, session);
    law_runs_compose(tls, opening, header, session);
    law_header_is_dropped(tls, header, opened);
    let head = opening + header;
    assert(head.push(blank).drop_last() =~= head);
    let reading = SessionModel { is_content: true, ..opened };
    assert(""@ != "."@) by {
        assert("."@.len() == 1);
    }
    assert(session_after(tls, head.push(blank), session) == reading);
    law_runs_compose(tls, head.push(blank), body.push(end), session);
    assert(body.push(end).drop_last() =~= body);
    law_body_is_collected(tls, body, reading);
}

/// A later message of a session: all of its lines before the end mark, those of its header
/// too, are added to the content, and the session takes commands again.
pub proof fn law_later_message_is_added(
    tls: bool,
    announce: Seq<char>,
    lines: Seq<Seq<char>>,
    end: Seq<char>,
    session: SessionModel,
)
    requires
        !session.is_data,
        session.is_content,
        uppercase(command_word(announce)) == "DATA"@,
        no_end_mark(lines),
        stripped(end) == "."@,
    ensures
        session_after(tls, seq![announce] + lines.push(end), session) == (SessionModel {
            content: session.content + body_text(lines),
            ..session
        }),
{
    let opened = SessionModel { is_data: true, ..session };
    lemma_announced(tls, announce, session);
    law_runs_compose(tls, seq![announce], lines.push(end), session);
    assert(lines.push(end).drop_last() =~= lines);
    law_body_is_collected(tls, lines, opened);
}

/// A line of a message never changes the sender, the receivers, or the wish for TLS.
pub proof fn law_message_keeps_envelope(tls: bool, line: Seq<char>, session: SessionModel)
    requires
        session.is_data,
    ensures
        line_step(tls, line, session).0.from == session.from,
        line_step(tls, line, session).0.to == session.to,
        line_step(tls, line, session).0.use_tls == session.use_tls,
{
}

/// Outside a message every line is answered, or starts TLS: none is absorbed. A command
/// never touches the content, and receivers are only ever added.
pub proof fn law_commands_are_answered(tls: bool, line: Seq<char>, session: SessionModel)
    requires
        !session.is_data,
    ensures
        line_step(tls, line, session).1 != Outcome::Absorbed,
        line_step(tls, line, session).0.content == session.content,
        session.to.is_prefix_of(line_step(tls, line, session).0.to),
{
    assert(session.to.is_prefix_of(session.to));
}

/// A session comes to want TLS only where the server offers it.
pub proof fn law_tls_only_where_offered(tls: bool, lines: Seq<Seq<char>>, session: SessionModel)
    requires
        !tls,
        !session.use_tls,
    ensures
        !session_after(tls, lines, session).use_tls,
        forall|i: int| 0 <= i < lines.len() ==> outcomes(tls, lines, session)[i]
            != Outcome::StartTls,
        outcomes(tls, lines, session).len() == lines.len(),
    decreases lines.len(),
{
    if lines.len() > 0 {
        law_tls_only_where_offered(tls, lines.drop_last(), session);
    }
}

/// An address in angle brackets.
pub open spec fn bracketed(inner: Seq<char>) -> Seq<char> {
    seq!['<'] + inner + seq!['>']
}

/// The address of a sender or of a receiver is read as it was written, with the key word in
/// upper case, in lower case, or left out.
pub proof fn law_address_is_read(inner: Seq<char>)
    requires
        inner.len() > 0,
        !CharClass::AddressMark.has(inner[0]),
        !CharClass::AddressMark.has(inner.last()),
    ensures
        address("FROM:"@ + bracketed(inner), "FROM:"@, "from:"@) == inner,
        address("from:"@ + bracketed(inner), "FROM:"@, "from:"@) == inner,
        address(bracketed(inner), "FROM:"@, "from:"@) == inner,
        address("TO:"@ + bracketed(inner), "TO:"@, "to:"@) == inner,
        address("to:"@ + bracketed(inner), "TO:"@, "to:"@) == inner,
        address(bracketed(inner), "TO:"@, "to:"@) == inner,
{
    reveal_strlit("FROM:");
    reveal_strlit("from:");
    reveal_strlit("TO:");
    reveal_strlit("to:");
    assert("FROM:"@[0] == 'F' && "from:"@[0] == 'f' && "TO:"@[0] == 'T' && "to:"@[0] == 't');
    lemma_address(inner, "FROM:"@, "from:"@);
    lemma_address(inner, "TO:"@, "to:"@);
}

proof fn lemma_address(inner: Seq<char>, upper_key: Seq<char>, lower_key: Seq<char>)
    requires
        inner.len() > 0,
        !CharClass::AddressMark.has(inner[0]),
        !CharClass::AddressMark.has(inner.last()),
        upper_key.len() > 0,
        lower_key.len() > 0,
        upper_key[0] != '<',
        lower_key[0] != '<',
        upper_key[0] != lower_key[0],
    ensures
        address(upper_key + bracketed(inner), upper_key, lower_key) == inner,
        address(lower_key + bracketed(inner), upper_key, lower_key) == inner,
        address(bracketed(inner), upper_key, lower_key) == inner,
{
    let whole = bracketed(inner);
    assert(whole[0] == '<');
    assert(!upper_key.is_prefix_of(whole));
    assert(!lower_key.is_prefix_of(whole));
    lemma_strip_one(upper_key, whole);
    lemma_strip_one(lower_key, whole);
    let lower_whole = lower_key + whole;
    assert(lower_whole[0] == lower_key[0]);
    assert(!upper_key.is_prefix_of(lower_whole));
    let opened = inner.push('>');
    assert(whole.drop_first() =~= opened);
    assert(opened[0] == inner[0]);
    assert(trim_start(opened, CharClass::AddressMark) == opened);
    assert(trim_start(whole, CharClass::AddressMark) == opened);
    assert(opened.drop_last() =~= inner);
    assert(trim_end(inner, CharClass::AddressMark) == inner);
    assert(trim_end(opened, CharClass::AddressMark) == inner);
}

/// A key word that stands once in front is stripped once.
proof fn lemma_strip_one(key: Seq<char>, rest: Seq<char>)
    requires
        key.len() > 0,
        !key.is_prefix_of(rest),
    ensures
        strip_all(key + rest, key) == rest,
{
    let whole = key + rest;
    assert(key.is_prefix_of(whole)) by {
        assert(whole.subrange(0, key.len() as int) =~= key);
    }
    assert(whole.skip(key.len() as int) =~= rest);
    assert(strip_all(rest, key) == rest);
}

/// The commands of the server that do not depend on TLS settings, in upper case.
pub open spec fn is_command(upper: Seq<char>) -> bool {
    upper == "EHLO"@ || upper == "HELO"@ || upper == "MAIL"@ || upper == "RCPT"@ || upper
        == "DATA"@ || upper == "QUIT"@
}

/// Commands count in any case of ASCII letters: lines that differ in the case of the first
/// word only do the same to the session and are taken in the same way. A line that names a
/// command is not taken as unknown, so that its reply does not repeat the word.
pub proof fn law_commands_count_in_any_case(
    tls: bool,
    lead: Seq<char>,
    first: Seq<char>,
    second: Seq<char>,
    rest: Seq<char>,
    session: SessionModel,
)
    requires
        !session.is_data,
        forall|i: int| 0 <= i < lead.len() ==> is_white(#[trigger] lead[i]),
        solid(first),
        solid(second),
        first.len() > 0,
        same_but_case(first, second),
        rest.len() > 0 ==> is_white(rest[0]),
    ensures
        line_step(tls, lead + first + rest, session) == line_step(
            tls,
            lead + second + rest,
            session,
        ),
        command_word(lead + first + rest) == first,
        command_word(lead + second + rest) == second,
        is_command(uppercase(first)) ==> line_step(tls, lead + first + rest, session).1
            != Outcome::Unknown,
{
    lemma_first_word(lead, first, rest);
    lemma_first_word(lead, second, rest);
    law_case_is_folded(first, second);
    let some = words(rest);
    assert((seq![first] + some)[0] == first);
    assert((seq![second] + some)[0] == second);
    if some.len() > 0 {
        assert((seq![first] + some)[1] == some[0]);
        assert((seq![second] + some)[1] == some[0]);
    }
    reveal_strlit("STARTTLS");
    reveal_strlit("EHLO");
    reveal_strlit("HELO");
    reveal_strlit("MAIL");
    reveal_strlit("RCPT");
    reveal_strlit("DATA");
    reveal_strlit("QUIT");
    assert("STARTTLS"@.len() == 8);
    assert("EHLO"@.len() == 4 && "HELO"@.len() == 4 && "MAIL"@.len() == 4 && "RCPT"@.len() == 4
        && "DATA"@.len() == 4 && "QUIT"@.len() == 4);
}

/// The words of the commands are different from one another.
proof fn lemma_commands_differ()
    ensures
        "MAIL"@ != "STARTTLS"@ && "MAIL"@ != "EHLO"@ && "MAIL"@ != "HELO"@,
        "RCPT"@ != "STARTTLS"@ && "RCPT"@ != "EHLO"@ && "RCPT"@ != "HELO"@ && "RCPT"@ != "MAIL"@,
        "DATA"@ != "STARTTLS"@ && "DATA"@ != "EHLO"@ && "DATA"@ != "HELO"@ && "DATA"@ != "MAIL"@
            && "DATA"@ != "RCPT"@,
        "QUIT"@ != "STARTTLS"@ && "QUIT"@ != "EHLO"@ && "QUIT"@ != "HELO"@ && "QUIT"@ != "MAIL"@
            && "QUIT"@ != "RCPT"@ && "QUIT"@ != "DATA"@,
        "EHLO"@ != "STARTTLS"@ && "HELO"@ != "STARTTLS"@,
{
    reveal_strlit("STARTTLS");
    reveal_strlit("EHLO");
    reveal_strlit("HELO");
    reveal_strlit("MAIL");
    reveal_strlit("RCPT");
    reveal_strlit("DATA");
    reveal_strlit("QUIT");
    assert("STARTTLS"@[0] == 'S' && "EHLO"@[0] == 'E' && "HELO"@[0] == 'H' && "MAIL"@[0] == 'M'
        && "RCPT"@[0] == 'R' && "DATA"@[0] == 'D' && "QUIT"@[0] == 'Q');
}

/// An address with any marks around it, behind its key word in either case or without it.
proof fn lemma_marked_address(
    key: Seq<char>,
    open: Seq<char>,
    inner: Seq<char>,
    close: Seq<char>,
    upper_key: Seq<char>,
    lower_key: Seq<char>,
)
    requires
        forall|i: int| 0 <= i < open.len() ==> #[trigger] open[i] == '<' || open[i] == '>',
        forall|i: int| 0 <= i < close.len() ==> #[trigger] close[i] == '<' || close[i] == '>',
        key == upper_key || key == lower_key || key == Seq::<char>::empty(),
        inner.len() > 0 ==> !CharClass::AddressMark.has(inner[0]) && !CharClass::AddressMark.has(
            inner.last(),
        ),
        open.len() == 0 ==> !upper_key.is_prefix_of(inner + close) && !lower_key.is_prefix_of(
            inner + close,
        ),
        upper_key.len() > 0,
        lower_key.len() > 0,
        upper_key[0] != '<' && upper_key[0] != '>',
        lower_key[0] != '<' && lower_key[0] != '>',
        upper_key[0] != lower_key[0],
    ensures
        address(key + open + inner + close, upper_key, lower_key) == inner,
{
    let marked = open + inner + close;
    if open.len() == 0 {
        assert(marked =~= inner + close);
    } else {
        assert(marked[0] == open[0]);
    }
    assert(!upper_key.is_prefix_of(marked));
    assert(!lower_key.is_prefix_of(marked));
    lemma_strip_one(upper_key, marked);
    lemma_strip_one(lower_key, marked);
    let whole = key + open + inner + close;
    if key == upper_key {
        assert(whole =~= upper_key + marked);
    } else if key == lower_key {
        assert(whole =~= lower_key + marked);
        assert(whole[0] == lower_key[0]);
        assert(!upper_key.is_prefix_of(whole));
    } else {
        assert(whole =~= marked);
    }
    law_trimming_bares_the_core(open, inner, close, CharClass::AddressMark);
}

/// A line that names the sender sets it: the address is the word after the command, whatever
/// stands behind that, without its key word and the angle brackets around it. Nothing else of the
/// session changes.
pub proof fn law_sender_is_taken(
    tls: bool,
    lead: Seq<char>,
    word: Seq<char>,
    gap: Seq<char>,
    key: Seq<char>,
    open: Seq<char>,
    inner: Seq<char>,
    close: Seq<char>,
    rest: Seq<char>,
    session: SessionModel,
)
    requires
        !session.is_data,
        forall|i: int| 0 <= i < lead.len() ==> is_white(#[trigger] lead[i]),
        forall|i: int| 0 <= i < word.len() ==> !is_white(#[trigger] word[i]),
        forall|i: int| 0 <= i < gap.len() ==> is_white(#[trigger] gap[i]),
        forall|i: int| 0 <= i < inner.len() ==> !is_white(#[trigger] inner[i]),
        forall|i: int| 0 <= i < open.len() ==> #[trigger] open[i] == '<' || open[i] == '>',
        forall|i: int| 0 <= i < close.len() ==> #[trigger] close[i] == '<' || close[i] == '>',
        uppercase(word) == "MAIL"@,
        word.len() > 0,
        gap.len() > 0,
        key == "FROM:"@ || key == "from:"@ || key == Seq::<char>::empty(),
        (key + open + inner + close).len() > 0,
        inner.len() > 0 ==> inner[0] != '<' && inner[0] != '>' && inner.last() != '<'
            && inner.last() != '>',
        open.len() == 0 ==> !"FROM:"@.is_prefix_of(inner + close) && !"from:"@.is_prefix_of(
            inner + close,
        ),
        rest.len() > 0 ==> is_white(rest[0]),
    ensures
        line_step(
            tls,
            lead + word + gap + key + open + inner + close + rest,
            session,
        ) == (SessionModel { from: inner, ..session }, Outcome::Accepted),
{
    reveal_strlit("FROM:");
    reveal_strlit("from:");
    let argument = key + open + inner + close;
    lemma_marked_address(key, open, inner, close, "FROM:"@, "from:"@);
    assert(solid(argument)) by {
        assert forall|i: int| 0 <= i < argument.len() implies !is_white(#[trigger] argument[i]) by {
            let past = key.len() + open.len();
            if i < key.len() {
                assert(argument[i] == key[i]);
            } else if i < past {
                assert(argument[i] == open[i - key.len()]);
            } else if i < past + inner.len() {
                assert(argument[i] == inner[i - past]);
            } else {
                assert(argument[i] == close[i - past - inner.len()]);
            }
        }
    }
    let behind = gap + argument + rest;
    assert(behind[0] == gap[0]);
    lemma_first_word(gap, argument, rest);
    lemma_first_word(lead, word, behind);
    let line = lead + word + gap + key + open + inner + close + rest;
    assert(line =~= lead + word + behind);
    assert(words(line) =~= seq![word] + (seq![argument] + words(rest)));
    assert(words(line)[0] == word);
    assert(words(line)[1] == argument);
    lemma_commands_differ();
}

/// A line that names a receiver adds it to those before: the address is the word after the
/// command, whatever stands behind that, without its key word and the angle brackets around it.
/// Nothing else of the session changes.
pub proof fn law_receiver_is_added(
    tls: bool,
    lead: Seq<char>,
    word: Seq<char>,
    gap: Seq<char>,
    key: Seq<char>,
    open: Seq<char>,
    inner: Seq<char>,
    close: Seq<char>,
    rest: Seq<char>,
    session: SessionModel,
)
    requires
        !session.is_data,
        forall|i: int| 0 <= i < lead.len() ==> is_white(#[trigger] lead[i]),
        forall|i: int| 0 <= i < word.len() ==> !is_white(#[trigger] word[i]),
        forall|i: int| 0 <= i < gap.len() ==> is_white(#[trigger] gap[i]),
        forall|i: int| 0 <= i < inner.len() ==> !is_white(#[trigger] inner[i]),
        forall|i: int| 0 <= i < open.len() ==> #[trigger] open[i] == '<' || open[i] == '>',
        forall|i: int| 0 <= i < close.len() ==> #[trigger] close[i] == '<' || close[i] == '>',
        uppercase(word) == "RCPT"@,
        word.len() > 0,
        gap.len() > 0,
        key == "TO:"@ || key == "to:"@ || key == Seq::<char>::empty(),
        (key + open + inner + close).len() > 0,
        inner.len() > 0 ==> inner[0] != '<' && inner[0] != '>' && inner.last() != '<'
            && inner.last() != '>',
        open.len() == 0 ==> !"TO:"@.is_prefix_of(inner + close) && !"to:"@.is_prefix_of(
            inner + close,
        ),
        rest.len() > 0 ==> is_white(rest[0]),
    ensures
        line_step(
            tls,
            lead + word + gap + key + open + inner + close + rest,
            session,
        ) == (SessionModel { to: session.to.push(inner), ..session }, Outcome::Accepted),
{
    reveal_strlit("TO:");
    reveal_strlit("to:");
    let argument = key + open + inner + close;
    lemma_marked_address(key, open, inner, close, "TO:"@, "to:"@);
    assert(solid(argument)) by {
        assert forall|i: int| 0 <= i < argument.len() implies !is_white(#[trigger] argument[i]) by {
            let past = key.len() + open.len();
            if i < key.len() {
                assert(argument[i] == key[i]);
            } else if i < past {
                assert(argument[i] == open[i - key.len()]);
            } else if i < past + inner.len() {
                assert(argument[i] == inner[i - past]);
            } else {
                assert(argument[i] == close[i - past - inner.len()]);
            }
        }
    }
    let behind = gap + argument + rest;
    assert(behind[0] == gap[0]);
    lemma_first_word(gap, argument, rest);
    lemma_first_word(lead, word, behind);
    let line = lead + word + gap + key + open + inner + close + rest;
    assert(line =~= lead + word + behind);
    assert(words(line) =~= seq![word] + (seq![argument] + words(rest)));
    assert(words(line)[0] == word);
    assert(words(line)[1] == argument);
    lemma_commands_differ();
}

/// What the other commands do, whatever stands behind them: a greeting and the farewell leave the
/// session as it is, the announcement of a message makes it read one, and TLS is wanted only where
/// it is offered. A command without the address that it needs, and any other word, changes nothing.
pub proof fn law_commands_do_as_told(
    tls: bool,
    lead: Seq<char>,
    word: Seq<char>,
    rest: Seq<char>,
    session: SessionModel,
)
    requires
        !session.is_data,
        forall|i: int| 0 <= i < lead.len() ==> is_white(#[trigger] lead[i]),
        forall|i: int| 0 <= i < word.len() ==> !is_white(#[trigger] word[i]),
        word.len() > 0,
        rest.len() > 0 ==> is_white(rest[0]),
    ensures
        ({
            let step = line_step(tls, lead + word + rest, session);
            let upper = uppercase(word);
            let blank = forall|i: int| 0 <= i < rest.len() ==> is_white(#[trigger] rest[i]);
            &&& upper == "HELO"@ || upper == "EHLO"@ ==> step == (session, Outcome::Hello)
            &&& upper == "DATA"@ ==> step == (
                SessionModel { is_data: true, ..session },
                Outcome::SendData,
            )
            &&& upper == "QUIT"@ ==> step == (session, Outcome::Bye)
            &&& upper == "STARTTLS"@ && tls ==> step == (
                SessionModel { use_tls: true, ..session },
                Outcome::StartTls,
            )
            &&& upper == "STARTTLS"@ && !tls ==> step == (session, Outcome::Unknown)
            &&& (upper == "MAIL"@ || upper == "RCPT"@) && blank ==> step == (
                session,
                Outcome::BadSyntax,
            )
            &&& !seq![
                "HELO"@,
                "EHLO"@,
                "DATA"@,
                "QUIT"@,
                "STARTTLS"@,
                "MAIL"@,
                "RCPT"@,
            ].contains(upper) ==> step == (session, Outcome::Unknown)
            &&& command_word(lead + word + rest) == word
        }),
        line_step(tls, lead, session) == (session, Outcome::Unknown) && command_word(lead)
            == Seq::<char>::empty(),
{
    let line = lead + word + rest;
    lemma_first_word(lead, word, rest);
    law_words_are_parted_by_white_space(lead, word, rest);
    assert(words(line)[0] == word);
    lemma_commands_differ();
    let known = seq!["HELO"@, "EHLO"@, "DATA"@, "QUIT"@, "STARTTLS"@, "MAIL"@, "RCPT"@];
    assert(known[0] == "HELO"@ && known[1] == "EHLO"@ && known[2] == "DATA"@ && known[3] == "QUIT"@
        && known[4] == "STARTTLS"@ && known[5] == "MAIL"@ && known[6] == "RCPT"@);
    if forall|i: int| 0 <= i < rest.len() ==> is_white(#[trigger] rest[i]) {
        law_words_are_parted_by_white_space(rest, word, Seq::empty());
        assert(words(line) =~= seq![word]);
    }
    let none = Seq::<char>::empty();
    reveal_strlit("STARTTLS");
    reveal_strlit("EHLO");
    reveal_strlit("HELO");
    reveal_strlit("MAIL");
    reveal_strlit("RCPT");
    reveal_strlit("DATA");
    reveal_strlit("QUIT");
    assert(uppercase(none) =~= none);
    assert("STARTTLS"@.len() == 8 && "EHLO"@.len() == 4 && "HELO"@.len() == 4 && "MAIL"@.len() == 4
        && "RCPT"@.len() == 4 && "DATA"@.len() == 4 && "QUIT"@.len() == 4);
}

/// A line of a message, without the line breaks at its end: a single dot ends the message, a blank
/// line ends its header, and any other line is added to the content, once the header has ended.
pub proof fn law_message_lines_are_taken(
    tls: bool,
    text: Seq<char>,
    breaks: Seq<char>,
    session: SessionModel,
)
    requires
        session.is_data,
        forall|i: int| 0 <= i < breaks.len() ==> #[trigger] breaks[i] == '\r' || breaks[i] == '\n',
        text.len() > 0 ==> text.last() != '\r' && text.last() != '\n',
    ensures
        line_step(tls, text + breaks, session) == if text == seq!['.'] {
            (SessionModel { is_data: false, ..session }, Outcome::Accepted)
        } else if text.len() == 0 {
            (SessionModel { is_content: true, ..session }, Outcome::Absorbed)
        } else if session.is_content {
            (SessionModel { content: session.content + text, ..session }, Outcome::Absorbed)
        } else {
            (session, Outcome::Absorbed)
        },
{
    law_trimming_the_end(text, breaks, CharClass::LineBreak);
    reveal_strlit(".");
    reveal_strlit("");
    assert("."@ =~= seq!['.']);
    assert(text.len() == 0 ==> text =~= ""@);
    assert(""@.len() == 0);
}

/// Of the argument of a command every leading key word in upper case is dropped, then every leading
/// one in lower case, and then the marks around what is left.
pub proof fn law_leading_key_words_are_dropped(
    rest: Seq<char>,
    upper_key: Seq<char>,
    lower_key: Seq<char>,
    open: Seq<char>,
    inner: Seq<char>,
    close: Seq<char>,
)
    requires
        upper_key.len() > 0,
        lower_key.len() > 0,
        upper_key[0] != lower_key[0],
        forall|i: int|
            0 <= i < open.len() ==> seq!['<', '>', '\r', '\n'].contains(#[trigger] open[i]),
        forall|i: int|
            0 <= i < close.len() ==> seq!['<', '>', '\r', '\n'].contains(#[trigger] close[i]),
        inner.len() > 0 ==> !seq!['<', '>', '\r', '\n'].contains(inner[0]) && !seq![
            '<',
            '>',
            '\r',
            '\n',
        ].contains(inner.last()),
    ensures
        address(upper_key + rest, upper_key, lower_key) == address(rest, upper_key, lower_key),
        !upper_key.is_prefix_of(rest) ==> address(lower_key + rest, upper_key, lower_key)
            == address(rest, upper_key, lower_key),
        !upper_key.is_prefix_of(open + inner + close) && !lower_key.is_prefix_of(
            open + inner + close,
        ) ==> address(open + inner + close, upper_key, lower_key) == inner,
{
    law_prefixes_are_stripped(upper_key, rest);
    law_prefixes_are_stripped(lower_key, rest);
    assert((lower_key + rest)[0] == lower_key[0]);
    assert(!upper_key.is_prefix_of(lower_key + rest));
    assert forall|i: int| 0 <= i < open.len() implies CharClass::AddressMark.has(
        #[trigger] open[i],
    ) by {
        law_character_classes(open[i]);
    }
    assert forall|i: int| 0 <= i < close.len() implies CharClass::AddressMark.has(
        #[trigger] close[i],
    ) by {
        law_character_classes(close[i]);
    }
    if inner.len() > 0 {
        law_character_classes(inner[0]);
        law_character_classes(inner.last());
    }
    law_trimming_bares_the_core(open, inner, close, CharClass::AddressMark);
}

/// The address of a sender is cleaned of `FROM:` and that of a receiver of `TO:`, in upper or in
/// lower case; any argument counts as an address.
pub proof fn law_arguments_are_addresses(
    tls: bool,
    lead: Seq<char>,
    word: Seq<char>,
    gap: Seq<char>,
    argument: Seq<char>,
    rest: Seq<char>,
    session: SessionModel,
)
    requires
        !session.is_data,
        forall|i: int| 0 <= i < lead.len() ==> is_white(#[trigger] lead[i]),
        forall|i: int| 0 <= i < word.len() ==> !is_white(#[trigger] word[i]),
        forall|i: int| 0 <= i < gap.len() ==> is_white(#[trigger] gap[i]),
        forall|i: int| 0 <= i < argument.len() ==> !is_white(#[trigger] argument[i]),
        word.len() > 0,
        gap.len() > 0,
        argument.len() > 0,
        rest.len() > 0 ==> is_white(rest[0]),
    ensures
        ({
            let step = line_step(tls, lead + word + (gap + argument + rest), session);
            &&& uppercase(word) == "MAIL"@ ==> step == (
                SessionModel { from: address(argument, "FROM:"@, "from:"@), ..session },
                Outcome::Accepted,
            )
            &&& uppercase(word) == "RCPT"@ ==> step == (
                SessionModel {
                    to: session.to.push(address(argument, "TO:"@, "to:"@)),
                    ..session
                },
                Outcome::Accepted,
            )
        }),
{
    let behind = gap + argument + rest;
    assert(behind[0] == gap[0]);
    lemma_first_word(gap, argument, rest);
    lemma_first_word(lead, word, behind);
    let line = lead + word + behind;
    assert(words(line) =~= seq![word] + (seq![argument] + words(rest)));
    assert(words(line)[0] == word);
    assert(words(line)[1] == argument);
    lemma_commands_differ();
}

} // verus!
