//! The state of a mail session.
use vstd::prelude::*;
use crate::text::texts;

verus! {

/// What a mail session has gathered from its client.
#[derive(Debug)]
pub struct SmtpSession {
    pub client_domain: String,
    pub from: String,
    pub to: Vec<String>,
    pub cc: String,
    pub date: String,
    pub subject: String,
    pub content: String,
    /// The client is sending a message rather than commands.
    pub is_data: bool,
    /// A blank line has ended the header of the message.
    pub is_content: bool,
    /// The client has asked for TLS.
    pub use_tls: bool,
    /// The client has taken its leave.
    pub quit: bool,
}

/// The contents of a mail session.
pub struct SessionModel {
    pub client_domain: Seq<char>,
    pub from: Seq<char>,
    pub to: Seq<Seq<char>>,
    pub cc: Seq<char>,
    pub date: Seq<char>,
    pub subject: Seq<char>,
    pub content: Seq<char>,
    pub is_data: bool,
    pub is_content: bool,
    pub use_tls: bool,
    pub quit: bool,
}

impl View for SmtpSession {
    type V = SessionModel;

    open spec fn view(&self) -> SessionModel {
        SessionModel {
            client_domain: self.client_domain@,
            from: self.from@,
            to: texts(self.to@),
            cc: self.cc@,
            date: self.date@,
            subject: self.subject@,
            content: self.content@,
            is_data: self.is_data,
            is_content: self.is_content,
            use_tls: self.use_tls,
            quit: self.quit,
        }
    }
}

/// A session in which nothing has happened yet.
pub open spec fn fresh_session() -> SessionModel {
    SessionModel {
        client_domain: Seq::empty(),
        from: Seq::empty(),
        to: Seq::empty(),
        cc: Seq::empty(),
        date: Seq::empty(),
        subject: Seq::empty(),
        content: Seq::empty(),
        is_data: false,
        is_content: false,
        use_tls: false,
        quit: false,
    }
}

impl SmtpSession {
    /// Starts a session.
    pub fn new() -> (session: Self)
        ensures
            session@ == fresh_session(),
    {
        let session = Self {
            client_domain: String::new(),
            from: String::new(),
            to: Vec::new(),
            cc: String::new(),
            date: String::new(),
            subject: String::new(),
            content: String::new(),
            is_data: false,
            is_content: false,
            use_tls: false,
            quit: false,
        };
        assert(session@.to =~= Seq::<Seq<char>>::empty());
        session
    }
}

/// A session begins without a sender, receivers or content, outside a message, in the clear, and
/// with its client still there.
pub proof fn law_fresh_session_is_empty()
    ensures
        fresh_session().client_domain.len() == 0,
        fresh_session().from.len() == 0,
        fresh_session().to.len() == 0,
        fresh_session().cc.len() == 0,
        fresh_session().date.len() == 0,
        fresh_session().subject.len() == 0,
        fresh_session().content.len() == 0,
        !fresh_session().is_data,
        !fresh_session().is_content,
        !fresh_session().use_tls,
        !fresh_session().quit,
{
}

} // verus!
