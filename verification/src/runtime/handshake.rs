//! The handshake with which a connection goes over to TLS.
//!
//! The program does what a [`HandshakeAct`] says and hands back what came of it.
use rustls::ServerConnection;
use vstd::prelude::*;
use crate::runtime::net::{hearing_settled, AsyncTcpStream, HandshakeStep};
use crate::tls::{
    handshaking, input_given, input_taken, is_handshaking, next_output, output_drawn,
    packets_worked_up, wants_input, wants_output,
};

verus! {

/// Why a handshake ends before it is over.
pub enum HandshakeError {
    /// The peer has closed.
    PeerClosed,
    /// The bytes of the peer were not taken.
    Refused(std::io::Error),
    /// The peer does not keep to the protocol.
    Corrupt(rustls::Error),
}

/// How far a handshake is; the mark tells whether the peer has been heard.
pub enum Handshake {
    /// A turn begins.
    Speaking(ServerConnection, bool),
    /// Bytes are sent to the peer.
    Sending(ServerConnection, bool),
    /// Bytes of the peer are loaded into the buffer.
    Hearing(ServerConnection),
    /// The handshake is over, or has failed.
    Over,
}

/// What to do next in a handshake.
pub enum HandshakeAct {
    /// Send these bytes.
    Send(Vec<u8>),
    /// Load bytes into the buffer.
    Load,
    /// Take the next turn.
    Again,
    /// Go on over TLS.
    Finish,
    /// Report the fault.
    Fail(HandshakeError),
}

/// Whether a stream is the same but for its buffer, which holds these bytes.
pub open spec fn holds(stream: AsyncTcpStream, before: AsyncTcpStream, bytes: Seq<u8>) -> bool {
    stream.token == before.token && stream.tls == before.tls && stream.read_buf@ == bytes
}

/// What is done when a connection has nothing more to send: the peer is heard where that is
/// wanted, and else the next turn is taken.
pub open spec fn listened(
    tls: ServerConnection,
    heard: bool,
    before: AsyncTcpStream,
    shake: Handshake,
    stream: AsyncTcpStream,
    act: HandshakeAct,
) -> bool {
    &&& holds(stream, before, before.read_buf@)
    &&& if wants_input(tls) {
        act is Load && shake == Handshake::Hearing(tls)
    } else {
        act is Again && shake == Handshake::Speaking(tls, heard)
    }
}

/// What is done when a turn begins: a connection that has shaken hands becomes that of the
/// stream, any other sends what it has to send, or else listens.
pub open spec fn spoken(
    tls: ServerConnection,
    heard: bool,
    before: AsyncTcpStream,
    shake: Handshake,
    stream: AsyncTcpStream,
    act: HandshakeAct,
) -> bool {
    if !handshaking(tls) {
        &&& act is Finish
        &&& shake is Over
        &&& stream.token == before.token
        &&& stream.read_buf@ == before.read_buf@
        &&& stream.tls == Some(tls)
    } else if wants_output(tls) {
        &&& act matches HandshakeAct::Send(bytes)
        &&& bytes@ == next_output(tls)
        &&& shake matches Handshake::Sending(after, mark)
        &&& output_drawn(tls, after)
        &&& mark == heard
        &&& holds(stream, before, before.read_buf@)
    } else {
        listened(tls, heard, before, shake, stream, act)
    }
}

/// What is done once bytes of the peer have been loaded into the buffer: a peer that has
/// closed, bytes that are not taken and bytes that break the protocol end the handshake; else
/// the buffer is empty and the next turn is taken.
pub open spec fn heard_out(
    tls: ServerConnection,
    loaded: usize,
    before: AsyncTcpStream,
    shake: Handshake,
    stream: AsyncTcpStream,
    act: HandshakeAct,
) -> bool {
    if loaded == 0 {
        &&& act matches HandshakeAct::Fail(error)
        &&& error is PeerClosed
        &&& shake is Over
        &&& holds(stream, before, before.read_buf@)
    } else {
        match input_taken(tls, before.read_buf@) {
            None => {
                &&& act matches HandshakeAct::Fail(HandshakeError::Refused(error))
                &&& shake is Over
                &&& holds(stream, before, before.read_buf@)
                &&& exists|given: ServerConnection| #[trigger]
                    input_given(tls, given, before.read_buf@, Err(error))
            },
            Some(_) => exists|
                given: ServerConnection,
                taken: Result<usize, std::io::Error>,
                after: ServerConnection,
                worked_up: Result<(), rustls::Error>,
            |
                taken is Ok && #[trigger] input_given(tls, given, before.read_buf@, taken)
                    && #[trigger] packets_worked_up(given, after, worked_up) && match (
                hearing_settled(worked_up)) {
                    Ok(_) => exists|cleared: AsyncTcpStream| #[trigger]
                        holds(cleared, before, Seq::empty()) && spoken(
                            after,
                            true,
                            cleared,
                            shake,
                            stream,
                            act,
                        ),
                    Err(error) => {
                        &&& act == HandshakeAct::Fail(error)
                        &&& shake is Over
                        &&& holds(stream, before, Seq::empty())
                    },
                },
        }
    }
}

impl Handshake {
    /// A connection whose peer has not been heard still shakes hands, and after that the buffer
    /// is empty but for what is being loaded.
    pub open spec fn in_step(&self, stream: &AsyncTcpStream) -> bool {
        match *self {
            Handshake::Speaking(tls, heard) => if heard {
                stream.read_buf@.len() == 0
            } else {
                handshaking(tls)
            },
            Handshake::Sending(tls, heard) => if heard {
                stream.read_buf@.len() == 0
            } else {
                handshaking(tls)
            },
            _ => true,
        }
    }

    /// Tests whether the handshake and the buffer fit each other.
    pub fn is_in_step(&self, stream: &AsyncTcpStream) -> (answer: bool)
        ensures
            answer == self.in_step(stream),
    {
        match self {
            Handshake::Speaking(tls, heard) => {
                if *heard {
                    stream.read_buf.len() == 0
                } else {
                    is_handshaking(tls)
                }
            },
            Handshake::Sending(tls, heard) => {
                if *heard {
                    stream.read_buf.len() == 0
                } else {
                    is_handshaking(tls)
                }
            },
            _ => true,
        }
    }

    /// Takes the stage out to work on it.
    fn leave(&mut self) -> (stage: Self)
        ensures
            stage == *old(self),
            *final(self) is Over,
    {
        let mut stage = Handshake::Over;
        std::mem::swap(&mut stage, self);
        stage
    }

    /// Takes a turn.
    pub fn on_turn(&mut self, stream: &mut AsyncTcpStream) -> (act: HandshakeAct)
        requires
            *old(self) is Speaking,
            old(self).in_step(old(stream)),
        ensures
            spoken(
                old(self)->Speaking_0,
                old(self)->Speaking_1,
                *old(stream),
                *final(self),
                *final(stream),
                act,
            ),
            final(self).in_step(final(stream)),
    {
        match self.leave() {
            Handshake::Speaking(tls, heard) => self.speak(tls, heard, stream),
            _ => HandshakeAct::Again,
        }
    }

    /// Goes on after bytes have been sent.
    pub fn on_sent(&mut self, stream: &mut AsyncTcpStream) -> (act: HandshakeAct)
        requires
            *old(self) is Sending,
            old(self).in_step(old(stream)),
        ensures
            listened(
                old(self)->Sending_0,
                old(self)->Sending_1,
                *old(stream),
                *final(self),
                *final(stream),
                act,
            ),
            final(self).in_step(final(stream)),
    {
        match self.leave() {
            Handshake::Sending(tls, heard) => self.listen(tls, heard),
            _ => HandshakeAct::Again,
        }
    }

    /// Goes on after `loaded` bytes have been added to the buffer.
    pub fn on_loaded(&mut self, stream: &mut AsyncTcpStream, loaded: usize) -> (act: HandshakeAct)
        requires
            *old(self) is Hearing,
        ensures
            heard_out(
                old(self)->Hearing_0,
                loaded,
                *old(stream),
                *final(self),
                *final(stream),
                act,
            ),
            final(self).in_step(final(stream)),
    {
        match self.leave() {
            Handshake::Hearing(tls) => {
                let mut tls = tls;
                match stream.handshake_input(&mut tls, loaded) {
                    Ok(_) => {
                        let ghost cleared = *stream;
                        let act = self.speak(tls, true, stream);
                        assert(holds(cleared, *old(stream), Seq::empty()));
                        act
                    },
                    Err(error) => HandshakeAct::Fail(error),
                }
            },
            _ => HandshakeAct::Again,
        }
    }

    /// Begins a turn.
    fn speak(&mut self, tls: ServerConnection, heard: bool, stream: &mut AsyncTcpStream) -> (act:
        HandshakeAct)
        requires
            *old(self) is Over,
            heard ==> old(stream).read_buf@.len() == 0,
            !heard ==> handshaking(tls),
        ensures
            spoken(tls, heard, *old(stream), *final(self), *final(stream), act),
            final(self).in_step(final(stream)),
    {
        let mut tls = tls;
        match AsyncTcpStream::handshake_output(&mut tls) {
            HandshakeStep::Done => {
                let _left = stream.finish_tls(tls);
                HandshakeAct::Finish
            },
            HandshakeStep::Send(bytes) => {
                *self = Handshake::Sending(tls, heard);
                HandshakeAct::Send(bytes)
            },
            HandshakeStep::Silent => self.listen(tls, heard),
            HandshakeStep::Failed(error) => HandshakeAct::Fail(HandshakeError::Refused(error)),
        }
    }

    /// Hears the peer where that is wanted.
    fn listen(&mut self, tls: ServerConnection, heard: bool) -> (act: HandshakeAct)
        requires
            *old(self) is Over,
        ensures
            if wants_input(tls) {
                act is Load && *final(self) == Handshake::Hearing(tls)
            } else {
                act is Again && *final(self) == Handshake::Speaking(tls, heard)
            },
    {
        if AsyncTcpStream::handshake_wants_input(&tls) {
            *self = Handshake::Hearing(tls);
            HandshakeAct::Load
        } else {
            *self = Handshake::Speaking(tls, heard);
            HandshakeAct::Again
        }
    }
}

/// What a turn of a handshake leaves: when it ends well, the stream goes on over a connection
/// that has shaken hands, and no byte from before is in its buffer; as long as it has not ended
/// well, the stream is as it was.
pub proof fn law_turn_secures_the_stream(
    tls: ServerConnection,
    heard: bool,
    before: AsyncTcpStream,
    shake: Handshake,
    stream: AsyncTcpStream,
    act: HandshakeAct,
)
    requires
        spoken(tls, heard, before, shake, stream, act),
        Handshake::Speaking(tls, heard).in_step(&before),
    ensures
        act is Finish ==> {
            &&& stream.tls matches Some(secured)
            &&& !handshaking(secured)
            &&& stream.read_buf@.len() == 0
        },
        act !is Finish ==> stream.tls == before.tls && stream.read_buf@ == before.read_buf@,
        act !is Fail,
        act is Finish <==> shake is Over,
{
}

/// What hearing the peer leaves: when the handshake ends well, the stream goes on over a
/// connection that has shaken hands, and no byte from before is in its buffer; when it fails or
/// goes on, the stream uses TLS just as before. A peer that has closed always ends it.
pub proof fn law_hearing_secures_the_stream(
    tls: ServerConnection,
    loaded: usize,
    before: AsyncTcpStream,
    shake: Handshake,
    stream: AsyncTcpStream,
    act: HandshakeAct,
)
    requires
        heard_out(tls, loaded, before, shake, stream, act),
    ensures
        act is Finish ==> {
            &&& stream.tls matches Some(secured)
            &&& !handshaking(secured)
            &&& stream.read_buf@.len() == 0
        },
        act !is Finish ==> stream.tls == before.tls,
        loaded == 0 <==> (act matches HandshakeAct::Fail(error) && error is PeerClosed),
        act is Finish || act is Fail <==> shake is Over,
{
}

/// A turn does the one thing that is due: a connection that has shaken hands goes on over TLS, one
/// that has something to send sends all that it gives, one that waits for the peer has bytes loaded,
/// and any other takes its next turn. What is not due stays as it is.
pub proof fn law_turn_does_what_is_due(
    tls: ServerConnection,
    heard: bool,
    before: AsyncTcpStream,
    shake: Handshake,
    stream: AsyncTcpStream,
    act: HandshakeAct,
)
    requires
        spoken(tls, heard, before, shake, stream, act),
    ensures
        act is Finish <==> !handshaking(tls),
        act is Finish ==> stream.tls == Some(tls),
        act is Send <==> handshaking(tls) && wants_output(tls),
        act matches HandshakeAct::Send(bytes) ==> bytes@ == next_output(tls) && shake is Sending,
        act is Load <==> handshaking(tls) && !wants_output(tls) && wants_input(tls),
        act is Load ==> shake == Handshake::Hearing(tls),
        act is Again <==> handshaking(tls) && !wants_output(tls) && !wants_input(tls),
        act is Again ==> shake == Handshake::Speaking(tls, heard),
        stream.token == before.token,
        stream.read_buf@ == before.read_buf@,
{
}

/// Once bytes have been sent the peer is heard, where the connection waits for it, and else the next
/// turn is taken.
pub proof fn law_peer_is_heard_after_sending(
    tls: ServerConnection,
    heard: bool,
    before: AsyncTcpStream,
    shake: Handshake,
    stream: AsyncTcpStream,
    act: HandshakeAct,
)
    requires
        listened(tls, heard, before, shake, stream, act),
    ensures
        act is Load <==> wants_input(tls),
        act is Again <==> !wants_input(tls),
        act is Load ==> shake == Handshake::Hearing(tls),
        act is Again ==> shake == Handshake::Speaking(tls, heard),
        stream.token == before.token,
        stream.tls == before.tls,
        stream.read_buf@ == before.read_buf@,
{
}

/// What the peer has sent is given to the connection, all of it, or the handshake fails with the
/// fault that taking it or working it up met with; when it goes on nothing of it is left over.
pub proof fn law_heard_bytes_are_used_up(
    tls: ServerConnection,
    loaded: usize,
    before: AsyncTcpStream,
    shake: Handshake,
    stream: AsyncTcpStream,
    act: HandshakeAct,
)
    requires
        heard_out(tls, loaded, before, shake, stream, act),
        loaded > 0,
    ensures
        input_taken(tls, before.read_buf@) is None <==> (act matches HandshakeAct::Fail(error)
            && error is Refused),
        input_taken(tls, before.read_buf@) is None ==> stream.read_buf@ == before.read_buf@,
        input_taken(tls, before.read_buf@) is Some ==> stream.read_buf@.len() == 0,
        stream.token == before.token,
{
}

} // verus!
