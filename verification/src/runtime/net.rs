//! Connections that are read and written without blocking.
use std::sync::Arc;
use rustls::{ServerConfig, ServerConnection};
use vstd::prelude::*;
use crate::encoding::{lossy_text, utf8_lossy_text};
use crate::runtime::Reactor;
use crate::runtime::handshake::{Handshake, HandshakeError};
use crate::tls::{
    connects, give_input, handshaking, input_given, input_taken, is_handshaking, next_output,
    open_connection, opened_with, opening_refused, output_drawn, packets_worked_up, plain_drawn, plain_given,
    plain_kept, plain_read, plain_taken, process_packets, read_plain, take_output, wants_input,
    wants_output, wants_read, wants_write, write_plain,
};

verus! {

/// How many bytes are read from a connection at once, at most.
pub const CHUNK: usize = 4096;

/// What came of reading from the socket.
pub enum LoadOutcome {
    /// These bytes, no more than are read at once; none means that the peer has closed.
    Bytes(Vec<u8>),
    /// There is nothing to read yet.
    WouldBlock,
    /// A fault.
    Failed,
}

/// What to do after reading from the socket.
#[derive(Clone, Copy, PartialEq, Eq, Structural, Debug)]
pub enum LoadStep {
    /// So many bytes have been added to the buffer.
    Loaded(usize),
    /// Wait for an event.
    Pending,
    /// Report the fault.
    Failed,
}

/// What to do after more bytes have been loaded for a read.
pub enum ReadStep {
    /// These bytes have been read.
    Given(Vec<u8>),
    /// Load more bytes.
    Load,
    /// The peer has closed with so many bytes outstanding, and the read cannot be done.
    Outstanding(usize),
}

/// What came of writing to the socket.
#[derive(Clone, Copy, PartialEq, Eq, Structural, Debug)]
pub enum WriteOutcome {
    /// So many bytes have been written.
    Count(usize),
    /// The socket takes nothing yet.
    WouldBlock,
    /// A fault.
    Failed,
}

/// What to do after writing to the socket.
#[derive(Clone, Copy, PartialEq, Eq, Structural, Debug)]
pub enum WriteStep {
    /// So many bytes have been written.
    Written(usize),
    /// Hand more of what TLS has encrypted to the socket.
    Flush,
    /// Ask to be told when the socket takes bytes again, and wait for that.
    AwaitRoom,
    /// Report the fault.
    Failed,
}

/// What to do next to send all of a message.
pub enum WriteAct<'a> {
    /// Write these bytes, until that is done, and note how many count.
    Write(&'a [u8]),
    /// All of the message, so many bytes, has been sent.
    Finish(usize),
    /// Report the fault.
    Fail(std::io::Error),
}

/// What a connection reads next over TLS.
pub enum TlsChunk {
    /// What reading the decrypted bytes gave.
    Plain(Result<usize, std::io::Error>),
    /// More has to be read from the socket first.
    NeedInput,
    /// The peer does not keep to the protocol.
    Corrupt(rustls::Error),
}

/// What to do next while hands are shaken.
pub enum HandshakeStep {
    /// The handshake is over.
    Done,
    /// Send these bytes.
    Send(Vec<u8>),
    /// There is nothing to send.
    Silent,
    /// Report the fault.
    Failed(std::io::Error),
}

/// The position of the first line feed, or the length where there is none.
pub open spec fn line_feed(bytes: Seq<u8>) -> int
    decreases bytes.len(),
{
    if bytes.len() == 0 || bytes[0] == 10u8 {
        0
    } else {
        1 + line_feed(bytes.drop_first())
    }
}

/// A position before which there is no line feed, and at which there is one, is the first.
proof fn lemma_line_feed_is(bytes: Seq<u8>, at: int)
    requires
        0 <= at <= bytes.len(),
        forall|i: int| 0 <= i < at ==> bytes[i] != 10u8,
        at < bytes.len() ==> bytes[at] == 10u8,
    ensures
        line_feed(bytes) == at,
    decreases bytes.len(),
{
    if bytes.len() > 0 && bytes[0] != 10u8 {
        let rest = bytes.drop_first();
        assert forall|i: int| 0 <= i < at - 1 implies rest[i] != 10u8 by {
            assert(bytes[i + 1] != 10u8);
        }
        lemma_line_feed_is(rest, at - 1);
    }
}

proof fn lemma_line_feed(bytes: Seq<u8>)
    ensures
        0 <= line_feed(bytes) <= bytes.len(),
        forall|i: int| 0 <= i < line_feed(bytes) ==> bytes[i] != 10u8,
        line_feed(bytes) < bytes.len() ==> bytes[line_feed(bytes)] == 10u8,
    decreases bytes.len(),
{
    if bytes.len() > 0 && bytes[0] != 10u8 {
        let rest = bytes.drop_first();
        lemma_line_feed(rest);
        assert forall|i: int| 0 <= i < line_feed(bytes) implies bytes[i] != 10u8 by {
            if i > 0 {
                assert(rest[i - 1] != 10u8);
            }
        }
    }
}

/// How far a message has been sent.
pub struct WriteProgress {
    pub written: usize,
    pub total: usize,
}

impl WriteProgress {
    /// No more has been sent than there is.
    pub open spec fn well_formed(&self) -> bool {
        self.written <= self.total
    }

    /// A message of which nothing has been sent.
    pub fn new(total: usize) -> (progress: Self)
        ensures
            progress == (WriteProgress { written: 0, total }),
            progress.well_formed(),
    {
        Self { written: 0, total }
    }

    /// Whether there is more to send.
    pub fn unfinished(&self) -> (more: bool)
        ensures
            more == (self.written < self.total),
    {
        self.written < self.total
    }

    /// The part of the message that is still to be sent.
    pub fn rest<'a>(&self, data: &'a [u8]) -> (rest: &'a [u8])
        requires
            self.well_formed(),
            self.total == data@.len(),
        ensures
            rest@ == data@.skip(self.written as int),
    {
        let rest = vstd::slice::slice_subrange(data, self.written, self.total);
        assert(rest@ =~= data@.skip(self.written as int));
        rest
    }

    /// Notes that `count` more bytes have been sent.
    pub fn advance(&mut self, count: usize)
        requires
            old(self).well_formed(),
            old(self).written + count <= old(self).total,
        ensures
            final(self).well_formed(),
            final(self).written == old(self).written + count,
            final(self).total == old(self).total,
    {
        self.written = self.written + count;
    }
}

/// What a connection gives of its decrypted bytes, and what becomes of it and of the buffer,
/// after what it has received was worked up with this result: a fault is reported; a
/// connection that wants to be given bytes has none left and stays as it is; any other is
/// read into the front of the buffer.
pub open spec fn chunk_given(
    tls: ServerConnection,
    worked_up: Result<(), rustls::Error>,
    before: Seq<u8>,
    tls_after: ServerConnection,
    after: Seq<u8>,
    read: TlsChunk,
) -> bool {
    match worked_up {
        Err(error) => {
            &&& read == TlsChunk::Corrupt(error)
            &&& after == before
            &&& tls_after == tls
        },
        Ok(_) => if wants_input(tls) {
            &&& read == TlsChunk::NeedInput
            &&& forall|room: nat| room > 0 ==> plain_read(tls, room) is None
            &&& after == before
            &&& tls_after == tls
        } else {
            match plain_read(tls, before.len()) {
                Some(bytes) => {
                    &&& read matches TlsChunk::Plain(result)
                    &&& result matches Ok(count)
                    &&& count == bytes.len()
                    &&& bytes.len() <= before.len()
                    &&& after == bytes + before.skip(bytes.len() as int)
                    &&& plain_drawn(tls, tls_after, before.len(), result)
                },
                None => {
                    &&& read matches TlsChunk::Plain(result)
                    &&& result is Err
                    &&& after == before
                    &&& plain_drawn(tls, tls_after, before.len(), result)
                },
            }
        },
    }
}

/// How much of a message has been handed over once its rest, from `written` on, has been given
/// to TLS, where that is used; nothing where TLS fails.
pub open spec fn handed_over(
    tls: Option<ServerConnection>,
    data: Seq<u8>,
    written: nat,
) -> Option<nat> {
    match tls {
        Some(tls) => match plain_taken(tls, data.skip(written as int)) {
            Some(count) => Some(written + count),
            None => None,
        },
        None => Some(written),
    }
}

/// Whether TLS, where it is used, has been given the rest of a message, once, with this result;
/// in the clear nothing is done.
pub open spec fn tls_given(
    before: Option<ServerConnection>,
    after: Option<ServerConnection>,
    rest: Seq<u8>,
    result: Result<(), std::io::Error>,
) -> bool {
    match before {
        Some(tls) => {
            &&& after matches Some(next)
            &&& exists|taken: Result<usize, std::io::Error>| #[trigger]
                plain_given(tls, next, rest, taken) && match taken {
                    Ok(_) => result is Ok,
                    Err(error) => result == Err::<(), std::io::Error>(error),
                }
        },
        None => after is None && result is Ok,
    }
}

/// What to do after writing to the socket. In the clear the bytes that it took count. Over TLS
/// they have been counted when TLS took them, so that none count any more, and the write is not
/// done before all that is encrypted has been sent.
pub open spec fn write_step(tls: Option<ServerConnection>, outcome: WriteOutcome) -> WriteStep {
    match outcome {
        WriteOutcome::Count(count) => match tls {
            Some(tls) => if wants_output(tls) {
                WriteStep::Flush
            } else {
                WriteStep::Written(0)
            },
            None => WriteStep::Written(count),
        },
        WriteOutcome::WouldBlock => WriteStep::AwaitRoom,
        WriteOutcome::Failed => WriteStep::Failed,
    }
}

/// What the bytes of a peer come to in a handshake, once they have been worked up with this
/// result.
pub open spec fn hearing_settled(worked_up: Result<(), rustls::Error>) -> Result<
    (),
    HandshakeError,
> {
    match worked_up {
        Ok(_) => Ok(()),
        Err(error) => Err(HandshakeError::Corrupt(error)),
    }
}

/// A connection: its token, the bytes that have been read but not consumed, and TLS where
/// it is used.
pub struct AsyncTcpStream {
    pub token: usize,
    pub read_buf: Vec<u8>,
    pub tls: Option<ServerConnection>,
}

impl AsyncTcpStream {
    /// A connection in the clear.
    pub fn new(token: usize) -> (stream: Self)
        ensures
            stream.token == token,
            stream.read_buf@ == Seq::<u8>::empty(),
            stream.tls is None,
    {
        Self { token, read_buf: Vec::new(), tls: None }
    }

    /// Consumes `want` bytes; `None` where fewer have been read, and more have to be loaded
    /// first.
    pub fn read(&mut self, want: usize) -> (bytes: Option<Vec<u8>>)
        ensures
            final(self).token == old(self).token,
            final(self).tls == old(self).tls,
            old(self).read_buf@.len() >= want ==> {
                &&& bytes matches Some(taken)
                &&& taken@ == old(self).read_buf@.take(want as int)
                &&& final(self).read_buf@ == old(self).read_buf@.skip(want as int)
            },
            old(self).read_buf@.len() < want ==> bytes is None && *final(self) == *old(self),
    {
        if self.read_buf.len() >= want {
            Some(self.consume(want))
        } else {
            None
        }
    }

    /// Takes the first `count` bytes out of the buffer.
    fn consume(&mut self, count: usize) -> (taken: Vec<u8>)
        requires
            count <= old(self).read_buf@.len(),
        ensures
            taken@ == old(self).read_buf@.take(count as int),
            final(self).read_buf@ == old(self).read_buf@.skip(count as int),
            final(self).token == old(self).token,
            final(self).tls == old(self).tls,
    {
        let mut rest = self.read_buf.split_off(count);
        std::mem::swap(&mut rest, &mut self.read_buf);
        assert(rest@ =~= old(self).read_buf@.take(count as int));
        assert(self.read_buf@ =~= old(self).read_buf@.skip(count as int));
        rest
    }

    /// Consumes a line with its line feed, and gives its text and its length in bytes;
    /// `None` where no whole line has been read, and more has to be loaded first.
    pub fn read_line(&mut self) -> (line: Option<(String, usize)>)
        ensures
            final(self).token == old(self).token,
            final(self).tls == old(self).tls,
            ({
                let bytes = old(self).read_buf@;
                let end = line_feed(bytes);
                if end < bytes.len() {
                    &&& line matches Some((text, count))
                    &&& text@ == lossy_text(bytes.take(end + 1))
                    &&& count == end + 1
                    &&& final(self).read_buf@ == bytes.skip(end + 1)
                } else {
                    line is None && *final(self) == *old(self)
                }
            }),
    {
        let mut i: usize = 0;
        while i < self.read_buf.len() && self.read_buf[i] != 10u8
            invariant
                *self == *old(self),
                i <= self.read_buf@.len(),
                forall|j: int| 0 <= j < i ==> self.read_buf@[j] != 10u8,
            decreases self.read_buf@.len() - i,
        {
            i += 1;
        }
        proof {
            lemma_line_feed_is(self.read_buf@, i as int);
        }
        if i < self.read_buf.len() {
            let bytes = self.consume(i + 1);
            let text = utf8_lossy_text(&bytes);
            Some((text, i + 1))
        } else {
            None
        }
    }

    /// Goes on with reading `want` bytes after `loaded` bytes have been added to the buffer, none
    /// where the peer has closed. Fewer bytes than are wanted are never given.
    pub fn read_loaded(&mut self, want: usize, loaded: usize) -> (step: ReadStep)
        ensures
            final(self).token == old(self).token,
            final(self).tls == old(self).tls,
            ({
                let bytes = old(self).read_buf@;
                if want <= bytes.len() {
                    &&& step matches ReadStep::Given(taken)
                    &&& taken@ == bytes.take(want as int)
                    &&& final(self).read_buf@ == bytes.skip(want as int)
                } else if loaded > 0 {
                    step is Load && *final(self) == *old(self)
                } else {
                    &&& step == ReadStep::Outstanding((want - bytes.len()) as usize)
                    &&& *final(self) == *old(self)
                }
            }),
    {
        match self.read(want) {
            Some(bytes) => ReadStep::Given(bytes),
            None => {
                if loaded > 0 {
                    ReadStep::Load
                } else {
                    ReadStep::Outstanding(want - self.read_buf.len())
                }
            },
        }
    }

    /// Goes on with reading a line after `loaded` bytes have been added to the buffer. Where the
    /// peer has closed there is no line: no text and no bytes are given, and what there is of a
    /// line stays in the buffer.
    pub fn line_loaded(&mut self, loaded: usize) -> (line: Option<(String, usize)>)
        ensures
            final(self).token == old(self).token,
            final(self).tls == old(self).tls,
            ({
                let bytes = old(self).read_buf@;
                let end = line_feed(bytes);
                if loaded == 0 {
                    &&& line matches Some((text, count))
                    &&& text@ == Seq::<char>::empty()
                    &&& count == 0
                    &&& *final(self) == *old(self)
                } else if end < bytes.len() {
                    &&& line matches Some((text, count))
                    &&& text@ == lossy_text(bytes.take(end + 1))
                    &&& count == end + 1
                    &&& final(self).read_buf@ == bytes.skip(end + 1)
                } else {
                    line is None && *final(self) == *old(self)
                }
            }),
    {
        if loaded == 0 {
            Some((String::new(), 0))
        } else {
            self.read_line()
        }
    }

    /// Leaves a waker for the connection before it is read.
    pub fn begin_load<W>(&self, reactor: &mut Reactor<W>, waker: W)
        ensures
            final(reactor).waiting() == old(reactor).waiting().insert(self.token, waker),
    {
        reactor.delegate(self.token, waker);
    }

    /// Takes what came of reading from the socket: bytes are added to the buffer, and unless
    /// there is something to wait for, the waker that was left for it is taken back.
    pub fn poll_load_buf<W>(&mut self, reactor: &mut Reactor<W>, outcome: LoadOutcome) -> (step:
        LoadStep)
        requires
            outcome matches LoadOutcome::Bytes(bytes) ==> bytes@.len() <= CHUNK,
        ensures
            step matches LoadStep::Loaded(count) ==> count <= CHUNK,
            final(self).token == old(self).token,
            final(self).tls == old(self).tls,
            match outcome {
                LoadOutcome::Bytes(bytes) => {
                    &&& step == LoadStep::Loaded(bytes@.len() as usize)
                    &&& final(self).read_buf@ == old(self).read_buf@ + bytes@
                    &&& final(reactor).waiting() == old(reactor).waiting().remove(old(self).token)
                },
                LoadOutcome::WouldBlock => {
                    &&& step == LoadStep::Pending
                    &&& final(self).read_buf@ == old(self).read_buf@
                    &&& final(reactor).waiting() == old(reactor).waiting()
                },
                LoadOutcome::Failed => {
                    &&& step == LoadStep::Failed
                    &&& final(self).read_buf@ == old(self).read_buf@
                    &&& final(reactor).waiting() == old(reactor).waiting().remove(old(self).token)
                },
            },
    {
        match outcome {
            LoadOutcome::Bytes(bytes) => {
                let mut bytes = bytes;
                let count: usize = bytes.len();
                self.read_buf.append(&mut bytes);
                reactor.undelegate(self.token);
                LoadStep::Loaded(count)
            },
            LoadOutcome::WouldBlock => LoadStep::Pending,
            LoadOutcome::Failed => {
                reactor.undelegate(self.token);
                LoadStep::Failed
            },
        }
    }

    /// Decides what to do after writing to the socket; over TLS, which is written to the socket
    /// piece by piece, at first after writing nothing.
    pub fn poll_write(&self, outcome: WriteOutcome) -> (step: WriteStep)
        ensures
            step == write_step(self.tls, outcome),
    {
        match outcome {
            WriteOutcome::Count(count) => {
                if self.tls.is_none() {
                    WriteStep::Written(count)
                } else if self.needs_flush() {
                    WriteStep::Flush
                } else {
                    WriteStep::Written(0)
                }
            },
            WriteOutcome::WouldBlock => WriteStep::AwaitRoom,
            WriteOutcome::Failed => WriteStep::Failed,
        }
    }

    /// Leaves a waker for the connection, which is to be written when the socket takes bytes
    /// again.
    pub fn await_room<W>(&self, reactor: &mut Reactor<W>, waker: W)
        ensures
            final(reactor).waiting() == old(reactor).waiting().insert(self.token, waker),
    {
        reactor.delegate(self.token, waker);
    }

    /// Takes back the waker of a connection that ends.
    pub fn close<W>(&self, reactor: &mut Reactor<W>)
        ensures
            final(reactor).waiting() == old(reactor).waiting().remove(self.token),
    {
        reactor.undelegate(self.token);
    }

    /// Whether TLS has encrypted bytes that the socket has to take.
    pub fn needs_flush(&self) -> (answer: bool)
        ensures
            answer == (self.tls matches Some(tls) && wants_output(tls)),
    {
        match &self.tls {
            Some(tls) => wants_write(tls),
            None => false,
        }
    }

    /// Hands the rest of a message to TLS, where it is used, and notes how much of it was
    /// taken; in the clear the rest goes to the socket as it is.
    pub fn encrypt(&mut self, data: &[u8], progress: &mut WriteProgress) -> (result: Result<
        (),
        std::io::Error,
    >)
        requires
            old(progress).well_formed(),
            old(progress).total == data@.len(),
        ensures
            final(self).token == old(self).token,
            final(self).read_buf == old(self).read_buf,
            final(progress).well_formed(),
            final(progress).total == old(progress).total,
            match handed_over(old(self).tls, data@, old(progress).written as nat) {
                Some(handed) => result is Ok && final(progress).written == handed,
                None => result is Err && final(progress).written == old(progress).written,
            },
            tls_given(
                old(self).tls,
                final(self).tls,
                data@.skip(old(progress).written as int),
                result,
            ),
    {
        match self.tls.take() {
            Some(tls) => {
                let mut tls = tls;
                let ghost before = tls;
                let ghost rest = data@.skip(progress.written as int);
                let taken = write_plain(&mut tls, data, progress.written);
                self.tls = Some(tls);
                let result = match taken {
                    Ok(count) => {
                        progress.advance(count);
                        Ok(())
                    },
                    Err(error) => Err(error),
                };
                assert(plain_given(before, self.tls->Some_0, rest, taken));
                assert(tls_given(old(self).tls, self.tls, rest, result));
                result
            },
            None => Ok(()),
        }
    }

    /// Decides what to do next to send all of a message, of which so much has been sent: the
    /// rest goes to TLS, where it is used, and then to the socket, until nothing is left.
    pub fn write_all<'a>(&mut self, data: &'a [u8], progress: &mut WriteProgress) -> (act: WriteAct<
        'a,
    >)
        requires
            old(progress).well_formed(),
            old(progress).total == data@.len(),
        ensures
            final(self).token == old(self).token,
            final(self).read_buf == old(self).read_buf,
            final(progress).well_formed(),
            final(progress).total == old(progress).total,
            if old(progress).written == data@.len() {
                &&& act == WriteAct::Finish(data@.len() as usize)
                &&& *final(progress) == *old(progress)
                &&& *final(self) == *old(self)
            } else {
                let rest = data@.skip(old(progress).written as int);
                match handed_over(old(self).tls, data@, old(progress).written as nat) {
                    Some(handed) => {
                        &&& act matches WriteAct::Write(left)
                        &&& left@ == data@.skip(handed as int)
                        &&& final(progress).written == handed
                        &&& tls_given(old(self).tls, final(self).tls, rest, Ok(()))
                    },
                    None => {
                        &&& act matches WriteAct::Fail(error)
                        &&& final(progress).written == old(progress).written
                        &&& tls_given(old(self).tls, final(self).tls, rest, Err(error))
                    },
                }
            },
    {
        if !progress.unfinished() {
            WriteAct::Finish(progress.written)
        } else {
            match self.encrypt(data, progress) {
                Ok(_) => WriteAct::Write(progress.rest(data)),
                Err(error) => WriteAct::Fail(error),
            }
        }
    }

    /// Reads decrypted bytes into `chunk`, or tells that more has to be read from the
    /// socket first. What the connection has received is worked up before that, and more is
    /// asked for only when no decrypted byte is left, so that none is lost when the peer
    /// closes.
    pub fn read_tls_chunk(tls: &mut ServerConnection, chunk: &mut Vec<u8>) -> (read: TlsChunk)
        ensures
            final(chunk)@.len() == old(chunk)@.len(),
            exists|worked: ServerConnection, worked_up: Result<(), rustls::Error>|
                plain_kept(*old(tls), worked) && packets_worked_up(
                    *old(tls),
                    worked,
                    worked_up,
                ) && #[trigger] chunk_given(
                    worked,
                    worked_up,
                    old(chunk)@,
                    *final(tls),
                    final(chunk)@,
                    read,
                ),
            old(chunk)@.len() > 0 && plain_read(*old(tls), old(chunk)@.len()) is Some
                && read !is Corrupt ==> {
                &&& read matches TlsChunk::Plain(Ok(_))
                &&& plain_read(*old(tls), old(chunk)@.len())->Some_0.is_prefix_of(final(chunk)@)
            },
    {
        let ghost before = *tls;
        let worked_up = process_packets(tls);
        let ghost worked = *tls;
        let read = Self::chunk_after(tls, worked_up, chunk);
        proof {
            assert(chunk_given(worked, worked_up, old(chunk)@, *tls, chunk@, read));
            let room = old(chunk)@.len();
            if room > 0 && plain_read(before, room) is Some && read !is Corrupt {
                let waiting = plain_read(before, room)->Some_0;
                let bytes = plain_read(worked, room)->Some_0;
                assert(waiting.is_prefix_of(bytes));
                assert(bytes.is_prefix_of(chunk@));
            }
        }
        read
    }

    /// Reads decrypted bytes into `chunk` after what the connection has received was worked
    /// up with this result.
    pub fn chunk_after(
        tls: &mut ServerConnection,
        worked_up: Result<(), rustls::Error>,
        chunk: &mut Vec<u8>,
    ) -> (read: TlsChunk)
        ensures
            final(chunk)@.len() == old(chunk)@.len(),
            chunk_given(*old(tls), worked_up, old(chunk)@, *final(tls), final(chunk)@, read),
    {
        match worked_up {
            Err(error) => TlsChunk::Corrupt(error),
            Ok(_) => {
                if wants_read(tls) {
                    TlsChunk::NeedInput
                } else {
                    let result = read_plain(tls, chunk);
                    proof {
                        if let Ok(count) = result {
                            let bytes = chunk@.take(count as int);
                            assert(chunk@ =~= bytes + chunk@.skip(count as int));
                        }
                    }
                    TlsChunk::Plain(result)
                }
            },
        }
    }

    /// Goes on with reading over TLS after the connection was given bytes from the socket: how
    /// many, none where the peer has closed, or a fault. Where the peer has closed nothing is
    /// read, a fault is reported, and else the connection is read again.
    pub fn tls_fed<E>(fed: Result<usize, E>) -> (read: Option<Result<usize, E>>)
        ensures
            read == match fed {
                Ok(count) => if count == 0 {
                    Some(Ok::<usize, E>(0))
                } else {
                    None
                },
                Err(error) => Some(Err(error)),
            },
    {
        match fed {
            Ok(count) => {
                if count == 0 {
                    Some(Ok(0))
                } else {
                    None
                }
            },
            Err(error) => Some(Err(error)),
        }
    }

    /// Begins a handshake, which goes on with its first turn.
    pub fn start_tls(config: Arc<ServerConfig>) -> (result: Result<Handshake, rustls::Error>)
        ensures
            result is Ok <==> connects(*config),
            result matches Ok(shake) ==> {
                &&& shake matches Handshake::Speaking(tls, heard)
                &&& !heard
                &&& opened_with(*config, tls)
                &&& handshaking(tls)
                &&& !wants_output(tls)
            },
            result matches Err(error) ==> opening_refused(*config, error),
    {
        match open_connection(config) {
            Ok(tls) => Ok(Handshake::Speaking(tls, false)),
            Err(error) => Err(error),
        }
    }

    /// Gives what is to be sent before the peer is heard again.
    pub fn handshake_output(tls: &mut ServerConnection) -> (step: HandshakeStep)
        ensures
            if !handshaking(*old(tls)) {
                step is Done && *final(tls) == *old(tls)
            } else if wants_output(*old(tls)) {
                &&& step matches HandshakeStep::Send(bytes)
                &&& bytes@ == next_output(*old(tls))
                &&& output_drawn(*old(tls), *final(tls))
                &&& handshaking(*final(tls))
            } else {
                step is Silent && *final(tls) == *old(tls)
            },
    {
        if !is_handshaking(tls) {
            HandshakeStep::Done
        } else if !wants_write(tls) {
            HandshakeStep::Silent
        } else {
            match take_output(tls) {
                Ok(bytes) => HandshakeStep::Send(bytes),
                Err(error) => HandshakeStep::Failed(error),
            }
        }
    }

    /// Whether the peer is to be heard before anything else is sent.
    pub fn handshake_wants_input(tls: &ServerConnection) -> (answer: bool)
        ensures
            answer == wants_input(*tls),
    {
        wants_read(tls)
    }

    /// Takes what the peer has sent, `loaded` bytes having just been added to the buffer: all
    /// that the buffer holds is given to TLS and worked up.
    pub fn handshake_input(&mut self, tls: &mut ServerConnection, loaded: usize) -> (result: Result<
        (),
        HandshakeError,
    >)
        ensures
            final(self).token == old(self).token,
            final(self).tls == old(self).tls,
            loaded == 0 ==> {
                &&& result is Err && result->Err_0 is PeerClosed
                &&& *final(self) == *old(self)
                &&& *final(tls) == *old(tls)
            },
            loaded > 0 ==> match input_taken(*old(tls), old(self).read_buf@) {
                Some(_) => {
                    &&& final(self).read_buf@ == Seq::<u8>::empty()
                    &&& exists|
                        given: ServerConnection,
                        taken: Result<usize, std::io::Error>,
                        worked_up: Result<(), rustls::Error>,
                    |
                        taken is Ok && #[trigger] input_given(
                            *old(tls),
                            given,
                            old(self).read_buf@,
                            taken,
                        ) && #[trigger] packets_worked_up(given, *final(tls), worked_up) && result
                            == hearing_settled(worked_up)
                },
                None => {
                    &&& result matches Err(HandshakeError::Refused(error))
                    &&& *final(self) == *old(self)
                    &&& input_given(*old(tls), *final(tls), old(self).read_buf@, Err(error))
                },
            },
    {
        if loaded == 0 {
            return Err(HandshakeError::PeerClosed);
        }
        match give_input(tls, &self.read_buf) {
            Err(error) => Err(HandshakeError::Refused(error)),
            Ok(_) => {
                self.read_buf.clear();
                let worked_up = process_packets(tls);
                Self::settle_hearing(worked_up)
            },
        }
    }

    /// Takes what working up the bytes of a peer came to in a handshake.
    pub fn settle_hearing(worked_up: Result<(), rustls::Error>) -> (result: Result<
        (),
        HandshakeError,
    >)
        ensures
            result == hearing_settled(worked_up),
    {
        match worked_up {
            Ok(_) => Ok(()),
            Err(error) => Err(HandshakeError::Corrupt(error)),
        }
    }

    /// Goes on over TLS after the handshake. A connection that still shakes hands is given
    /// back, as is any while there are bytes in the buffer, which came before TLS.
    pub fn finish_tls(&mut self, tls: ServerConnection) -> (left: Option<ServerConnection>)
        ensures
            left is None <==> !handshaking(tls) && old(self).read_buf@.len() == 0,
            left is None ==> *final(self) == (AsyncTcpStream { tls: Some(tls), ..*old(self) }),
            left matches Some(same) ==> same == tls && *final(self) == *old(self),
    {
        if is_handshaking(&tls) || self.read_buf.len() > 0 {
            Some(tls)
        } else {
            self.tls = Some(tls);
            None
        }
    }
}

/// Each byte of a message counts once in a round, which hands the rest of the message to TLS
/// and then writes to the socket until that is done. In the clear the bytes that the socket
/// took count, over TLS those that TLS took, and then all that is encrypted has been sent.
pub proof fn law_bytes_count_once(
    tls: Option<ServerConnection>,
    after: Option<ServerConnection>,
    data: Seq<u8>,
    written: nat,
    outcome: WriteOutcome,
    count: usize,
)
    requires
        tls is Some <==> after is Some,
        handed_over(tls, data, written) is Some,
        write_step(after, outcome) == WriteStep::Written(count),
    ensures
        match tls {
            Some(tls) => {
                &&& handed_over(Some(tls), data, written)->Some_0 + count == written + plain_taken(
                    tls,
                    data.skip(written as int),
                )->Some_0
                &&& count == 0
                &&& !wants_output(after->Some_0)
            },
            None => {
                &&& handed_over(tls, data, written)->Some_0 + count == written + count
                &&& outcome == WriteOutcome::Count(count)
            },
        },
{
}

/// How many bytes several rounds have sent.
pub open spec fn total_sent(counts: Seq<nat>) -> nat
    decreases counts.len(),
{
    if counts.len() == 0 {
        0
    } else {
        total_sent(counts.drop_last()) + counts.last()
    }
}

/// What several rounds have sent, each from where the last one ended.
pub open spec fn sent(data: Seq<u8>, counts: Seq<nat>) -> Seq<u8>
    decreases counts.len(),
{
    if counts.len() == 0 {
        Seq::empty()
    } else {
        let before = total_sent(counts.drop_last()) as int;
        sent(data, counts.drop_last()) + data.skip(before).take(counts.last() as int)
    }
}

/// A message is sent whole, in order and once, in however many rounds.
pub proof fn law_message_is_sent_whole(data: Seq<u8>, counts: Seq<nat>)
    requires
        total_sent(counts) <= data.len(),
    ensures
        sent(data, counts) == data.take(total_sent(counts) as int),
        total_sent(counts) == data.len() ==> sent(data, counts) == data,
    decreases counts.len(),
{
    if counts.len() == 0 {
        assert(data.take(0) =~= Seq::<u8>::empty());
    } else {
        let before = total_sent(counts.drop_last()) as int;
        law_message_is_sent_whole(data, counts.drop_last());
        law_message_is_sent_in_order(data, before, counts.last() as int);
    }
    if total_sent(counts) == data.len() {
        assert(data.take(total_sent(counts) as int) =~= data);
    }
}

/// A message is sent in order and whole: what has been sent and the part of the rest that is
/// sent next make up what has been sent then, which is the message once nothing is left.
pub proof fn law_message_is_sent_in_order(data: Seq<u8>, written: int, count: int)
    requires
        0 <= written,
        0 <= count,
        written + count <= data.len(),
    ensures
        data.take(written) + data.skip(written).take(count) == data.take(written + count),
        written + count == data.len() ==> data.take(written + count) == data,
{
    assert(data.take(written) + data.skip(written).take(count) =~= data.take(written + count));
    if written + count == data.len() {
        assert(data.take(written + count) =~= data);
    }
}

/// Which line is read does not depend on how the bytes arrive: once a whole line is there,
/// bytes that are loaded later come after what the line leaves in the buffer.
pub proof fn law_lines_ignore_arrival(bytes: Seq<u8>, later: Seq<u8>)
    requires
        line_feed(bytes) < bytes.len(),
    ensures
        line_feed(bytes + later) == line_feed(bytes),
        (bytes + later).take(line_feed(bytes) + 1) == bytes.take(line_feed(bytes) + 1),
        (bytes + later).skip(line_feed(bytes) + 1) == bytes.skip(line_feed(bytes) + 1) + later,
{
    let end = line_feed(bytes);
    let all = bytes + later;
    lemma_line_feed(bytes);
    assert forall|i: int| 0 <= i < end implies all[i] != 10u8 by {
        assert(bytes[i] != 10u8);
    }
    lemma_line_feed_is(all, end);
    assert(all.take(end + 1) =~= bytes.take(end + 1));
    assert(all.skip(end + 1) =~= bytes.skip(end + 1) + later);
}

/// Which bytes are read does not depend on how they arrive: once enough are there, bytes that
/// are loaded later come after what is left in the buffer.
pub proof fn law_bytes_ignore_arrival(bytes: Seq<u8>, later: Seq<u8>, want: int)
    requires
        0 <= want <= bytes.len(),
    ensures
        (bytes + later).take(want) == bytes.take(want),
        (bytes + later).skip(want) == bytes.skip(want) + later,
        bytes.take(want) + bytes.skip(want) == bytes,
{
    assert((bytes + later).take(want) =~= bytes.take(want));
    assert((bytes + later).skip(want) =~= bytes.skip(want) + later);
    assert(bytes.take(want) + bytes.skip(want) =~= bytes);
}

/// The buffer after these loads.
pub open spec fn loaded_up(buffer: Seq<u8>, loads: Seq<Seq<u8>>) -> Seq<u8>
    decreases loads.len(),
{
    if loads.len() == 0 {
        buffer
    } else {
        loaded_up(buffer + loads[0], loads.drop_first())
    }
}

/// How many bytes of a line are given, none where there is none, and what is left in the buffer,
/// where these are loaded one after the other, as far as they are needed, until the peer closes.
pub open spec fn line_awaited(buffer: Seq<u8>, loads: Seq<Seq<u8>>) -> (nat, Seq<u8>)
    decreases loads.len(),
{
    let end = line_feed(buffer);
    if end < buffer.len() {
        ((end + 1) as nat, buffer.skip(end + 1))
    } else if loads.len() == 0 {
        (0, buffer)
    } else {
        line_awaited(buffer + loads[0], loads.drop_first())
    }
}

/// The bytes that are read, or nothing where too few come, and what is left in the buffer, where
/// these are loaded one after the other, as far as they are needed, until the peer closes.
pub open spec fn bytes_awaited(buffer: Seq<u8>, loads: Seq<Seq<u8>>, want: nat) -> (
    Option<Seq<u8>>,
    Seq<u8>,
)
    decreases loads.len(),
{
    if want <= buffer.len() {
        (Some(buffer.take(want as int)), buffer.skip(want as int))
    } else if loads.len() == 0 {
        (None, buffer)
    } else {
        bytes_awaited(buffer + loads[0], loads.drop_first(), want)
    }
}

/// Loads add to the buffer and change nothing that is in it.
proof fn lemma_loaded_up(buffer: Seq<u8>, loads: Seq<Seq<u8>>)
    ensures
        buffer.is_prefix_of(loaded_up(buffer, loads)),
    decreases loads.len(),
{
    if loads.len() > 0 {
        let next = buffer + loads[0];
        lemma_loaded_up(next, loads.drop_first());
        let all = loaded_up(buffer, loads);
        assert(buffer =~= all.take(buffer.len() as int)) by {
            assert(next =~= all.take(next.len() as int));
            assert forall|i: int| 0 <= i < buffer.len() implies buffer[i] == all[i] by {
                assert(buffer[i] == next[i]);
                assert(next[i] == all.take(next.len() as int)[i]);
            }
        }
    }
}

/// A line is read whole or not at all: it is given exactly where its line feed comes before the
/// peer closes, and else every byte that has come stays in the buffer.
pub proof fn law_line_is_whole_or_missing(buffer: Seq<u8>, loads: Seq<Seq<u8>>)
    ensures
        ({
            let all = loaded_up(buffer, loads);
            let (count, rest) = line_awaited(buffer, loads);
            if line_feed(all) < all.len() {
                count == line_feed(all) + 1 && rest.is_prefix_of(all.skip(count as int))
            } else {
                count == 0 && rest == all
            }
        }),
    decreases loads.len(),
{
    let all = loaded_up(buffer, loads);
    let end = line_feed(buffer);
    lemma_line_feed(buffer);
    if end < buffer.len() {
        lemma_loaded_up(buffer, loads);
        let later = all.skip(buffer.len() as int);
        assert(all =~= buffer + later);
        law_lines_ignore_arrival(buffer, later);
        assert(buffer.skip(end + 1).is_prefix_of(buffer.skip(end + 1) + later));
    } else if loads.len() > 0 {
        law_line_is_whole_or_missing(buffer + loads[0], loads.drop_first());
    }
}

/// Bytes are read in full or not at all: they are given exactly where enough come before the
/// peer closes, and else every byte that has come stays in the buffer.
pub proof fn law_read_is_full_or_missing(buffer: Seq<u8>, loads: Seq<Seq<u8>>, want: nat)
    ensures
        ({
            let all = loaded_up(buffer, loads);
            let (given, rest) = bytes_awaited(buffer, loads, want);
            if want <= all.len() {
                given == Some(all.take(want as int)) && rest.is_prefix_of(all.skip(want as int))
            } else {
                given is None && rest == all
            }
        }),
    decreases loads.len(),
{
    let all = loaded_up(buffer, loads);
    lemma_loaded_up(buffer, loads);
    if want <= buffer.len() {
        let later = all.skip(buffer.len() as int);
        assert(all =~= buffer + later);
        law_bytes_ignore_arrival(buffer, later, want as int);
        assert(buffer.skip(want as int).is_prefix_of(buffer.skip(want as int) + later));
    } else if loads.len() > 0 {
        law_read_is_full_or_missing(buffer + loads[0], loads.drop_first(), want);
    }
}

/// Nothing is lost or repeated: a line and what it leaves are what was in the buffer, and the
/// line ends with its only line feed.
pub proof fn law_lines_partition_the_stream(bytes: Seq<u8>)
    requires
        line_feed(bytes) < bytes.len(),
    ensures
        bytes.take(line_feed(bytes) + 1) + bytes.skip(line_feed(bytes) + 1) == bytes,
        bytes.take(line_feed(bytes) + 1).last() == 10u8,
        !bytes.take(line_feed(bytes)).contains(10u8),
{
    lemma_line_feed(bytes);
    assert(bytes.take(line_feed(bytes) + 1) + bytes.skip(line_feed(bytes) + 1) =~= bytes);
}

/// The end of a line is its first line feed, and there is a line exactly where there is one.
pub proof fn law_line_ends_at_the_first_line_feed(bytes: Seq<u8>, at: int)
    ensures
        0 <= at < bytes.len() && bytes[at] == 10u8 && (forall|i: int|
            0 <= i < at ==> #[trigger] bytes[i] != 10u8) ==> line_feed(bytes) == at,
        line_feed(bytes) < bytes.len() <==> bytes.contains(10u8),
        !bytes.contains(10u8) ==> line_feed(bytes) == bytes.len(),
{
    lemma_line_feed(bytes);
    if 0 <= at < bytes.len() && bytes[at] == 10u8 && (forall|i: int|
        0 <= i < at ==> #[trigger] bytes[i] != 10u8) {
        lemma_line_feed_is(bytes, at);
    }
    if line_feed(bytes) < bytes.len() {
        assert(bytes[line_feed(bytes)] == 10u8);
    } else {
        assert forall|i: int| 0 <= i < bytes.len() implies bytes[i] != 10u8 by {}
    }
}

/// A write goes on until it is done: a socket without room is waited for, a fault is reported, and
/// over TLS all that is encrypted is sent before the write is done, with nothing counted for it. In
/// the clear what the socket has taken counts.
pub proof fn law_write_goes_on_until_done(tls: Option<ServerConnection>, count: usize)
    ensures
        write_step(tls, WriteOutcome::WouldBlock) == WriteStep::AwaitRoom,
        write_step(tls, WriteOutcome::Failed) == WriteStep::Failed,
        tls is None ==> write_step(tls, WriteOutcome::Count(count)) == WriteStep::Written(count),
        tls matches Some(open) ==> write_step(tls, WriteOutcome::Count(count)) == (if wants_output(
            open,
        ) {
            WriteStep::Flush
        } else {
            WriteStep::Written(0)
        }),
{
}

/// What is read over TLS is what the connection has decrypted, from the front of the buffer on, and
/// nothing else of the buffer changes; a peer that breaks the protocol is told of, and a connection
/// that has to be given bytes first reads nothing.
pub proof fn law_decrypted_bytes_are_given(
    tls: ServerConnection,
    worked_up: Result<(), rustls::Error>,
    before: Seq<u8>,
    tls_after: ServerConnection,
    after: Seq<u8>,
    read: TlsChunk,
)
    requires
        chunk_given(tls, worked_up, before, tls_after, after, read),
    ensures
        worked_up matches Err(error) ==> read == TlsChunk::Corrupt(error),
        worked_up is Ok ==> (read is NeedInput <==> wants_input(tls)),
        read is Corrupt <==> worked_up is Err,
        read is Corrupt || read is NeedInput ==> after == before && tls_after == tls,
        read matches TlsChunk::Plain(result) ==> {
            &&& result is Ok <==> plain_read(tls, before.len()) is Some
            &&& result matches Ok(count) ==> {
                &&& count <= before.len()
                &&& plain_read(tls, before.len()) == Some(after.take(count as int))
                &&& after.skip(count as int) == before.skip(count as int)
            }
            &&& result is Err ==> after == before
        },
{
    if let TlsChunk::Plain(Ok(count)) = read {
        let bytes = plain_read(tls, before.len())->Some_0;
        assert(after.take(count as int) =~= bytes);
        assert(after.skip(count as int) =~= before.skip(count as int));
    }
}

/// Bytes of a peer that TLS has worked up are fine, and a fault that it finds in them is told as it
/// is; in the clear nothing is given to TLS.
pub proof fn law_faults_of_the_peer_are_told(
    error: rustls::Error,
    after: Option<ServerConnection>,
    rest: Seq<u8>,
    result: Result<(), std::io::Error>,
    data: Seq<u8>,
    written: nat,
)
    ensures
        hearing_settled(Ok(())) is Ok,
        hearing_settled(Err(error)) == Err::<(), HandshakeError>(HandshakeError::Corrupt(error)),
        tls_given(None, after, rest, result) <==> after is None && result is Ok,
        handed_over(None, data, written) == Some(written),
{
}

} // verus!
