//! Files that are read and written by another thread.
use vstd::prelude::*;
use crate::runtime::Poll;

verus! {

/// A file on which one job, reading all of it or writing it, can be done in the background;
/// `W` is what wakes the task that waits for the job.
pub struct AsyncFile<W> {
    /// No job has been started yet.
    pub open: bool,
    /// How many bytes the file holds.
    pub len: usize,
    /// What the job has read.
    pub read_buf: Vec<u8>,
    /// The job has written.
    pub written: bool,
    /// Who waits for the job.
    pub waker: Option<W>,
}

/// Why a job cannot be started.
#[derive(Clone, Copy, PartialEq, Eq, Structural, Debug)]
pub enum FileError {
    /// A job has been started on this file before.
    Taken,
}

/// What the other thread is to do with the file.
pub enum FileJob {
    /// Read all of it, and note what was read.
    Read,
    /// Write these bytes to it, all of them, and note that.
    Write(Vec<u8>),
}

/// What is to be done with the file, as a value of specifications.
pub enum JobModel {
    Read,
    Write(Seq<u8>),
}

impl View for FileJob {
    type V = JobModel;

    open spec fn view(&self) -> JobModel {
        match self {
            FileJob::Read => JobModel::Read,
            FileJob::Write(bytes) => JobModel::Write(bytes@),
        }
    }
}

/// The contents of a file in the background.
pub struct FileModel<W> {
    pub open: bool,
    pub len: nat,
    pub read: Seq<u8>,
    pub written: bool,
    pub waker: Option<W>,
}

impl<W> View for AsyncFile<W> {
    type V = FileModel<W>;

    open spec fn view(&self) -> FileModel<W> {
        FileModel {
            open: self.open,
            len: self.len as nat,
            read: self.read_buf@,
            written: self.written,
            waker: self.waker,
        }
    }
}

/// A file of `len` bytes on which no job has been started.
pub open spec fn fresh_file<W>(len: nat) -> FileModel<W> {
    FileModel { open: true, len, read: Seq::empty(), written: false, waker: None }
}

/// The file after a job was asked for, and whether the job is started: it is the first.
pub open spec fn job_asked<W>(file: FileModel<W>) -> (FileModel<W>, bool) {
    (FileModel { open: false, ..file }, file.open)
}

/// The file after the job has read `bytes`, and whom it wakes.
pub open spec fn read_done<W>(file: FileModel<W>, bytes: Seq<u8>) -> (FileModel<W>, Option<W>) {
    (FileModel { read: bytes, waker: None, ..file }, file.waker)
}

/// The file after the job has written, and whom it wakes.
pub open spec fn write_done<W>(file: FileModel<W>) -> (FileModel<W>, Option<W>) {
    (FileModel { written: true, waker: None, ..file }, file.waker)
}

/// The file after a poll of the task with the waker `waker`, and what the poll gives: what
/// has been read, once it is as much as the file holds.
pub open spec fn read_polled<W>(file: FileModel<W>, waker: W) -> (FileModel<W>, Option<Seq<u8>>) {
    if file.read.len() < file.len {
        (FileModel { waker: Some(waker), ..file }, None)
    } else {
        (FileModel { read: Seq::empty(), ..file }, Some(file.read))
    }
}

/// The file after a poll of the task with the waker `waker`, and whether the poll finds
/// that all has been written.
pub open spec fn write_polled<W>(file: FileModel<W>, waker: W) -> (FileModel<W>, bool) {
    if file.written {
        (file, true)
    } else {
        (FileModel { waker: Some(waker), ..file }, false)
    }
}

impl<W> AsyncFile<W> {
    /// A file of the size that its metadata tells; where there is none it counts as empty.
    pub fn from(size: Option<u64>) -> (file: Self)
        ensures
            file@ == fresh_file::<W>((match size {
                Some(size) => size as usize,
                None => 0,
            }) as nat),
    {
        let len: usize = match size {
            Some(size) => {
                #[verifier::truncate]
                (size as usize)
            },
            None => 0,
        };
        Self { open: true, len, read_buf: Vec::new(), written: false, waker: None }
    }

    /// Takes the file for a job, which can be done once.
    fn take_file(&mut self) -> (result: Result<(), FileError>)
        ensures
            (final(self)@, result is Ok) == job_asked(old(self)@),
    {
        if self.open {
            self.open = false;
            Ok(())
        } else {
            Err(FileError::Taken)
        }
    }

    /// Starts to read the whole file, unless a job has been started before.
    pub fn read_to_end(&mut self) -> (result: Result<FileJob, FileError>)
        ensures
            final(self)@ == job_asked(old(self)@).0,
            match result {
                Ok(job) => job_asked(old(self)@).1 && job@ == JobModel::Read,
                Err(error) => !job_asked(old(self)@).1 && error == FileError::Taken,
            },
    {
        match self.take_file() {
            Ok(_) => Ok(FileJob::Read),
            Err(error) => Err(error),
        }
    }

    /// Starts to write these bytes to the file, unless a job has been started before.
    pub fn write_all(&mut self, buf: Vec<u8>) -> (result: Result<FileJob, FileError>)
        ensures
            final(self)@ == job_asked(old(self)@).0,
            match result {
                Ok(job) => job_asked(old(self)@).1 && job@ == JobModel::Write(buf@),
                Err(error) => !job_asked(old(self)@).1 && error == FileError::Taken,
            },
    {
        match self.take_file() {
            Ok(_) => Ok(FileJob::Write(buf)),
            Err(error) => Err(error),
        }
    }

    /// Notes what the job has read, and gives the waker of the task that waits for it.
    pub fn finish_read(&mut self, bytes: Vec<u8>) -> (waker: Option<W>)
        ensures
            (final(self)@, waker) == read_done(old(self)@, bytes@),
    {
        self.read_buf = bytes;
        self.waker.take()
    }

    /// Notes that the job has written, and gives the waker of the task that waits for it.
    pub fn finish_write(&mut self) -> (waker: Option<W>)
        ensures
            (final(self)@, waker) == write_done(old(self)@),
    {
        self.written = true;
        self.waker.take()
    }

    /// Gives what has been read once it is as much as the file holds; until then the task
    /// with this waker waits.
    pub fn poll_read(&mut self, waker: W) -> (poll: Poll<Vec<u8>>)
        ensures
            final(self)@ == read_polled(old(self)@, waker).0,
            match poll {
                Poll::Ready(bytes) => read_polled(old(self)@, waker).1 == Some(bytes@),
                Poll::Pending => read_polled(old(self)@, waker).1 is None,
            },
    {
        if self.read_buf.len() < self.len {
            self.waker = Some(waker);
            Poll::Pending
        } else {
            let mut bytes: Vec<u8> = Vec::new();
            std::mem::swap(&mut bytes, &mut self.read_buf);
            Poll::Ready(bytes)
        }
    }

    /// Tells that all has been written; until then the task with this waker waits.
    pub fn poll_write(&mut self, waker: W) -> (poll: Poll<bool>)
        ensures
            final(self)@ == write_polled(old(self)@, waker).0,
            poll == (if write_polled(old(self)@, waker).1 {
                Poll::Ready(true)
            } else {
                Poll::Pending
            }),
    {
        if self.written {
            Poll::Ready(true)
        } else {
            self.waker = Some(waker);
            Poll::Pending
        }
    }
}

/// Reading a file that has not shrunk gives what the job has read, whichever comes first. If
/// the task polls before the job is done, the job wakes it and the next poll gives the bytes;
/// if the job is done before, the first poll gives them. Of a file that counts as empty a poll
/// before the job gives nothing at once.
pub proof fn law_file_is_read<W>(len: nat, bytes: Seq<u8>, first: W, second: W)
    requires
        len <= bytes.len(),
    ensures
        ({
            let (waiting, early) = read_polled(fresh_file(len), first);
            let (done, woken) = read_done(waiting, bytes);
            if len > 0 {
                &&& early is None
                &&& woken == Some(first)
                &&& read_polled(done, second).1 == Some(bytes)
            } else {
                early == Some(Seq::<u8>::empty())
            }
        }),
        read_polled(read_done(fresh_file::<W>(len), bytes).0, first).1 == Some(bytes),
{
}

/// Writing a file is reported once the job has written, whichever comes first: a task that
/// polls before is woken, and its next poll tells.
pub proof fn law_file_is_written<W>(len: nat, first: W, second: W)
    ensures
        ({
            let (waiting, early) = write_polled(fresh_file(len), first);
            let (done, woken) = write_done(waiting);
            &&& !early
            &&& woken == Some(first)
            &&& write_polled(done, second).1
        }),
        write_polled(write_done(fresh_file::<W>(len)).0, first).1,
{
}

/// What happens to a file in the background; `W` is what wakes a task that waits.
pub enum FileEvent<W> {
    /// A job is asked for.
    Asked(JobModel),
    /// The job has read these bytes.
    ReadDone(Seq<u8>),
    /// The job has written.
    WriteDone,
    /// A task asks for what has been read.
    ReadPolled(W),
    /// A task asks whether all has been written.
    WritePolled(W),
}

/// The file after an event.
pub open spec fn file_after<W>(file: FileModel<W>, event: FileEvent<W>) -> FileModel<W> {
    match event {
        FileEvent::Asked(_) => job_asked(file).0,
        FileEvent::ReadDone(bytes) => read_done(file, bytes).0,
        FileEvent::WriteDone => write_done(file).0,
        FileEvent::ReadPolled(waker) => read_polled(file, waker).0,
        FileEvent::WritePolled(waker) => write_polled(file, waker).0,
    }
}

/// A file of `len` bytes after a row of events.
pub open spec fn file_at<W>(len: nat, events: Seq<FileEvent<W>>) -> FileModel<W>
    decreases events.len(),
{
    if events.len() == 0 {
        fresh_file(len)
    } else {
        file_after(file_at(len, events.drop_last()), events.last())
    }
}

/// The jobs that have been started in a row of events.
pub open spec fn started_jobs<W>(len: nat, events: Seq<FileEvent<W>>) -> Seq<JobModel>
    decreases events.len(),
{
    if events.len() == 0 {
        Seq::empty()
    } else {
        let earlier = started_jobs(len, events.drop_last());
        match events.last() {
            FileEvent::Asked(job) => if job_asked(file_at(len, events.drop_last())).1 {
                earlier.push(job)
            } else {
                earlier
            },
            _ => earlier,
        }
    }
}

/// The job that is asked for first in a row of events.
pub open spec fn first_job<W>(events: Seq<FileEvent<W>>) -> Option<JobModel>
    decreases events.len(),
{
    if events.len() == 0 {
        None
    } else {
        match (first_job(events.drop_last()), events.last()) {
            (None, FileEvent::Asked(job)) => Some(job),
            (earlier, _) => earlier,
        }
    }
}

/// Only the first job that is asked for touches the file, whatever comes before it, in between
/// and after it; every later one is refused. Writing is reported exactly from when the job has
/// written.
pub proof fn law_first_job_alone_touches_the_file<W>(
    len: nat,
    events: Seq<FileEvent<W>>,
    waker: W,
)
    ensures
        started_jobs(len, events) == match first_job(events) {
            Some(job) => seq![job],
            None => Seq::empty(),
        },
        job_asked(file_at(len, events)).1 <==> first_job(events) is None,
        write_polled(file_at(len, events), waker).1 <==> events.contains(FileEvent::WriteDone),
    decreases events.len(),
{
    if events.len() > 0 {
        let earlier = events.drop_last();
        law_first_job_alone_touches_the_file(len, earlier, waker);
        if earlier.contains(FileEvent::WriteDone) {
            let k = choose|k: int|
                0 <= k < earlier.len() && earlier[k] == FileEvent::<W>::WriteDone;
            assert(events[k] == FileEvent::<W>::WriteDone);
        } else if events.contains(FileEvent::WriteDone) {
            let k = choose|k: int| 0 <= k < events.len() && events[k] == FileEvent::<W>::WriteDone;
            if k < earlier.len() {
                assert(earlier[k] == FileEvent::<W>::WriteDone);
            }
        } else {
            assert(events.last() == events[events.len() - 1]);
        }
    }
}

/// Reading waits as long as less has been read than the file holds, and then gives all that has
/// been read, once.
pub proof fn law_reading_waits_for_all<W>(file: FileModel<W>, waker: W)
    ensures
        read_polled(file, waker).1 is Some <==> file.read.len() >= file.len,
        read_polled(file, waker).1 matches Some(bytes) ==> bytes == file.read && read_polled(
            file,
            waker,
        ).0.read.len() == 0,
        read_polled(file, waker).1 is None ==> {
            &&& read_polled(file, waker).0.waker == Some(waker)
            &&& read_polled(file, waker).0.read == file.read
        },
        read_polled(file, waker).0.open == file.open,
        write_polled(file, waker).0.open == file.open,
{
}

} // verus!
