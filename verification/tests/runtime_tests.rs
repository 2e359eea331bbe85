use server_kit::async_runtime::EventManager;
use server_kit::runtime::bridge::tokio_bridge;
use server_kit::runtime::fs::{AsyncFile, FileError, FileJob};
use server_kit::runtime::net::{
    AsyncTcpStream, LoadOutcome, LoadStep, ReadStep, WriteAct, WriteOutcome, WriteProgress,
    WriteStep, CHUNK,
};
use server_kit::runtime::task::{TaskQueue, TaskWaker, QUEUE_LIMIT};
use server_kit::runtime::{Poll, Reactor, ThreadPool};

#[test]
fn workers_take_turns() {
    let mut pool: ThreadPool<char> = ThreadPool::new();
    pool.spawn_workers(vec!['a', 'b']);
    pool.spawn_workers(vec!['c']);
    let turns: Vec<char> = (0..7).map(|_| *pool.round_robin()).collect();
    assert_eq!(turns, vec!['a', 'b', 'c', 'a', 'b', 'c', 'a']);
    assert_eq!(pool.round, 7);
}

#[test]
fn count_of_rounds_starts_over() {
    let mut pool: ThreadPool<char> = ThreadPool::new();
    pool.spawn_workers(vec!['a', 'b', 'c']);
    pool.round = usize::MAX;
    assert_eq!(*pool.round_robin(), 'a');
    assert_eq!(pool.round, 0);
    assert_eq!(*pool.round_robin(), 'a');
    pool.spawn_workers(vec!['d']);
    pool.round = usize::MAX;
    let turns: Vec<char> = (0..4).map(|_| *pool.round_robin()).collect();
    assert_eq!(turns, vec!['d', 'a', 'b', 'c']);
}

#[test]
fn events_wake_their_own() {
    let mut reactor: Reactor<&str> = Reactor::new();
    reactor.delegate(1, "one");
    reactor.delegate(2, "two");
    reactor.delegate(3, "three");
    reactor.delegate(2, "newer two");
    reactor.undelegate(3);
    assert_eq!(reactor.take_events(&vec![2, 3, 2, 9]), vec!["newer two"]);
    assert_eq!(reactor.take_events(&vec![2]), Vec::<&str>::new());
    assert_eq!(reactor.take_events(&vec![1]), vec!["one"]);
    let mut manager: EventManager<u8> = EventManager::new();
    manager.delegate(0, 5);
    assert_eq!(manager.take_events(&vec![0]), vec![5]);
}

#[test]
fn tasks_leave_in_order() {
    let mut queue = TaskQueue::new();
    assert_eq!(queue.pop(), None);
    for task in [5u64, 6, 7] {
        assert_eq!(queue.push(task), Ok(()));
    }
    assert_eq!(queue.pop(), Some(5));
    assert_eq!(queue.push(8), Ok(()));
    assert_eq!(queue.pop(), Some(6));
    assert_eq!(queue.pop(), Some(7));
    assert_eq!(queue.pop(), Some(8));
    assert_eq!(queue.pop(), None);
}

#[test]
fn full_queue_drops_tasks() {
    let mut queue = TaskQueue::new();
    assert_eq!(QUEUE_LIMIT, 512);
    for task in 0..512u64 {
        assert_eq!(queue.push(task), Ok(()));
    }
    assert_eq!(queue.push(512), Err(512));
    assert_eq!(queue.pop(), Some(0));
    assert_eq!(queue.push(513), Ok(()));
    let mut left: Vec<u64> = Vec::new();
    while let Some(task) = queue.pop() {
        left.push(task);
    }
    assert_eq!(left.len(), 512);
    assert_eq!(left[0], 1);
    assert_eq!(left[511], 513);
}

#[test]
fn task_is_put_back_once() {
    let mut waker: TaskWaker<u8> = TaskWaker::new(None);
    assert_eq!(waker.delegate(4), None);
    assert_eq!(waker.wake(), Some(4));
    assert_eq!(waker.wake(), None);

    let mut waker: TaskWaker<u8> = TaskWaker::new(None);
    assert_eq!(waker.wake(), None);
    assert_eq!(waker.wake(), None);
    assert_eq!(waker.after_poll(4, false), Some(4));
    assert_eq!(waker.wake(), None);

    let mut waker: TaskWaker<u8> = TaskWaker::new(None);
    assert_eq!(waker.after_poll(4, true), None);
    assert_eq!(waker.wake(), None);
}

#[test]
fn file_is_read_in_the_background() {
    let mut file: AsyncFile<u8> = AsyncFile::from(Some(3));
    assert_eq!(file.len, 3);
    assert!(matches!(file.read_to_end(), Ok(FileJob::Read)));
    assert!(matches!(file.read_to_end(), Err(FileError::Taken)));
    assert!(matches!(file.poll_read(1), Poll::Pending));
    assert!(matches!(file.poll_read(2), Poll::Pending));
    assert_eq!(file.finish_read(vec![7, 8, 9]), Some(2));
    assert!(matches!(file.poll_read(3), Poll::Ready(bytes) if bytes == vec![7, 8, 9]));

    let mut file: AsyncFile<u8> = AsyncFile::from(Some(1));
    assert_eq!(file.finish_read(vec![7, 8]), None);
    assert!(matches!(file.poll_read(3), Poll::Ready(bytes) if bytes == vec![7, 8]));
}

#[test]
fn file_without_metadata_counts_as_empty() {
    let mut file: AsyncFile<u8> = AsyncFile::from(None);
    assert_eq!(file.len, 0);
    assert!(matches!(file.poll_read(1), Poll::Ready(bytes) if bytes.is_empty()));
}

#[test]
fn file_is_written_in_the_background() {
    let mut file: AsyncFile<u8> = AsyncFile::from(Some(0));
    assert!(matches!(file.poll_write(1), Poll::Pending));
    assert_eq!(file.finish_write(), Some(1));
    assert!(matches!(file.poll_write(2), Poll::Ready(true)));
    let mut file: AsyncFile<u8> = AsyncFile::from(Some(0));
    assert_eq!(file.finish_write(), None);
    assert!(matches!(file.poll_write(2), Poll::Ready(true)));
}

#[test]
fn first_job_alone_touches_the_file() {
    let mut file: AsyncFile<u8> = AsyncFile::from(Some(2));
    assert!(matches!(file.poll_write(1), Poll::Pending));
    assert!(matches!(file.write_all(vec![4, 5]), Ok(FileJob::Write(bytes)) if bytes == vec![4, 5]));
    assert!(matches!(file.read_to_end(), Err(FileError::Taken)));
    assert!(matches!(file.poll_write(2), Poll::Pending));
    assert_eq!(file.finish_write(), Some(2));
    assert!(matches!(file.poll_write(3), Poll::Ready(true)));
    assert!(matches!(file.write_all(vec![6]), Err(FileError::Taken)));
    assert!(matches!(file.poll_write(4), Poll::Ready(true)));

    let mut file: AsyncFile<u8> = AsyncFile::from(Some(2));
    assert!(matches!(file.read_to_end(), Ok(FileJob::Read)));
    assert!(matches!(file.write_all(vec![6]), Err(FileError::Taken)));
}

#[test]
fn bridged_future_runs_once() {
    let mut bridge = tokio_bridge::<&str, u8, char>("future");
    assert!(matches!(bridge.poll(), Poll::Pending));
    assert_eq!(bridge.start('a'), Some("future"));
    assert!(matches!(bridge.poll(), Poll::Pending));
    assert_eq!(bridge.start('b'), None);
    assert!(matches!(bridge.poll(), Poll::Pending));
    assert_eq!(bridge.finish(6), Some('a'));
    assert_eq!(bridge.start('c'), None);
    assert!(matches!(bridge.poll(), Poll::Ready(6)));
    assert!(matches!(bridge.poll(), Poll::Pending));
    assert_eq!(bridge.waker, None);
}

#[test]
fn bridged_future_can_be_done_before_the_poll() {
    let mut bridge = tokio_bridge::<&str, u8, char>("future");
    assert_eq!(bridge.start('a'), Some("future"));
    assert_eq!(bridge.finish(6), Some('a'));
    assert!(matches!(bridge.poll(), Poll::Ready(6)));
}

#[test]
fn closed_peer_leaves_an_unfinished_line() {
    let mut stream = AsyncTcpStream::new(0);
    stream.read_buf = b"one\ntw".to_vec();
    assert_eq!(stream.line_loaded(7), Some(("one\n".to_string(), 4)));
    assert_eq!(stream.line_loaded(2), None);
    assert_eq!(stream.line_loaded(0), Some((String::new(), 0)));
    assert_eq!(stream.read_buf, b"tw");
    stream.read_buf.extend(b"o\n");
    assert_eq!(stream.line_loaded(2), Some(("two\n".to_string(), 4)));
}

#[test]
fn closed_peer_leaves_a_read_outstanding() {
    let mut stream = AsyncTcpStream::new(0);
    stream.read_buf = vec![1, 2, 3];
    assert!(matches!(stream.read_loaded(5, 3), ReadStep::Load));
    assert!(matches!(stream.read_loaded(5, 0), ReadStep::Outstanding(2)));
    assert_eq!(stream.read_buf, vec![1, 2, 3]);
    assert!(matches!(stream.read_loaded(2, 0), ReadStep::Given(bytes) if bytes == vec![1, 2]));
    assert_eq!(stream.read_buf, vec![3]);
}

#[test]
fn bytes_are_consumed_in_order() {
    let mut stream = AsyncTcpStream::new(4);
    assert_eq!(stream.token, 4);
    assert_eq!(stream.read(0), Some(Vec::new()));
    assert_eq!(stream.read(1), None);
    stream.read_buf = vec![1, 2, 3, 4];
    assert_eq!(stream.read(5), None);
    assert_eq!(stream.read(3), Some(vec![1, 2, 3]));
    assert_eq!(stream.read_buf, vec![4]);
    assert_eq!(stream.read(1), Some(vec![4]));
}

#[test]
fn lines_are_consumed_with_their_line_feed() {
    let mut stream = AsyncTcpStream::new(0);
    assert_eq!(stream.read_line(), None);
    stream.read_buf = b"one\r\ntwo\n\nthr".to_vec();
    assert_eq!(stream.read_line(), Some(("one\r\n".to_string(), 5)));
    assert_eq!(stream.read_line(), Some(("two\n".to_string(), 4)));
    assert_eq!(stream.read_line(), Some(("\n".to_string(), 1)));
    assert_eq!(stream.read_line(), None);
    assert_eq!(stream.read_buf, b"thr");
    stream.read_buf.extend(b"ee\n");
    assert_eq!(stream.read_line(), Some(("three\n".to_string(), 6)));
}

#[test]
fn closed_peer_ends_reading_over_tls() {
    assert_eq!(AsyncTcpStream::tls_fed::<u8>(Ok(0)), Some(Ok(0)));
    assert_eq!(AsyncTcpStream::tls_fed::<u8>(Ok(7)), None);
    assert_eq!(AsyncTcpStream::tls_fed::<u8>(Err(2)), Some(Err(2)));
}

#[test]
fn malformed_lines_are_decoded_with_replacements() {
    let mut stream = AsyncTcpStream::new(0);
    stream.read_buf = vec![b'a', 0xff, b'b', b'\n', 0xc3, 0xa9, b'\n'];
    assert_eq!(stream.read_line(), Some(("a\u{fffd}b\n".to_string(), 4)));
    assert_eq!(stream.read_line(), Some(("\u{e9}\n".to_string(), 3)));
}

#[test]
fn lines_do_not_depend_on_how_bytes_arrive() {
    let bytes = b"GET / HTTP/1.1\r\nHost: a\r\n\r\n";
    for cut in 0..bytes.len() {
        let mut stream = AsyncTcpStream::new(0);
        let mut lines: Vec<String> = Vec::new();
        for part in [&bytes[..cut], &bytes[cut..]] {
            stream.read_buf.extend_from_slice(part);
            while let Some((line, _)) = stream.read_line() {
                lines.push(line);
            }
        }
        assert_eq!(lines, vec!["GET / HTTP/1.1\r\n", "Host: a\r\n", "\r\n"]);
    }
}

#[test]
fn loading_keeps_the_waker_only_while_waiting() {
    let mut reactor: Reactor<&str> = Reactor::new();
    let mut stream = AsyncTcpStream::new(7);
    stream.begin_load(&mut reactor, "w");
    assert_eq!(stream.poll_load_buf(&mut reactor, LoadOutcome::WouldBlock), LoadStep::Pending);
    assert_eq!(reactor.take_events(&vec![7]), vec!["w"]);
    stream.begin_load(&mut reactor, "x");
    assert_eq!(
        stream.poll_load_buf(&mut reactor, LoadOutcome::Bytes(vec![1, 2])),
        LoadStep::Loaded(2)
    );
    assert_eq!(stream.read_buf, vec![1, 2]);
    assert!(reactor.take_events(&vec![7]).is_empty());
    stream.begin_load(&mut reactor, "y");
    assert_eq!(stream.poll_load_buf(&mut reactor, LoadOutcome::Failed), LoadStep::Failed);
    assert!(reactor.take_events(&vec![7]).is_empty());
    assert_eq!(
        stream.poll_load_buf(&mut reactor, LoadOutcome::Bytes(Vec::new())),
        LoadStep::Loaded(0)
    );
}

#[test]
fn one_load_fills_a_chunk_at_most() {
    let mut reactor: Reactor<&str> = Reactor::new();
    let mut stream = AsyncTcpStream::new(7);
    assert_eq!(CHUNK, 4096);
    assert_eq!(
        stream.poll_load_buf(&mut reactor, LoadOutcome::Bytes(vec![1; CHUNK])),
        LoadStep::Loaded(4096)
    );
    assert_eq!(stream.read_buf.len(), 4096);
}

#[test]
fn writing_waits_for_room() {
    let mut reactor: Reactor<&str> = Reactor::new();
    let stream = AsyncTcpStream::new(3);
    assert_eq!(stream.poll_write(WriteOutcome::Count(5)), WriteStep::Written(5));
    assert_eq!(stream.poll_write(WriteOutcome::Failed), WriteStep::Failed);
    assert_eq!(stream.poll_write(WriteOutcome::WouldBlock), WriteStep::AwaitRoom);
    stream.await_room(&mut reactor, "w");
    stream.close(&mut reactor);
    assert!(reactor.take_events(&vec![3]).is_empty());
    stream.await_room(&mut reactor, "w");
    assert_eq!(reactor.take_events(&vec![3]), vec!["w"]);
    assert!(!stream.needs_flush());
}

#[test]
fn message_is_sent_in_order() {
    let data = b"abcdefgh";
    let mut progress = WriteProgress::new(data.len());
    let mut sent: Vec<u8> = Vec::new();
    let mut stream = AsyncTcpStream::new(0);
    for count in [3usize, 0, 1, 4] {
        assert!(progress.unfinished());
        match stream.write_all(data, &mut progress) {
            WriteAct::Write(rest) => sent.extend_from_slice(&rest[..count]),
            _ => panic!("nothing to write"),
        }
        progress.advance(count);
    }
    assert!(matches!(stream.write_all(data, &mut progress), WriteAct::Finish(8)));
    assert_eq!(sent, data);
    let mut nothing = WriteProgress::new(0);
    assert!(matches!(stream.write_all(b"", &mut nothing), WriteAct::Finish(0)));
}
