use rustls::pki_types::{CertificateDer, PrivatePkcs8KeyDer, ServerName, UnixTime};
use rustls::{ClientConfig, ClientConnection, ServerConfig, ServerConnection};
use server_kit::runtime::handshake::{Handshake, HandshakeAct, HandshakeError};
use server_kit::runtime::net::{
    AsyncTcpStream, HandshakeStep, TlsChunk, WriteAct, WriteOutcome, WriteProgress, WriteStep,
};
use server_kit::tls::{settings_from_pem, settle_settings, SettingsError};
use std::io::{Read, Write};
use std::sync::Arc;

/// Presents a certificate that nobody looks at.
#[derive(Debug)]
struct AnyCertificate(Arc<rustls::sign::CertifiedKey>);

impl rustls::server::ResolvesServerCert for AnyCertificate {
    fn resolve(
        &self,
        _hello: rustls::server::ClientHello<'_>,
    ) -> Option<Arc<rustls::sign::CertifiedKey>> {
        Some(Arc::clone(&self.0))
    }
}

/// Trusts everybody.
#[derive(Debug)]
struct Trusting;

impl rustls::client::danger::ServerCertVerifier for Trusting {
    fn verify_server_cert(
        &self,
        _end_entity: &CertificateDer<'_>,
        _intermediates: &[CertificateDer<'_>],
        _server_name: &ServerName<'_>,
        _ocsp_response: &[u8],
        _now: UnixTime,
    ) -> Result<rustls::client::danger::ServerCertVerified, rustls::Error> {
        Ok(rustls::client::danger::ServerCertVerified::assertion())
    }

    fn verify_tls12_signature(
        &self,
        _message: &[u8],
        _cert: &CertificateDer<'_>,
        _dss: &rustls::DigitallySignedStruct,
    ) -> Result<rustls::client::danger::HandshakeSignatureValid, rustls::Error> {
        Ok(rustls::client::danger::HandshakeSignatureValid::assertion())
    }

    fn verify_tls13_signature(
        &self,
        _message: &[u8],
        _cert: &CertificateDer<'_>,
        _dss: &rustls::DigitallySignedStruct,
    ) -> Result<rustls::client::danger::HandshakeSignatureValid, rustls::Error> {
        Ok(rustls::client::danger::HandshakeSignatureValid::assertion())
    }

    fn supported_verify_schemes(&self) -> Vec<rustls::SignatureScheme> {
        vec![rustls::SignatureScheme::ED25519]
    }
}

fn server_settings() -> Arc<ServerConfig> {
    let mut der: Vec<u8> = vec![
        0x30, 0x2e, 0x02, 0x01, 0x00, 0x30, 0x05, 0x06, 0x03, 0x2b, 0x65, 0x70, 0x04, 0x22, 0x04,
        0x20,
    ];
    der.extend_from_slice(&[7u8; 32]);
    let key = rustls::crypto::ring::sign::any_eddsa_type(&PrivatePkcs8KeyDer::from(der)).unwrap();
    let certificate = CertificateDer::from(vec![1u8, 2, 3]);
    let certified = rustls::sign::CertifiedKey::new(vec![certificate], key);
    let provider = Arc::new(rustls::crypto::ring::default_provider());
    Arc::new(
        ServerConfig::builder_with_provider(provider)
            .with_safe_default_protocol_versions()
            .unwrap()
            .with_no_client_auth()
            .with_cert_resolver(Arc::new(AnyCertificate(Arc::new(certified)))),
    )
}

fn client() -> ClientConnection {
    let provider = Arc::new(rustls::crypto::ring::default_provider());
    let config = ClientConfig::builder_with_provider(provider)
        .with_safe_default_protocol_versions()
        .unwrap()
        .dangerous()
        .with_custom_certificate_verifier(Arc::new(Trusting))
        .with_no_client_auth();
    ClientConnection::new(Arc::new(config), ServerName::try_from("localhost").unwrap()).unwrap()
}

fn from_client(client: &mut ClientConnection) -> Vec<u8> {
    let mut bytes: Vec<u8> = Vec::new();
    while client.wants_write() {
        client.write_tls(&mut bytes).unwrap();
    }
    bytes
}

fn to_client(client: &mut ClientConnection, bytes: &[u8]) {
    let mut rest = bytes;
    while !rest.is_empty() {
        client.read_tls(&mut rest).unwrap();
        client.process_new_packets().unwrap();
    }
}

/// Shakes hands in memory.
fn connect() -> (AsyncTcpStream, ClientConnection) {
    let mut stream = AsyncTcpStream::new(1);
    let mut peer = client();
    let mut shake = AsyncTcpStream::start_tls(server_settings()).unwrap();
    let mut act = HandshakeAct::Again;
    let mut sent = false;
    loop {
        assert!(shake.is_in_step(&stream));
        act = match act {
            HandshakeAct::Again => shake.on_turn(&mut stream),
            HandshakeAct::Send(bytes) => {
                assert!(!bytes.is_empty());
                sent = true;
                to_client(&mut peer, &bytes);
                shake.on_sent(&mut stream)
            }
            HandshakeAct::Load => {
                assert!(stream.tls.is_none());
                let bytes = from_client(&mut peer);
                stream.read_buf.extend_from_slice(&bytes);
                shake.on_loaded(&mut stream, bytes.len())
            }
            HandshakeAct::Finish => break,
            HandshakeAct::Fail(_) => panic!("the handshake failed"),
        };
    }
    assert!(sent);
    assert!(matches!(shake, Handshake::Over));
    assert!(stream.read_buf.is_empty());
    assert!(!stream.tls.as_ref().unwrap().is_handshaking());
    (stream, peer)
}

/// A connection whose handshake has not begun.
fn fresh() -> ServerConnection {
    match AsyncTcpStream::start_tls(server_settings()) {
        Ok(Handshake::Speaking(tls, false)) => tls,
        _ => panic!("no connection"),
    }
}

fn flush(stream: &mut AsyncTcpStream) -> Vec<u8> {
    let mut bytes: Vec<u8> = Vec::new();
    while stream.needs_flush() {
        stream.tls.as_mut().unwrap().write_tls(&mut bytes).unwrap();
    }
    bytes
}

#[test]
fn hands_are_shaken() {
    let (stream, peer) = connect();
    assert!(!peer.is_handshaking());
    assert_eq!(stream.token, 1);
}

#[test]
fn fresh_handshake_listens_first() {
    let mut tls = fresh();
    assert!(matches!(AsyncTcpStream::handshake_output(&mut tls), HandshakeStep::Silent));
    assert!(AsyncTcpStream::handshake_wants_input(&tls));
}

#[test]
fn settings_that_cannot_work_are_told() {
    let mut config = ServerConfig::clone(&server_settings());
    config.max_fragment_size = Some(1);
    assert!(AsyncTcpStream::start_tls(Arc::new(config)).is_err());
}

#[test]
fn peer_that_closes_ends_the_handshake() {
    let mut stream = AsyncTcpStream::new(0);
    let mut tls = fresh();
    assert!(matches!(stream.handshake_input(&mut tls, 0), Err(HandshakeError::PeerClosed)));
}

#[test]
fn peer_that_speaks_something_else_ends_the_handshake() {
    let mut stream = AsyncTcpStream::new(0);
    let mut tls = fresh();
    stream.read_buf = b"GET / HTTP/1.1\r\n".to_vec();
    assert!(matches!(stream.handshake_input(&mut tls, 16), Err(HandshakeError::Corrupt(_))));
    assert!(stream.read_buf.is_empty());
}

#[test]
fn handshake_begins_by_hearing_the_peer() {
    let mut stream = AsyncTcpStream::new(0);
    let mut shake = AsyncTcpStream::start_tls(server_settings()).unwrap();
    assert!(matches!(shake.on_turn(&mut stream), HandshakeAct::Load));
    assert!(matches!(
        shake.on_loaded(&mut stream, 0),
        HandshakeAct::Fail(HandshakeError::PeerClosed)
    ));
    assert!(matches!(shake, Handshake::Over));
    assert!(stream.tls.is_none());
}

#[test]
fn handshake_with_bytes_from_before_fails() {
    let mut stream = AsyncTcpStream::new(0);
    stream.read_buf = b"MAIL FROM:<a>\r\n".to_vec();
    let mut peer = client();
    let mut shake = AsyncTcpStream::start_tls(server_settings()).unwrap();
    assert!(shake.is_in_step(&stream));
    assert!(matches!(shake.on_turn(&mut stream), HandshakeAct::Load));
    let bytes = from_client(&mut peer);
    stream.read_buf.extend_from_slice(&bytes);
    assert!(matches!(
        shake.on_loaded(&mut stream, bytes.len()),
        HandshakeAct::Fail(HandshakeError::Corrupt(_))
    ));
    assert!(stream.tls.is_none());
    assert!(stream.read_buf.is_empty());
}

#[test]
fn handshake_that_is_not_over_is_not_taken() {
    let mut stream = AsyncTcpStream::new(0);
    let left = stream.finish_tls(fresh());
    assert!(left.is_some());
    assert!(stream.tls.is_none());
    let (mut other, _peer) = connect();
    let tls = other.tls.take().unwrap();
    stream.read_buf = vec![1];
    let left = stream.finish_tls(tls);
    assert!(left.is_some());
    stream.read_buf.clear();
    assert!(stream.finish_tls(left.unwrap()).is_none());
    assert!(stream.tls.is_some());
}

#[test]
fn write_over_tls_counts_nothing_and_sends_all() {
    let (mut stream, mut peer) = connect();
    let data = vec![6u8; 30000];
    let mut progress = WriteProgress::new(data.len());
    assert!(stream.encrypt(&data, &mut progress).is_ok());
    assert!(!progress.unfinished());
    assert_eq!(stream.poll_write(WriteOutcome::WouldBlock), WriteStep::AwaitRoom);
    assert_eq!(stream.poll_write(WriteOutcome::Failed), WriteStep::Failed);
    let mut sent: Vec<u8> = Vec::new();
    let mut count = 0;
    while stream.poll_write(WriteOutcome::Count(count)) == WriteStep::Flush {
        count = stream.tls.as_mut().unwrap().write_tls(&mut sent).unwrap();
    }
    assert!(count > 0);
    assert_eq!(stream.poll_write(WriteOutcome::Count(count)), WriteStep::Written(0));
    assert!(!stream.needs_flush());
    let mut read: Vec<u8> = Vec::new();
    let mut rest = &sent[..];
    while !rest.is_empty() {
        peer.read_tls(&mut rest).unwrap();
        peer.process_new_packets().unwrap();
        let mut part = vec![0u8; 40000];
        if let Ok(got) = peer.reader().read(&mut part) {
            read.extend_from_slice(&part[..got]);
        }
    }
    assert_eq!(read, data);
}

#[test]
fn result_of_making_settings_decides() {
    assert!(matches!(
        settle_settings(Err(rustls::Error::DecryptError)),
        Err(SettingsError::Mismatch(rustls::Error::DecryptError))
    ));
    assert!(matches!(
        AsyncTcpStream::settle_hearing(Err(rustls::Error::DecryptError)),
        Err(HandshakeError::Corrupt(rustls::Error::DecryptError))
    ));
    assert!(AsyncTcpStream::settle_hearing(Ok(())).is_ok());
}

#[test]
fn decrypted_bytes_are_read() {
    let (mut stream, mut peer) = connect();
    flush(&mut stream);
    peer.writer().write_all(b"hello").unwrap();
    let bytes = from_client(&mut peer);
    let tls = stream.tls.as_mut().unwrap();
    let mut chunk = vec![9u8; 8];
    assert!(matches!(AsyncTcpStream::read_tls_chunk(tls, &mut chunk), TlsChunk::NeedInput));
    assert_eq!(chunk, vec![9u8; 8]);
    tls.read_tls(&mut &bytes[..]).unwrap();
    assert!(matches!(AsyncTcpStream::read_tls_chunk(tls, &mut chunk), TlsChunk::Plain(Ok(5))));
    assert_eq!(&chunk, b"hello\x09\x09\x09");
    assert!(matches!(AsyncTcpStream::read_tls_chunk(tls, &mut chunk), TlsChunk::NeedInput));
}

#[test]
fn decrypted_bytes_are_read_in_pieces() {
    let (mut stream, mut peer) = connect();
    peer.writer().write_all(b"abcdef").unwrap();
    let bytes = from_client(&mut peer);
    let tls = stream.tls.as_mut().unwrap();
    tls.read_tls(&mut &bytes[..]).unwrap();
    let mut chunk = vec![0u8; 4];
    assert!(matches!(AsyncTcpStream::read_tls_chunk(tls, &mut chunk), TlsChunk::Plain(Ok(4))));
    assert_eq!(&chunk, b"abcd");
    assert!(matches!(AsyncTcpStream::read_tls_chunk(tls, &mut chunk), TlsChunk::Plain(Ok(2))));
    assert_eq!(&chunk, b"efcd");
}

#[test]
fn waiting_bytes_come_before_later_ones() {
    let (mut stream, mut peer) = connect();
    peer.writer().write_all(b"abcdef").unwrap();
    let first = from_client(&mut peer);
    peer.writer().write_all(b"ghi").unwrap();
    let second = from_client(&mut peer);
    let tls = stream.tls.as_mut().unwrap();
    tls.read_tls(&mut &first[..]).unwrap();
    let mut chunk = vec![0u8; 4];
    assert!(matches!(AsyncTcpStream::read_tls_chunk(tls, &mut chunk), TlsChunk::Plain(Ok(4))));
    tls.read_tls(&mut &second[..]).unwrap();
    assert!(matches!(AsyncTcpStream::read_tls_chunk(tls, &mut chunk), TlsChunk::Plain(Ok(4))));
    assert_eq!(&chunk, b"efgh");
    assert!(matches!(AsyncTcpStream::read_tls_chunk(tls, &mut chunk), TlsChunk::Plain(Ok(1))));
    assert_eq!(&chunk, b"ifgh");
}

#[test]
fn tampered_bytes_are_told() {
    let (mut stream, mut peer) = connect();
    peer.writer().write_all(b"hello").unwrap();
    let mut bytes = from_client(&mut peer);
    let last = bytes.len() - 1;
    bytes[last] ^= 1;
    let tls = stream.tls.as_mut().unwrap();
    tls.read_tls(&mut &bytes[..]).unwrap();
    let mut chunk = vec![0u8; 4];
    assert!(matches!(AsyncTcpStream::read_tls_chunk(tls, &mut chunk), TlsChunk::Corrupt(_)));
    assert_eq!(chunk, vec![0u8; 4]);
}

#[test]
fn closed_session_reads_nothing() {
    let (mut stream, mut peer) = connect();
    peer.send_close_notify();
    let bytes = from_client(&mut peer);
    let tls = stream.tls.as_mut().unwrap();
    tls.read_tls(&mut &bytes[..]).unwrap();
    let mut chunk = vec![0u8; 4];
    assert!(matches!(AsyncTcpStream::read_tls_chunk(tls, &mut chunk), TlsChunk::Plain(Ok(0))));
}

#[test]
fn result_of_the_packets_decides() {
    let mut tls: ServerConnection = fresh();
    let mut chunk = vec![0u8; 4];
    assert!(matches!(
        AsyncTcpStream::chunk_after(&mut tls, Err(rustls::Error::DecryptError), &mut chunk),
        TlsChunk::Corrupt(rustls::Error::DecryptError)
    ));
    assert!(matches!(
        AsyncTcpStream::chunk_after(&mut tls, Ok(()), &mut chunk),
        TlsChunk::NeedInput
    ));
}

#[test]
fn message_is_encrypted() {
    let (mut stream, mut peer) = connect();
    let greeting = flush(&mut stream);
    to_client(&mut peer, &greeting);
    let data = b"secret message";
    let mut progress = WriteProgress::new(data.len());
    assert!(stream.encrypt(data, &mut progress).is_ok());
    assert!(!progress.unfinished());
    assert!(stream.needs_flush());
    let bytes = flush(&mut stream);
    assert!(!stream.needs_flush());
    assert!(!bytes.windows(6).any(|w| w == b"secret"));
    to_client(&mut peer, &bytes);
    let mut read = [0u8; 14];
    peer.reader().read_exact(&mut read).unwrap();
    assert_eq!(&read, data);
}

#[test]
fn long_message_is_sent_whole_over_tls() {
    let (mut stream, mut peer) = connect();
    let data: Vec<u8> = (0..200000u32).map(|i| (i % 251) as u8).collect();
    let mut progress = WriteProgress::new(data.len());
    let mut read: Vec<u8> = Vec::new();
    let mut rounds = 0;
    loop {
        match stream.write_all(&data, &mut progress) {
            WriteAct::Write(_) => {}
            WriteAct::Finish(count) => {
                assert_eq!(count, data.len());
                break;
            }
            WriteAct::Fail(error) => panic!("{}", error),
        }
        rounds += 1;
        let bytes = flush(&mut stream);
        assert_eq!(stream.poll_write(WriteOutcome::Count(9)), WriteStep::Written(0));
        let mut rest = &bytes[..];
        while !rest.is_empty() {
            peer.read_tls(&mut rest).unwrap();
            peer.process_new_packets().unwrap();
            let mut part = vec![0u8; 40000];
            if let Ok(got) = peer.reader().read(&mut part) {
                read.extend_from_slice(&part[..got]);
            }
        }
    }
    assert!(rounds > 1);
    assert_eq!(read, data);
}

#[test]
fn rest_of_a_message_is_encrypted() {
    let (mut stream, mut peer) = connect();
    let data = b"0123456789";
    let mut progress = WriteProgress::new(data.len());
    progress.advance(6);
    assert!(stream.encrypt(data, &mut progress).is_ok());
    assert_eq!(progress.written, 10);
    let bytes = flush(&mut stream);
    to_client(&mut peer, &bytes);
    let mut read = [0u8; 4];
    peer.reader().read_exact(&mut read).unwrap();
    assert_eq!(&read, b"6789");
}

#[test]
fn bytes_that_find_no_room_are_kept() {
    let (mut stream, mut peer) = connect();
    let mut tls = stream.tls.take().unwrap();
    peer.writer().write_all(&vec![5u8; 40000]).unwrap();
    let bytes = from_client(&mut peer);
    let mut refused = false;
    for part in bytes.chunks(512) {
        stream.read_buf = part.to_vec();
        match stream.handshake_input(&mut tls, part.len()) {
            Ok(()) => assert!(stream.read_buf.is_empty()),
            Err(HandshakeError::Refused(_)) => {
                assert_eq!(stream.read_buf, part);
                refused = true;
                break;
            }
            Err(_) => panic!("another error"),
        }
    }
    assert!(refused);
}

#[test]
fn nothing_to_read_while_something_is_to_be_sent() {
    let mut stream = AsyncTcpStream::new(0);
    let mut peer = client();
    let mut tls = fresh();
    stream.read_buf = from_client(&mut peer);
    let loaded = stream.read_buf.len();
    assert!(stream.handshake_input(&mut tls, loaded).is_ok());
    assert!(!AsyncTcpStream::handshake_wants_input(&tls));
    let mut chunk = vec![3u8; 2];
    assert!(matches!(
        AsyncTcpStream::read_tls_chunk(&mut tls, &mut chunk),
        TlsChunk::Plain(Err(_))
    ));
    assert_eq!(chunk, vec![3u8; 2]);
}

fn pem(label: &str, base64: &str) -> Vec<u8> {
    format!("-----BEGIN {}-----\n{}\n-----END {}-----\n", label, base64, label).into_bytes()
}

fn certificate_pem() -> Vec<u8> {
    pem(
        "CERTIFICATE",
        "MIHwMIGjoAMCAQICAQEwBQYDK2VwMBQxEjAQBgNVBAMMCWxvY2FsaG9zdDAgFw0y\n\
         MDAxMDEwMDAwMDBaGA8yMTIwMDEwMTAwMDAwMFowFDESMBAGA1UEAwwJbG9jYWxo\n\
         b3N0MCowBQYDK2VwAyEA6kpsY+KcUgq+9VB7Ey7F+ZVHdq6+vnuSQh7qaRRG0iyj\n\
         GDAWMBQGA1UdEQQNMAuCCWxvY2FsaG9zdDAFBgMrZXADQQAefQtmJLJHqbmdAXHb\n\
         uR8OAJ7PBOfNyn6rLH4E3bKbhhmaQT+LRBM5fummejNhkw+dWi8VmT7HJgMsIFUw\n\
         2EgD",
    )
}

fn key_pem(base64: &str) -> Vec<u8> {
    pem("PRIVATE KEY", base64)
}

/// The key of the certificate: its seed is thirty-two times the byte seven.
const KEY: &str = "MC4CAQAwBQYDK2VwBCIEIAcHBwcHBwcHBwcHBwcHBwcHBwcHBwcHBwcHBwcHBwcH";

/// Another key.
const OTHER_KEY: &str = "MC4CAQAwBQYDK2VwBCIEIAgICAgICAgICAgICAgICAgICAgICAgICAgICAgICAgI";

#[test]
fn settings_are_made_of_files() {
    match settings_from_pem(&certificate_pem(), &key_pem(KEY)) {
        Ok(config) => assert!(AsyncTcpStream::start_tls(config).is_ok()),
        Err(_) => panic!("no settings"),
    }
}

#[test]
fn settings_need_a_chain_and_its_key() {
    assert!(matches!(
        settings_from_pem(&certificate_pem(), &key_pem(OTHER_KEY)),
        Err(SettingsError::Mismatch(_))
    ));
    assert!(matches!(
        settings_from_pem(&Vec::new(), &key_pem(KEY)),
        Err(SettingsError::Mismatch(_))
    ));
    assert!(matches!(
        settings_from_pem(&certificate_pem(), &certificate_pem()),
        Err(SettingsError::NoKey)
    ));
    assert!(matches!(
        settings_from_pem(&certificate_pem(), &pem("PRIVATE KEY", "!!!!")),
        Err(SettingsError::Key(_))
    ));
    assert!(matches!(
        settings_from_pem(&pem("CERTIFICATE", "!!!!"), &key_pem(KEY)),
        Err(SettingsError::Certificates(_))
    ));
}
