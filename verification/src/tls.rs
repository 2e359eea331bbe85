//! TLS settings and connections of `rustls`, seen from outside.
use std::io::{Read, Write};
use std::sync::Arc;
use rustls::pki_types::{CertificateDer, PrivateKeyDer};
use rustls::{ServerConfig, ServerConnection};
use vstd::prelude::*;

verus! {

/// `rustls::ServerConfig`, the TLS settings of a server.
#[verifier::external_type_specification]
#[verifier::external_body]
pub struct ExServerConfig(rustls::ServerConfig);

/// `rustls::ServerConnection`, the server's end of a TLS connection.
#[verifier::external_type_specification]
#[verifier::external_body]
pub struct ExServerConnection(rustls::ServerConnection);

/// `rustls::Error`, a fault of the TLS protocol.
#[verifier::external_type_specification]
#[verifier::external_body]
pub struct ExTlsError(rustls::Error);

/// `std::io::Error`, a fault of reading or writing.
#[verifier::external_type_specification]
#[verifier::external_body]
pub struct ExIoError(std::io::Error);

/// What `ServerConnection::is_handshaking` tells of a connection.
pub uninterp spec fn handshaking(tls: ServerConnection) -> bool;

/// What `ServerConnection::wants_read` tells of a connection.
pub uninterp spec fn wants_input(tls: ServerConnection) -> bool;

/// What `ServerConnection::wants_write` tells of a connection.
pub uninterp spec fn wants_output(tls: ServerConnection) -> bool;

/// The bytes that `ServerConnection::write_tls` writes next for a connection.
pub uninterp spec fn next_output(tls: ServerConnection) -> Seq<u8>;

/// Whether `ServerConnection::new` makes a connection from these settings.
pub uninterp spec fn connects(config: ServerConfig) -> bool;

/// The bytes that the reader of `ServerConnection` reads into a buffer with so much room, or
/// nothing where it fails.
pub uninterp spec fn plain_read(tls: ServerConnection, room: nat) -> Option<Seq<u8>>;

/// How many of the bytes the writer of `ServerConnection` takes, or nothing where it fails.
pub uninterp spec fn plain_taken(tls: ServerConnection, data: Seq<u8>) -> Option<nat>;

/// How many of the bytes `ServerConnection::read_tls` takes, or nothing where it fails.
pub uninterp spec fn input_taken(tls: ServerConnection, bytes: Seq<u8>) -> Option<nat>;

/// Whether `ServerConnection::new` can make this connection from these settings.
pub uninterp spec fn opened_with(config: ServerConfig, tls: ServerConnection) -> bool;

/// Whether `ServerConnection::new` can report this error for these settings.
pub uninterp spec fn opening_refused(config: ServerConfig, error: rustls::Error) -> bool;

/// Whether `ServerConnection::process_new_packets` can lead from the one connection to the
/// other with this result.
pub uninterp spec fn packets_worked_up(
    before: ServerConnection,
    after: ServerConnection,
    result: Result<(), rustls::Error>,
) -> bool;

/// Whether reading into a buffer with so much room, through the reader of `ServerConnection`,
/// can lead from the one connection to the other with this result.
pub uninterp spec fn plain_drawn(
    before: ServerConnection,
    after: ServerConnection,
    room: nat,
    result: Result<usize, std::io::Error>,
) -> bool;

/// Whether writing these bytes, through the writer of `ServerConnection`, can lead from the
/// one connection to the other with this result.
pub uninterp spec fn plain_given(
    before: ServerConnection,
    after: ServerConnection,
    data: Seq<u8>,
    result: Result<usize, std::io::Error>,
) -> bool;

/// Whether `ServerConnection::write_tls` can lead from the one connection to the other.
pub uninterp spec fn output_drawn(before: ServerConnection, after: ServerConnection) -> bool;

/// Whether `ServerConnection::read_tls` on these bytes can lead from the one connection to the
/// other with this result.
pub uninterp spec fn input_given(
    before: ServerConnection,
    after: ServerConnection,
    bytes: Seq<u8>,
    result: Result<usize, std::io::Error>,
) -> bool;

/// Calls `Arc::clone`. Claims that the new pointer leads to the same settings.
#[verifier::external_body]
pub(crate) fn share_config(config: &Arc<ServerConfig>) -> (shared: Arc<ServerConfig>)
    ensures
        shared == *config,
{
    Arc::clone(config)
}

/// Calls `ServerConnection::new`. Claims that whether it makes a connection depends on the
/// settings alone, that one that it makes is made from them, has still to shake hands and has
/// nothing to send, and that an error is one that it can report for them.
#[verifier::external_body]
pub(crate) fn open_connection(config: Arc<ServerConfig>) -> (result: Result<
    ServerConnection,
    rustls::Error,
>)
    ensures
        result is Ok <==> connects(*config),
        result matches Ok(tls) ==> opened_with(*config, tls) && handshaking(tls) && !wants_output(
            tls,
        ),
        result matches Err(error) ==> opening_refused(*config, error),
{
    ServerConnection::new(config)
}

/// Opens TLS on a connection where there are settings; without any it stays in the clear.
pub fn open_tls(config: &Option<Arc<ServerConfig>>) -> (result: Result<
    Option<ServerConnection>,
    rustls::Error,
>)
    ensures
        match *config {
            None => result matches Ok(None),
            Some(config) => {
                &&& result is Ok <==> connects(*config)
                &&& result matches Ok(opened) ==> {
                    &&& opened matches Some(tls)
                    &&& opened_with(*config, tls)
                    &&& handshaking(tls)
                    &&& !wants_output(tls)
                }
                &&& result matches Err(error) ==> opening_refused(*config, error)
            },
        },
{
    match config {
        Some(config) => match open_connection(share_config(config)) {
            Ok(tls) => Ok(Some(tls)),
            Err(error) => Err(error),
        },
        None => Ok(None),
    }
}

/// Calls `ServerConnection::is_handshaking`. Claims that the answer depends on the
/// connection alone.
#[verifier::external_body]
pub(crate) fn is_handshaking(tls: &ServerConnection) -> (answer: bool)
    ensures
        answer == handshaking(*tls),
{
    tls.is_handshaking()
}

/// Calls `ServerConnection::wants_read`. Claims that the answer depends on the connection
/// alone, and that a connection that wants to be given bytes has no decrypted bytes to read.
#[verifier::external_body]
pub(crate) fn wants_read(tls: &ServerConnection) -> (answer: bool)
    ensures
        answer == wants_input(*tls),
        answer ==> forall|room: nat| room > 0 ==> plain_read(*tls, room) is None,
{
    tls.wants_read()
}

/// Calls `ServerConnection::wants_write`. Claims that the answer depends on the connection
/// alone.
#[verifier::external_body]
pub(crate) fn wants_write(tls: &ServerConnection) -> (answer: bool)
    ensures
        answer == wants_output(*tls),
{
    tls.wants_write()
}

/// Whether what could be read from a connection before can be read from it after, perhaps with
/// more behind it.
pub open spec fn plain_kept(before: ServerConnection, after: ServerConnection) -> bool {
    forall|room: nat| #[trigger]
        plain_read(before, room) is Some ==> plain_read(after, room) is Some && plain_read(
            before,
            room,
        )->Some_0.is_prefix_of(plain_read(after, room)->Some_0)
}

/// Calls `ServerConnection::process_new_packets`. Claims that the connection and the result
/// are ones to which the call can lead, and that decrypted bytes that have not been read stay
/// in front of those that are decrypted now. To which of them it leads is not stated: that
/// rests with the peer, with secrets and with the time.
#[verifier::external_body]
pub(crate) fn process_packets(tls: &mut ServerConnection) -> (result: Result<(), rustls::Error>)
    ensures
        packets_worked_up(*old(tls), *final(tls), result),
        plain_kept(*old(tls), *final(tls)),
{
    tls.process_new_packets().map(|_| ())
}

/// Calls `ServerConnection::reader` and `read` on it. Claims that what is read depends on the
/// connection and on the room in the buffer, that it goes to the front of the buffer, and
/// that the rest of the buffer stays, as all of it does where reading fails; and that the
/// connection and the result are ones to which reading so much can lead.
#[verifier::external_body]
pub(crate) fn read_plain(tls: &mut ServerConnection, buffer: &mut Vec<u8>) -> (result: Result<
    usize,
    std::io::Error,
>)
    ensures
        final(buffer)@.len() == old(buffer)@.len(),
        result is Ok <==> plain_read(*old(tls), old(buffer)@.len()) is Some,
        result matches Ok(count) ==> {
            &&& count <= old(buffer)@.len()
            &&& plain_read(*old(tls), old(buffer)@.len()) == Some(
                final(buffer)@.take(count as int),
            )
            &&& final(buffer)@.skip(count as int) == old(buffer)@.skip(count as int)
        },
        result is Err ==> final(buffer)@ == old(buffer)@,
        plain_drawn(*old(tls), *final(tls), old(buffer)@.len(), result),
{
    tls.reader().read(buffer)
}

/// Calls `ServerConnection::writer` and `write` on it with the bytes of `data` from `from`
/// on. Claims that the number of bytes taken depends on the connection and on those bytes
/// alone, that no more are taken than are given, and that the connection and the result are
/// ones to which writing them can lead.
#[verifier::external_body]
pub(crate) fn write_plain(tls: &mut ServerConnection, data: &[u8], from: usize) -> (result: Result<
    usize,
    std::io::Error,
>)
    requires
        from <= data@.len(),
    ensures
        result is Ok <==> plain_taken(*old(tls), data@.skip(from as int)) is Some,
        result matches Ok(count) ==> {
            &&& from + count <= data@.len()
            &&& plain_taken(*old(tls), data@.skip(from as int)) == Some(count as nat)
        },
        plain_given(*old(tls), *final(tls), data@.skip(from as int), result),
{
    tls.writer().write(&data[from..])
}

/// Calls `ServerConnection::write_tls` with an empty vector. Claims that this succeeds, as
/// writing to a vector does; that the bytes in the vector depend on the connection alone; that
/// the connection is one to which the call can lead; and that it shakes hands just as before.
#[verifier::external_body]
pub(crate) fn take_output(tls: &mut ServerConnection) -> (result: Result<Vec<u8>, std::io::Error>)
    ensures
        result matches Ok(bytes) && bytes@ == next_output(*old(tls)),
        output_drawn(*old(tls), *final(tls)),
        handshaking(*final(tls)) == handshaking(*old(tls)),
{
    let mut bytes: Vec<u8> = Vec::new();
    tls.write_tls(&mut bytes).map(|_| bytes)
}

/// Calls `ServerConnection::read_tls` on the bytes. Claims that the number of bytes taken
/// depends on the connection and on the bytes alone, that no more are taken than are given,
/// and that the connection and the result are ones to which the call can lead.
#[verifier::external_body]
pub(crate) fn give_input(tls: &mut ServerConnection, bytes: &Vec<u8>) -> (result: Result<
    usize,
    std::io::Error,
>)
    ensures
        result is Ok <==> input_taken(*old(tls), bytes@) is Some,
        result matches Ok(count) ==> {
            &&& count <= bytes@.len()
            &&& input_taken(*old(tls), bytes@) == Some(count as nat)
        },
        input_given(*old(tls), *final(tls), bytes@, result),
{
    tls.read_tls(&mut bytes.as_slice())
}

/// `rustls::pki_types::CertificateDer`, a certificate.
#[verifier::external_type_specification]
#[verifier::external_body]
pub struct ExCertificateDer<'a>(rustls::pki_types::CertificateDer<'a>);

/// `rustls::pki_types::PrivateKeyDer`, a private key.
#[verifier::external_type_specification]
#[verifier::external_body]
pub struct ExPrivateKeyDer<'a>(rustls::pki_types::PrivateKeyDer<'a>);

/// The certificates that `rustls_pemfile::certs` reads from a PEM file, in order, or nothing
/// where it reports an error.
pub uninterp spec fn pem_certificates(pem: Seq<u8>) -> Option<Seq<CertificateDer<'static>>>;

/// The first private key that `rustls_pemfile::private_key` reads from a PEM file, if there is
/// one, or nothing where it reports an error.
pub uninterp spec fn pem_key(pem: Seq<u8>) -> Option<Option<PrivateKeyDer<'static>>>;

/// Whether `rustls_pemfile::certs` can report this error for a PEM file.
pub uninterp spec fn certificates_refused(pem: Seq<u8>, error: std::io::Error) -> bool;

/// Whether `rustls_pemfile::private_key` can report this error for a PEM file.
pub uninterp spec fn key_refused(pem: Seq<u8>, error: std::io::Error) -> bool;

/// Whether settings are ones that `ConfigBuilder::with_single_cert` can make of a certificate
/// chain and a private key.
pub uninterp spec fn made_of(
    config: ServerConfig,
    chain: Seq<CertificateDer<'static>>,
    key: PrivateKeyDer<'static>,
) -> bool;

/// Whether the builder of `ServerConfig` can report this error for a certificate chain and a
/// private key.
pub uninterp spec fn settings_refused(
    chain: Seq<CertificateDer<'static>>,
    key: PrivateKeyDer<'static>,
    error: rustls::Error,
) -> bool;

/// Calls `rustls_pemfile::certs` and collects the certificates. Claims that what is read
/// depends on the bytes alone, and that an error is one that it can report for them.
#[verifier::external_body]
fn read_certificates(pem: &Vec<u8>) -> (result: Result<
    Vec<CertificateDer<'static>>,
    std::io::Error,
>)
    ensures
        match result {
            Ok(chain) => pem_certificates(pem@) == Some(chain@),
            Err(error) => pem_certificates(pem@) is None && certificates_refused(pem@, error),
        },
{
    rustls_pemfile::certs(&mut pem.as_slice()).collect()
}

/// Calls `rustls_pemfile::private_key`. Claims that what is read depends on the bytes alone,
/// and that an error is one that it can report for them.
#[verifier::external_body]
fn read_key(pem: &Vec<u8>) -> (result: Result<Option<PrivateKeyDer<'static>>, std::io::Error>)
    ensures
        match result {
            Ok(key) => pem_key(pem@) == Some(key),
            Err(error) => pem_key(pem@) is None && key_refused(pem@, error),
        },
{
    rustls_pemfile::private_key(&mut pem.as_slice())
}

/// Calls `ConfigBuilder::with_single_cert` on a builder of `ServerConfig` for the `ring`
/// provider without client authentication. Claims that settings that it makes are made of the
/// chain and the key and that connections can be made from them, and that an error is one that
/// it can report for the two. That it makes settings wherever the key fits the chain is not
/// stated: some kinds of keys are loaded with the help of random bytes of the system, which can
/// be wanting.
#[verifier::external_body]
fn build_settings(chain: Vec<CertificateDer<'static>>, key: PrivateKeyDer<'static>) -> (result:
    Result<ServerConfig, rustls::Error>)
    ensures
        match result {
            Ok(config) => made_of(config, chain@, key) && connects(config),
            Err(error) => settings_refused(chain@, key, error),
        },
{
    let provider = Arc::new(rustls::crypto::ring::default_provider());
    ServerConfig::builder_with_provider(provider)
        .with_safe_default_protocol_versions()?
        .with_no_client_auth()
        .with_single_cert(chain, key)
}

/// Why TLS settings cannot be made.
pub enum SettingsError {
    /// The file with the certificates cannot be read.
    Certificates(std::io::Error),
    /// The file with the private key cannot be read.
    Key(std::io::Error),
    /// The file with the private key holds none.
    NoKey,
    /// The key is of no use, or not that of the certificate.
    Mismatch(rustls::Error),
}

/// Takes what came of making settings.
pub fn settle_settings(built: Result<ServerConfig, rustls::Error>) -> (result: Result<
    Arc<ServerConfig>,
    SettingsError,
>)
    ensures
        match built {
            Ok(config) => result matches Ok(shared) && *shared == config,
            Err(error) => result matches Err(SettingsError::Mismatch(told)) && told == error,
        },
{
    match built {
        Ok(config) => Ok(Arc::new(config)),
        Err(error) => Err(SettingsError::Mismatch(error)),
    }
}

/// Makes TLS settings of a PEM file with certificates and a PEM file with a private key.
pub fn settings_from_pem(cert_pem: &Vec<u8>, key_pem: &Vec<u8>) -> (result: Result<
    Arc<ServerConfig>,
    SettingsError,
>)
    ensures
        match pem_certificates(cert_pem@) {
            None => {
                &&& result matches Err(SettingsError::Certificates(error))
                &&& certificates_refused(cert_pem@, error)
            },
            Some(chain) => match pem_key(key_pem@) {
                None => {
                    &&& result matches Err(SettingsError::Key(error))
                    &&& key_refused(key_pem@, error)
                },
                Some(None) => result is Err && result->Err_0 is NoKey,
                Some(Some(key)) => match result {
                    Ok(config) => made_of(*config, chain, key) && connects(*config),
                    Err(error) => {
                        &&& error matches SettingsError::Mismatch(told)
                        &&& settings_refused(chain, key, told)
                    },
                },
            },
        },
{
    let chain = match read_certificates(cert_pem) {
        Ok(chain) => chain,
        Err(error) => return Err(SettingsError::Certificates(error)),
    };
    match read_key(key_pem) {
        Err(error) => Err(SettingsError::Key(error)),
        Ok(None) => Err(SettingsError::NoKey),
        Ok(Some(key)) => settle_settings(build_settings(chain, key)),
    }
}

} // verus!
