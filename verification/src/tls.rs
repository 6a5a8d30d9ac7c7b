use vstd::prelude::*;

use crate::errors::ServerError;

verus! {

#[verifier::external_type_specification]
#[verifier::external_body]
pub struct ExCertificateDer<'a>(rustls::pki_types::CertificateDer<'a>);

#[verifier::external_type_specification]
#[verifier::external_body]
pub struct ExPrivatePkcs8KeyDer<'a>(rustls::pki_types::PrivatePkcs8KeyDer<'a>);

#[verifier::external_type_specification]
#[verifier::external_body]
pub struct ExServerConfig(rustls::ServerConfig);

/// What rustls_pemfile::certs makes of a byte stream: the number of
/// certificate sections it decodes, or nothing when a section is
/// malformed. A function of the bytes alone.
pub uninterp spec fn pem_certs(bytes: Seq<u8>) -> Option<nat>;

/// What rustls_pemfile::pkcs8_private_keys makes of a byte stream: the
/// number of PKCS#8 key sections it decodes, or nothing when a section
/// is malformed. A function of the bytes alone.
pub uninterp spec fn pem_pkcs8_keys(bytes: Seq<u8>) -> Option<nat>;

/// Relies on rustls_pemfile::certs: decodes the certificate sections of
/// a PEM byte stream, in order, failing when one is malformed.
#[verifier::external_body]
fn read_certs(bytes: &[u8]) -> (r: Option<Vec<rustls::pki_types::CertificateDer<'static>>>)
    ensures
        r is Some <==> pem_certs(bytes@) is Some,
        r is Some ==> Some(r->0@.len() as nat) == pem_certs(bytes@),
{
    let mut rd: &[u8] = bytes;
    rustls_pemfile::certs(&mut rd).collect::<Result<Vec<_>, _>>().ok()
}

/// Relies on rustls_pemfile::pkcs8_private_keys: decodes the PKCS#8 key
/// sections of a PEM byte stream, in order, failing when one is
/// malformed.
#[verifier::external_body]
fn read_pkcs8_keys(bytes: &[u8]) -> (r: Option<
    Vec<rustls::pki_types::PrivatePkcs8KeyDer<'static>>,
>)
    ensures
        r is Some <==> pem_pkcs8_keys(bytes@) is Some,
        r is Some ==> Some(r->0@.len() as nat) == pem_pkcs8_keys(bytes@),
{
    let mut rd: &[u8] = bytes;
    rustls_pemfile::pkcs8_private_keys(&mut rd).collect::<Result<Vec<_>, _>>().ok()
}

/// Whether the TLS library accepts the certificate chain decoded from
/// the first byte stream together with the last PKCS#8 key decoded from
/// the second. A function of the bytes alone: the decoding is
/// deterministic, and exactly one crypto provider is compiled in.
pub uninterp spec fn tls_accepts(cert: Seq<u8>, key: Seq<u8>) -> bool;

/// The two streams decode, a key is present, and the TLS library
/// accepts the decoded chain with the last decoded key.
pub open spec fn usable_material(cert: Seq<u8>, key: Seq<u8>) -> bool {
    &&& pem_certs(cert) is Some
    &&& pem_pkcs8_keys(key) is Some
    &&& pem_pkcs8_keys(key)->0 >= 1
    &&& tls_accepts(cert, key)
}

/// Relies on rustls's ServerConfig builder, over rustls_pemfile's
/// deterministic decoding: builds a server configuration with no client
/// authentication from the decoded chain and the last decoded key. It
/// succeeds exactly when both streams decode, a key is present, and the
/// TLS library accepts the pair.
#[verifier::external_body]
fn build_server_config(cert_bytes: &[u8], key_bytes: &[u8]) -> (r: Option<rustls::ServerConfig>)
    ensures
        r is Some <==> usable_material(cert_bytes@, key_bytes@),
        r is Some ==> tls_accepts(cert_bytes@, key_bytes@),
{
    let (mut cr, mut kr): (&[u8], &[u8]) = (cert_bytes, key_bytes);
    let certs = rustls_pemfile::certs(&mut cr).collect::<Result<Vec<_>, _>>().ok()?;
    let mut keys = rustls_pemfile::pkcs8_private_keys(&mut kr).collect::<Result<Vec<_>, _>>().ok()?;
    let key = keys.pop()?;
    rustls::ServerConfig::builder()
        .with_no_client_auth()
        .with_single_cert(certs, rustls::pki_types::PrivateKeyDer::Pkcs8(key))
        .ok()
}

/// What a server configuration build outcome means for the run: material
/// the TLS library accepted is served with; material it rejected counts
/// against the certificate.
pub fn material_outcome(built: Option<rustls::ServerConfig>) -> (r: Result<
    rustls::ServerConfig,
    ServerError,
>)
    ensures
        built is Some ==> r is Ok && r->Ok_0 == built->0,
        built is None ==> r is Err && r->Err_0 is CertLoad,
{
    match built {
        Some(c) => Ok(c),
        None => Err(ServerError::CertLoad),
    }
}

/// Build the server-side TLS configuration from the contents of the
/// certificate and key files. An unreadable chain is a certificate
/// error; a key stream that is malformed or holds no PKCS#8 key is a key
/// error; a chain with no certificate is a certificate error. On
/// material that decodes with a certificate and a key, the last key is
/// offered to the TLS library and the result follows its acceptance of
/// the pair, exactly: acceptance succeeds, rejection counts against the
/// certificate, and no key error is reported.
pub fn load_tls_config(cert_bytes: &[u8], key_bytes: &[u8]) -> (r: Result<
    rustls::ServerConfig,
    ServerError,
>)
    ensures
        pem_certs(cert_bytes@) is None ==> r is Err && r->Err_0 is CertLoad,
        pem_certs(cert_bytes@) is Some && pem_pkcs8_keys(key_bytes@) is None ==> r is Err
            && r->Err_0 is KeyLoad,
        pem_certs(cert_bytes@) is Some && pem_pkcs8_keys(key_bytes@) == Some(0nat) ==> r is Err
            && r->Err_0 is KeyLoad,
        pem_certs(cert_bytes@) == Some(0nat) ==> r is Err,
        pem_certs(cert_bytes@) is Some && pem_pkcs8_keys(key_bytes@) is Some && pem_pkcs8_keys(
            key_bytes@,
        )->0 >= 1 ==> !(r is Err && r->Err_0 is KeyLoad),
        pem_certs(cert_bytes@) is Some && pem_certs(cert_bytes@)->0 >= 1 && pem_pkcs8_keys(
            key_bytes@,
        ) is Some && pem_pkcs8_keys(key_bytes@)->0 >= 1 ==> (r is Ok <==> tls_accepts(
            cert_bytes@,
            key_bytes@,
        )),
        r is Err ==> r->Err_0 is CertLoad || r->Err_0 is KeyLoad,
        r is Ok ==> pem_certs(cert_bytes@) is Some && pem_certs(cert_bytes@)->0 >= 1
            && pem_pkcs8_keys(key_bytes@) is Some && pem_pkcs8_keys(key_bytes@)->0 >= 1
            && tls_accepts(cert_bytes@, key_bytes@),
{
    let certs = match read_certs(cert_bytes) {
        Some(c) => c,
        None => {
            return Err(ServerError::CertLoad);
        },
    };
    let keys = match read_pkcs8_keys(key_bytes) {
        Some(k) => k,
        None => {
            return Err(ServerError::KeyLoad);
        },
    };
    if keys.len() == 0 {
        return Err(ServerError::KeyLoad);
    }
    if certs.len() == 0 {
        return Err(ServerError::CertLoad);
    }
    material_outcome(build_server_config(cert_bytes, key_bytes))
}

/// How one accepted connection's TLS handshake ended.
#[derive(Clone, Copy, Debug, PartialEq, Eq)]
pub enum HandshakeOutcome {
    Completed,
    Failed,
}

/// One outcome of the accept loop: a connection, identified by its
/// arrival, with its handshake outcome; or an error from the listening
/// socket itself.
#[derive(Clone, Copy, Debug, PartialEq, Eq)]
pub enum AcceptEvent {
    Connection(u64, HandshakeOutcome),
    SocketError,
}

/// The fate of one accept-loop outcome.
#[derive(Clone, Copy, Debug, PartialEq, Eq)]
pub enum AcceptDecision {
    /// Hand the encrypted connection on to the router.
    Serve,
    /// Drop this connection alone; the listener carries on.
    DropConnection,
    /// Stop the listener; the failure is the socket's, not a client's.
    FatalStop,
}

/// Decide the fate of one accept-loop outcome: a completed handshake is
/// served; a failed handshake drops only that connection; an error from
/// the socket itself stops the listener.
pub fn classify_accept(e: &AcceptEvent) -> (d: AcceptDecision)
    ensures
        d is Serve <==> e matches AcceptEvent::Connection(_, HandshakeOutcome::Completed),
        d is DropConnection <==> e matches AcceptEvent::Connection(_, HandshakeOutcome::Failed),
        d is FatalStop <==> *e is SocketError,
{
    match e {
        AcceptEvent::Connection(_, HandshakeOutcome::Completed) => AcceptDecision::Serve,
        AcceptEvent::Connection(_, HandshakeOutcome::Failed) => AcceptDecision::DropConnection,
        AcceptEvent::SocketError => AcceptDecision::FatalStop,
    }
}

/// The connections a TLS listener hands on, given the accept outcomes in
/// order: every connection whose handshake completed, up to the first
/// error of the socket itself, which ends the sequence.
pub open spec fn served_of(events: Seq<AcceptEvent>) -> Seq<u64>
    decreases events.len(),
{
    if events.len() == 0 {
        Seq::empty()
    } else {
        match events[0] {
            AcceptEvent::SocketError => Seq::empty(),
            AcceptEvent::Connection(id, HandshakeOutcome::Completed) => seq![id] + served_of(
                events.drop_first(),
            ),
            AcceptEvent::Connection(id, HandshakeOutcome::Failed) => served_of(
                events.drop_first(),
            ),
        }
    }
}

/// No more connections are served than outcomes were observed.
pub proof fn lemma_served_len_le(events: Seq<AcceptEvent>)
    ensures
        served_of(events).len() <= events.len(),
    decreases events.len(),
{
    if events.len() > 0 {
        lemma_served_len_le(events.drop_first());
    }
}

/// A client whose handshake fails is dropped alone: the connections
/// served around it, and their order, are exactly what they would have
/// been had that client never connected.
pub proof fn lemma_failed_handshake_isolated(a: Seq<AcceptEvent>, id: u64, b: Seq<AcceptEvent>)
    ensures
        served_of(a + seq![AcceptEvent::Connection(id, HandshakeOutcome::Failed)] + b)
            == served_of(a + b),
    decreases a.len(),
{
    let failed = seq![AcceptEvent::Connection(id, HandshakeOutcome::Failed)];
    if a.len() == 0 {
        assert(a + failed + b =~= failed + b);
        assert((failed + b).drop_first() =~= b);
        assert(a + b =~= b);
    } else {
        assert((a + failed + b)[0] == a[0]);
        assert((a + b)[0] == a[0]);
        assert((a + failed + b).drop_first() =~= a.drop_first() + failed + b);
        assert((a + b).drop_first() =~= a.drop_first() + b);
        lemma_failed_handshake_isolated(a.drop_first(), id, b);
    }
}

/// An error of the listening socket itself ends the sequence: nothing
/// after it is served, whatever it is.
pub proof fn lemma_socket_error_stops(a: Seq<AcceptEvent>, b: Seq<AcceptEvent>)
    ensures
        served_of(a + seq![AcceptEvent::SocketError] + b) == served_of(
            a + seq![AcceptEvent::SocketError],
        ),
    decreases a.len(),
{
    let stop = seq![AcceptEvent::SocketError];
    if a.len() == 0 {
        assert(a + stop + b =~= stop + b);
        assert(a + stop =~= stop);
    } else {
        assert((a + stop + b)[0] == a[0]);
        assert((a + stop)[0] == a[0]);
        assert((a + stop + b).drop_first() =~= a.drop_first() + stop + b);
        assert((a + stop).drop_first() =~= a.drop_first() + stop);
        lemma_socket_error_stops(a.drop_first(), b);
    }
}

fn count_served_from(events: &Vec<AcceptEvent>, i: usize) -> (n: usize)
    requires
        i <= events@.len(),
    ensures
        n == served_of(events@.subrange(i as int, events@.len() as int)).len(),
    decreases events@.len() - i,
{
    let ghost rest = events@.subrange(i as int, events@.len() as int);
    if i == events.len() {
        return 0;
    }
    proof {
        assert(rest[0] == events@[i as int]);
        assert(rest.drop_first() =~= events@.subrange((i + 1) as int, events@.len() as int));
        lemma_served_len_le(rest.drop_first());
    }
    match events[i] {
        AcceptEvent::SocketError => 0,
        AcceptEvent::Connection(_, HandshakeOutcome::Completed) => 1 + count_served_from(
            events,
            i + 1,
        ),
        AcceptEvent::Connection(_, HandshakeOutcome::Failed) => count_served_from(events, i + 1),
    }
}

/// How many connections a listener that saw these outcomes hands on.
pub fn count_served(events: &Vec<AcceptEvent>) -> (n: usize)
    ensures
        n == served_of(events@).len(),
{
    proof {
        assert(events@.subrange(0, events@.len() as int) =~= events@);
    }
    count_served_from(events, 0)
}

} // verus!
