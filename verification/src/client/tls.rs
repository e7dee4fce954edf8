//! Encrypted connections: whom to trust, and as whom to appear.

use vstd::prelude::*;
use vstd::string::*;

use crate::client::error::ClientError;
use crate::text::{copy_text, text_option};

verus! {

/// How a connection is encrypted.
#[derive(Debug, Clone)]
pub struct TlsClientConfig {
    /// The file of the certificates to trust.
    pub ca_path: Option<String>,
    /// The file of the client's certificate.
    pub client_cert_path: Option<String>,
    /// The file of the client's private key.
    pub client_key_path: Option<String>,
    /// The name that the server must prove to have.
    pub server_name: Option<String>,
}

/// The name that a server must prove to have.
#[derive(Debug, Clone)]
pub enum ServerName {
    DnsName(String),
    IpAddress(String),
}

/// What `rustls::pki_types::ServerName::try_from` makes of a text: nothing, or
/// a name, of which is told whether it is a DNS name and how it is written.
pub uninterp spec fn server_name_parts(name: Seq<char>) -> Option<(bool, Seq<char>)>;

/// `rustls::pki_types::ServerName::try_from`, and `to_str` of what it gives: the
/// text as a DNS name, which is written as the text is, or else as an IP
/// address, or else an error, of which there is only one. Which texts are names
/// is left unsaid.
#[verifier::external_body]
fn server_name_from(name: &str) -> (r: Result<(bool, String), String>)
    ensures
        match r {
            Ok((dns, text)) => server_name_parts(name@) == Some((dns, text@)) && (dns ==> text@
                == name@),
            Err(text) => server_name_parts(name@) is None && text@ == "invalid dns name"@,
        },
{
    match rustls::pki_types::ServerName::try_from(name.to_owned()) {
        Ok(n) => Ok((matches!(n, rustls::pki_types::ServerName::DnsName(_)), n.to_str().into_owned())),
        Err(e) => Err(e.to_string()),
    }
}

/// An error is one of encryption, with a text.
pub open spec fn is_tls_error(e: ClientError, text: Seq<char>) -> bool {
    e matches ClientError::Tls(s) && s@ == text
}

/// The name of a server as it is taken, or the error where it is none.
pub fn named_server(name: &str, parts: Result<(bool, String), String>) -> (r: Result<
    ServerName,
    ClientError,
>)
    ensures
        match parts {
            Ok((true, text)) => r matches Ok(ServerName::DnsName(s)) && s == text,
            Ok((false, text)) => r matches Ok(ServerName::IpAddress(s)) && s == text,
            Err(text) => r matches Err(e) && is_tls_error(
                e,
                "invalid server name '"@ + name@ + "': "@ + text@,
            ),
        },
{
    match parts {
        Ok((dns, text)) => if dns {
            Ok(ServerName::DnsName(text))
        } else {
            Ok(ServerName::IpAddress(text))
        },
        Err(text) => Err(
            ClientError::Tls(
                "invalid server name '".to_owned().concat(name).concat("': ").concat(
                    text.as_str(),
                ),
            ),
        ),
    }
}

impl TlsClientConfig {
    /// The configuration that trusts the certificates of a file.
    pub fn with_ca(ca_path: &str) -> (c: Self)
        ensures
            text_option(c.ca_path) == Some(ca_path@),
            c.client_cert_path is None,
            c.client_key_path is None,
            c.server_name is None,
    {
        TlsClientConfig {
            ca_path: Some(ca_path.to_owned()),
            client_cert_path: None,
            client_key_path: None,
            server_name: None,
        }
    }

    /// The name that the server must prove to have, as it is configured.
    pub open spec fn wanted_name(self) -> Seq<char> {
        match self.server_name {
            Some(n) => n@,
            None => "localhost"@,
        }
    }

    /// The name that the server must prove to have.
    pub fn server_name(&self) -> (r: Result<ServerName, ClientError>)
        ensures
            match server_name_parts(self.wanted_name()) {
                Some((true, text)) => r matches Ok(ServerName::DnsName(s)) && s@ == text && text
                    == self.wanted_name(),
                Some((false, text)) => r matches Ok(ServerName::IpAddress(s)) && s@ == text,
                None => r matches Err(e) && is_tls_error(
                    e,
                    "invalid server name '"@ + self.wanted_name() + "': "@ + "invalid dns name"@,
                ),
            },
    {
        let name: String = match &self.server_name {
            Some(n) => n.clone(),
            None => "localhost".to_owned(),
        };
        named_server(name.as_str(), server_name_from(name.as_str()))
    }

    /// The files of the certificate and the private key as which to appear:
    /// only where both are configured.
    pub fn client_auth(&self) -> (r: Option<(String, String)>)
        ensures
            match (text_option(self.client_cert_path), text_option(self.client_key_path)) {
                (Some(cert), Some(key)) => r matches Some((c, k)) && c@ == cert && k@ == key,
                _ => r is None,
            },
    {
        match (copy_text(&self.client_cert_path), copy_text(&self.client_key_path)) {
            (Some(cert), Some(key)) => Some((cert, key)),
            _ => None,
        }
    }
}

/// A file, as far as it could be read.
#[derive(Debug)]
pub enum FileContent {
    /// It could not be opened, for this reason.
    Unopened(String),
    /// It could not be read to its end, for this reason, but for the bytes that
    /// came before.
    Unread { read: Vec<u8>, error: String },
    Bytes(Vec<u8>),
}

/// What byte vectors hold.
pub open spec fn byte_lists(v: Seq<Vec<u8>>) -> Seq<Seq<u8>> {
    Seq::new(v.len(), |i: int| v[i]@)
}

/// What `rustls_pemfile::certs` gives, one after the other, up to the first
/// error: the certificates, or the text of the error.
pub uninterp spec fn pem_certificates(pem: Seq<u8>) -> Result<Seq<Seq<u8>>, Seq<char>>;

/// `rustls_pemfile::certs`: the certificates in a PEM text. Which sections of
/// it they are is left unsaid.
#[verifier::external_body]
fn certs_in_pem(pem: &[u8]) -> (r: Result<Vec<Vec<u8>>, String>)
    ensures
        match r {
            Ok(v) => pem_certificates(pem@) == Ok::<Seq<Seq<u8>>, Seq<char>>(byte_lists(v@)),
            Err(text) => pem_certificates(pem@) == Err::<Seq<Seq<u8>>, Seq<char>>(text@),
        },
{
    let mut rest: &[u8] = pem;
    let found: Result<Vec<_>, _> = rustls_pemfile::certs(&mut rest).collect();
    match found {
        Ok(v) => Ok(v.into_iter().map(|c| c.to_vec()).collect()),
        Err(e) => Err(e.to_string()),
    }
}

/// The certificates of a file, of which there must be one at least.
pub fn certs_found(path: &str, parsed: Result<Vec<Vec<u8>>, String>) -> (r: Result<
    Vec<Vec<u8>>,
    ClientError,
>)
    ensures
        match parsed {
            Ok(v) => if v@.len() == 0 {
                r matches Err(e) && is_tls_error(e, "no certificates found in "@ + path@)
            } else {
                r == Ok::<Vec<Vec<u8>>, ClientError>(v)
            },
            Err(text) => r matches Err(e) && is_tls_error(
                e,
                "failed to parse certs from "@ + path@ + ": "@ + text@,
            ),
        },
{
    match parsed {
        Ok(v) => {
            if v.len() == 0 {
                return Err(ClientError::Tls("no certificates found in ".to_owned().concat(path)));
            }
            Ok(v)
        },
        Err(text) => Err(
            ClientError::Tls(
                "failed to parse certs from ".to_owned().concat(path).concat(": ").concat(
                    text.as_str(),
                ),
            ),
        ),
    }
}

/// The certificates of a file, or why there are none.
pub open spec fn loaded_certs(path: Seq<char>, file: FileContent) -> Result<
    Seq<Seq<u8>>,
    Seq<char>,
> {
    match file {
        FileContent::Unopened(text) => Err("failed to open cert file "@ + path + ": "@ + text@),
        FileContent::Unread { read, error } => Err(
            "failed to parse certs from "@ + path + ": "@ + match scanned(up_to_fault(read@), false) {
                Err(text) => text,
                Ok(_) => error@,
            },
        ),
        FileContent::Bytes(pem) => match pem_certificates(pem@) {
            Ok(certs) => if certs.len() == 0 {
                Err("no certificates found in "@ + path)
            } else {
                Ok(certs)
            },
            Err(text) => Err("failed to parse certs from "@ + path + ": "@ + text),
        },
    }
}

/// The certificates of a file.
pub fn load_certs(path: &str, file: &FileContent) -> (r: Result<Vec<Vec<u8>>, ClientError>)
    ensures
        match loaded_certs(path@, *file) {
            Ok(certs) => r matches Ok(v) && byte_lists(v@) == certs,
            Err(text) => r matches Err(e) && is_tls_error(e, text),
        },
{
    match file {
        FileContent::Unopened(text) => Err(
            ClientError::Tls(
                "failed to open cert file ".to_owned().concat(path).concat(": ").concat(
                    text.as_str(),
                ),
            ),
        ),
        FileContent::Unread { read, error } => match scan(lines_to_fault(read).as_slice(), false) {
            Err(text) => certs_found(path, Err(text)),
            Ok(_) => certs_found(path, Err(error.clone())),
        },
        FileContent::Bytes(pem) => certs_found(path, certs_in_pem(pem.as_slice())),
    }
}

/// A section of a PEM text.
#[derive(Debug)]
pub enum PemItem {
    Pkcs1Key(Vec<u8>),
    Pkcs8Key(Vec<u8>),
    Sec1Key(Vec<u8>),
    /// Anything that is no private key.
    Other,
}

/// What a section of a PEM text is.
pub enum PemItemModel {
    Pkcs1Key(Seq<u8>),
    Pkcs8Key(Seq<u8>),
    Sec1Key(Seq<u8>),
    Other,
}

impl View for PemItem {
    type V = PemItemModel;

    open spec fn view(&self) -> PemItemModel {
        match self {
            PemItem::Pkcs1Key(v) => PemItemModel::Pkcs1Key(v@),
            PemItem::Pkcs8Key(v) => PemItemModel::Pkcs8Key(v@),
            PemItem::Sec1Key(v) => PemItemModel::Sec1Key(v@),
            PemItem::Other => PemItemModel::Other,
        }
    }
}

/// What `rustls_pemfile::read_one` gives: the next section, none, or the text of
/// an error; and what it leaves of the PEM text.
pub uninterp spec fn pem_next(pem: Seq<u8>) -> (Result<Option<PemItemModel>, Seq<char>>, Seq<u8>);

/// `rustls_pemfile::read_one`: the next section of a PEM text, which it takes
/// from its front. Which bytes are a section is left unsaid.
#[verifier::external_body]
fn read_pem(rest: &mut &[u8]) -> (r: Result<Option<PemItem>, String>)
    ensures
        pem_next(old(rest)@) == (
            match r {
                Ok(Some(item)) => Ok::<Option<PemItemModel>, Seq<char>>(Some(item@)),
                Ok(None) => Ok::<Option<PemItemModel>, Seq<char>>(None),
                Err(text) => Err::<Option<PemItemModel>, Seq<char>>(text@),
            },
            final(rest)@,
        ),
        r matches Ok(Some(_)) ==> final(rest)@.len() < old(rest)@.len(),
{
    match rustls_pemfile::read_one(rest) {
        Ok(Some(rustls_pemfile::Item::Pkcs1Key(k))) => Ok(Some(PemItem::Pkcs1Key(k.secret_pkcs1_der().to_vec()))),
        Ok(Some(rustls_pemfile::Item::Pkcs8Key(k))) => Ok(Some(PemItem::Pkcs8Key(k.secret_pkcs8_der().to_vec()))),
        Ok(Some(rustls_pemfile::Item::Sec1Key(k))) => Ok(Some(PemItem::Sec1Key(k.secret_sec1_der().to_vec()))),
        Ok(Some(_)) => Ok(Some(PemItem::Other)),
        Ok(None) => Ok(None),
        Err(e) => Err(e.to_string()),
    }
}

/// The first private key of a PEM text, none, or the text of the error that
/// comes before one.
pub open spec fn first_key(pem: Seq<u8>) -> Result<Option<PemItemModel>, Seq<char>>
    decreases pem.len(),
{
    let (next, rest) = pem_next(pem);
    match next {
        Ok(Some(PemItemModel::Other)) => if rest.len() < pem.len() {
            first_key(rest)
        } else {
            next
        },
        _ => next,
    }
}

/// Whether a byte ends a line of a PEM text.
pub open spec fn ends_line(b: u8) -> bool {
    b == 10 || b == 13
}

/// The lines of a text that are there to their end.
pub open spec fn whole_lines(b: Seq<u8>) -> Seq<u8>
    decreases b.len(),
{
    if b.len() == 0 || ends_line(b.last()) {
        b
    } else {
        whole_lines(b.drop_last())
    }
}

/// What is looked at of a text that could be read only in part: the lines that
/// are there to their end, and an empty line where the rest is missing. A
/// reader that takes that line too has found nothing before it, and so would
/// have met the fault.
pub open spec fn up_to_fault(b: Seq<u8>) -> Seq<u8> {
    whole_lines(b).push(10)
}

/// What is found in a text up to where the rest is missing: the first private
/// key, where one is wanted; the text of an error that comes before; or nothing,
/// and then the fault is met.
pub open spec fn scanned(pem: Seq<u8>, for_key: bool) -> Result<Option<PemItemModel>, Seq<char>>
    decreases pem.len(),
{
    let (next, rest) = pem_next(pem);
    match next {
        Ok(Some(item)) => if for_key && !(item is Other) {
            Ok(Some(item))
        } else if rest.len() < pem.len() {
            scanned(rest, for_key)
        } else {
            Ok(None)
        },
        Ok(None) => Ok(None),
        Err(text) => if rest.len() > 0 {
            Err(text)
        } else {
            Ok(None)
        },
    }
}

fn lines_to_fault(b: &Vec<u8>) -> (v: Vec<u8>)
    ensures
        v@ == up_to_fault(b@),
{
    let mut n: usize = b.len();
    assert(b@.take(n as int) =~= b@);
    while n > 0 && b[n - 1] != 10 && b[n - 1] != 13
        invariant
            n <= b@.len(),
            whole_lines(b@.take(n as int)) == whole_lines(b@),
        decreases n,
    {
        assert(b@.take(n as int).drop_last() =~= b@.take(n - 1));
        n = n - 1;
    }
    assert(whole_lines(b@.take(n as int)) == b@.take(n as int));
    let mut v: Vec<u8> = Vec::new();
    let mut i: usize = 0;
    while i < n
        invariant
            i <= n <= b@.len(),
            v@ == b@.take(i as int),
        decreases n - i,
    {
        v.push(b[i]);
        assert(b@.take(i + 1) =~= b@.take(i as int).push(b@[i as int]));
        i = i + 1;
    }
    v.push(10);
    v
}

fn scan(pem: &[u8], for_key: bool) -> (r: Result<Option<PemItem>, String>)
    ensures
        match r {
            Ok(Some(key)) => scanned(pem@, for_key) == Ok::<Option<PemItemModel>, Seq<char>>(
                Some(key@),
            ) && !(key is Other),
            Ok(None) => scanned(pem@, for_key) == Ok::<Option<PemItemModel>, Seq<char>>(None),
            Err(text) => scanned(pem@, for_key) == Err::<Option<PemItemModel>, Seq<char>>(text@),
        },
{
    let mut rest: &[u8] = pem;
    loop
        invariant
            scanned(rest@, for_key) == scanned(pem@, for_key),
        decreases rest@.len(),
    {
        let ghost before = rest@;
        match read_pem(&mut rest) {
            Ok(Some(item)) => {
                let other: bool = match &item {
                    PemItem::Other => true,
                    _ => false,
                };
                if for_key && !other {
                    return Ok(Some(item));
                }
                assert(scanned(before, for_key) == scanned(rest@, for_key));
            },
            Ok(None) => {
                return Ok(None);
            },
            Err(text) => {
                if rest.len() > 0 {
                    return Err(text);
                }
                return Ok(None);
            },
        }
    }
}

/// The private key of a file, the first one there is, or why there is none.
pub open spec fn loaded_key(path: Seq<char>, file: FileContent) -> Result<
    PemItemModel,
    Seq<char>,
> {
    match file {
        FileContent::Unopened(text) => Err("failed to open key file "@ + path + ": "@ + text@),
        FileContent::Unread { read, error } => match scanned(up_to_fault(read@), true) {
            Ok(Some(key)) => Ok(key),
            Ok(None) => Err("failed to parse key from "@ + path + ": "@ + error@),
            Err(text) => Err("failed to parse key from "@ + path + ": "@ + text),
        },
        FileContent::Bytes(pem) => match first_key(pem@) {
            Ok(Some(key)) => Ok(key),
            Ok(None) => Err("no private key found in "@ + path),
            Err(text) => Err("failed to parse key from "@ + path + ": "@ + text),
        },
    }
}

/// The private key of a file: the first one there is.
pub fn load_private_key(path: &str, file: &FileContent) -> (r: Result<PemItem, ClientError>)
    ensures
        match loaded_key(path@, *file) {
            Ok(key) => r matches Ok(k) && k@ == key && !(k is Other),
            Err(text) => r matches Err(e) && is_tls_error(e, text),
        },
{
    match file {
        FileContent::Unopened(text) => Err(
            ClientError::Tls(
                "failed to open key file ".to_owned().concat(path).concat(": ").concat(
                    text.as_str(),
                ),
            ),
        ),
        FileContent::Unread { read, error } => match scan(lines_to_fault(read).as_slice(), true) {
            Ok(None) => key_found(path, Err(error.clone())),
            found => key_found(path, found),
        },
        FileContent::Bytes(pem) => key_found(path, first_key_in_pem(pem.as_slice())),
    }
}

fn first_key_in_pem(pem: &[u8]) -> (r: Result<Option<PemItem>, String>)
    ensures
        match r {
            Ok(Some(key)) => first_key(pem@) == Ok::<Option<PemItemModel>, Seq<char>>(Some(key@))
                && !(key is Other),
            Ok(None) => first_key(pem@) == Ok::<Option<PemItemModel>, Seq<char>>(None),
            Err(text) => first_key(pem@) == Err::<Option<PemItemModel>, Seq<char>>(text@),
        },
{
    let mut rest: &[u8] = pem;
    loop
        invariant
            first_key(rest@) == first_key(pem@),
        decreases rest@.len(),
    {
        let ghost before = rest@;
        match read_pem(&mut rest) {
            Ok(Some(PemItem::Other)) => {
                assert(first_key(before) == first_key(rest@));
            },
            found => {
                return found;
            },
        }
    }
}

/// The private key of a file, by the first section of it that is one.
pub fn key_found(path: &str, found: Result<Option<PemItem>, String>) -> (r: Result<
    PemItem,
    ClientError,
>)
    ensures
        match found {
            Ok(Some(key)) => r == Ok::<PemItem, ClientError>(key),
            Ok(None) => r matches Err(e) && is_tls_error(e, "no private key found in "@ + path@),
            Err(text) => r matches Err(e) && is_tls_error(
                e,
                "failed to parse key from "@ + path@ + ": "@ + text@,
            ),
        },
{
    match found {
        Ok(Some(key)) => Ok(key),
        Ok(None) => Err(ClientError::Tls("no private key found in ".to_owned().concat(path))),
        Err(text) => Err(
            ClientError::Tls(
                "failed to parse key from ".to_owned().concat(path).concat(": ").concat(
                    text.as_str(),
                ),
            ),
        ),
    }
}

/// The certificates that are trusted.
#[verifier::external_type_specification]
#[verifier::external_body]
pub struct ExRootCertStore(rustls::RootCertStore);

/// Whom to trust: a subject, its public key, and the names it may vouch for
/// where they are limited.
pub struct Anchor {
    pub subject: Seq<u8>,
    pub public_key: Seq<u8>,
    pub constraints: Option<Seq<u8>>,
}

/// The field `roots` of a `rustls::RootCertStore`: whom it trusts, in the order
/// in which they were added.
pub uninterp spec fn anchors_in(store: rustls::RootCertStore) -> Seq<Anchor>;

/// What `rustls::RootCertStore::add` takes from a certificate, or the text of
/// its error.
pub uninterp spec fn anchor_from(der: Seq<u8>) -> Result<Anchor, Seq<char>>;

/// `rustls::RootCertStore::empty`: nobody is trusted.
#[verifier::external_body]
fn no_roots() -> (store: rustls::RootCertStore)
    ensures
        anchors_in(store) == Seq::<Anchor>::empty(),
{
    rustls::RootCertStore::empty()
}

/// `rustls::RootCertStore::add`: whom a certificate is for is added at the end,
/// or the store is left as it was and there is an error.  Which certificates it
/// takes is left unsaid.
#[verifier::external_body]
fn add_root(store: &mut rustls::RootCertStore, der: &[u8]) -> (r: Result<(), String>)
    ensures
        match r {
            Ok(_) => anchor_from(der@) matches Ok(a) && anchors_in(*final(store)) == anchors_in(
                *old(store),
            ).push(a),
            Err(text) => anchor_from(der@) == Err::<Anchor, Seq<char>>(text@) && anchors_in(
                *final(store),
            ) == anchors_in(*old(store)),
        },
{
    store.add(rustls::pki_types::CertificateDer::from(der)).map_err(|e| e.to_string())
}

/// Whom a list of certificates is for, or why one of them cannot be trusted.
pub open spec fn anchors_of(certs: Seq<Seq<u8>>) -> Result<Seq<Anchor>, Seq<char>>
    decreases certs.len(),
{
    if certs.len() == 0 {
        Ok(Seq::empty())
    } else {
        match anchors_of(certs.drop_last()) {
            Ok(before) => match anchor_from(certs.last()) {
                Ok(a) => Ok(before.push(a)),
                Err(text) => Err("failed to add CA certificate: "@ + text),
            },
            Err(text) => Err(text),
        }
    }
}

/// One certificate more changes nothing where one before it is refused.
proof fn lemma_refused(certs: Seq<Seq<u8>>, n: int)
    requires
        0 <= n <= certs.len(),
        anchors_of(certs.take(n)) is Err,
    ensures
        anchors_of(certs) == anchors_of(certs.take(n)),
    decreases certs.len(),
{
    if n < certs.len() {
        assert(certs.drop_last().take(n) =~= certs.take(n));
        lemma_refused(certs.drop_last(), n);
    } else {
        assert(certs.take(n) =~= certs);
    }
}

/// The store of those whom a list of certificates is for.
fn roots_of(certs: &Vec<Vec<u8>>) -> (r: Result<rustls::RootCertStore, ClientError>)
    ensures
        match anchors_of(byte_lists(certs@)) {
            Ok(anchors) => r matches Ok(store) && anchors_in(store) == anchors,
            Err(text) => r matches Err(e) && is_tls_error(e, text),
        },
{
    let mut store = no_roots();
    let ghost all = byte_lists(certs@);
    for i in 0..certs.len()
        invariant
            all == byte_lists(certs@),
            anchors_of(all.take(i as int)) == Ok::<Seq<Anchor>, Seq<char>>(anchors_in(store)),
    {
        proof {
            assert(all.take(i + 1).drop_last() =~= all.take(i as int));
            assert(all.take(i + 1).last() == certs@[i as int]@);
        }
        match add_root(&mut store, certs[i].as_slice()) {
            Ok(_) => {},
            Err(text) => {
                proof {
                    lemma_refused(all, i + 1);
                }
                return Err(
                    ClientError::Tls(
                        "failed to add CA certificate: ".to_owned().concat(text.as_str()),
                    ),
                );
            },
        }
    }
    assert(all.take(certs@.len() as int) =~= all);
    Ok(store)
}

/// Whom a client trusts, and as whom it appears.
pub struct ConnectorPlan {
    pub roots: rustls::RootCertStore,
    /// The certificates and the private key of the client.
    pub auth: Option<(Vec<Vec<u8>>, PemItem)>,
}

/// What is found in the files of a client: whom to trust, and as whom to
/// appear.
pub struct ConnectorModel {
    pub roots: Seq<Anchor>,
    pub auth: Option<(Seq<Seq<u8>>, PemItemModel)>,
}

impl View for ConnectorPlan {
    type V = ConnectorModel;

    open spec fn view(&self) -> ConnectorModel {
        ConnectorModel {
            roots: anchors_in(self.roots),
            auth: match self.auth {
                Some((certs, key)) => Some((byte_lists(certs@), key@)),
                None => None,
            },
        }
    }
}

impl TlsClientConfig {
    /// Whom to trust: nobody where no file is configured.
    pub open spec fn trusted(self, ca: FileContent) -> Result<Seq<Anchor>, Seq<char>> {
        match text_option(self.ca_path) {
            Some(path) => match loaded_certs(path, ca) {
                Ok(certs) => anchors_of(certs),
                Err(text) => Err(text),
            },
            None => Ok(Seq::empty()),
        }
    }

    /// As whom to appear: as nobody where a file is not configured.
    pub open spec fn appears_as(self, cert: FileContent, key: FileContent) -> Result<
        Option<(Seq<Seq<u8>>, PemItemModel)>,
        Seq<char>,
    > {
        match (text_option(self.client_cert_path), text_option(self.client_key_path)) {
            (Some(cert_path), Some(key_path)) => match loaded_certs(cert_path, cert) {
                Ok(certs) => match loaded_key(key_path, key) {
                    Ok(k) => Ok(Some((certs, k))),
                    Err(text) => Err(text),
                },
                Err(text) => Err(text),
            },
            _ => Ok(None),
        }
    }

    /// Whom a client trusts and as whom it appears, by what its files hold.  A
    /// file that is not configured is not looked at.
    pub fn connector_plan(&self, ca: &FileContent, cert: &FileContent, key: &FileContent) -> (r:
        Result<ConnectorPlan, ClientError>)
        ensures
            match (self.trusted(*ca), self.appears_as(*cert, *key)) {
                (Ok(roots), Ok(auth)) => r matches Ok(p) && p@ == (ConnectorModel { roots, auth }),
                (Err(text), _) => r matches Err(e) && is_tls_error(e, text),
                (Ok(_), Err(text)) => r matches Err(e) && is_tls_error(e, text),
            },
    {
        let roots = match &self.ca_path {
            Some(path) => match load_certs(path.as_str(), ca) {
                Ok(certs) => match roots_of(&certs) {
                    Ok(store) => store,
                    Err(e) => return Err(e),
                },
                Err(e) => return Err(e),
            },
            None => no_roots(),
        };
        match self.client_auth() {
            Some((cert_path, key_path)) => match load_certs(cert_path.as_str(), cert) {
                Ok(certs) => match load_private_key(key_path.as_str(), key) {
                    Ok(k) => Ok(ConnectorPlan { roots, auth: Some((certs, k)) }),
                    Err(e) => Err(e),
                },
                Err(e) => Err(e),
            },
            None => Ok(ConnectorPlan { roots, auth: None }),
        }
    }
}

/// A client proves who it is with its own certificate and key, each from its own
/// file, and only where both are configured.
pub proof fn law_client_auth(c: TlsClientConfig, r: Option<(String, String)>)
    requires
        call_ensures(TlsClientConfig::client_auth, (&c,), r),
    ensures
        r is Some <==> c.client_cert_path is Some && c.client_key_path is Some,
        r matches Some(p) ==> (c.client_cert_path matches Some(cert) && p.0@ == cert@) && (
        c.client_key_path matches Some(key) && p.1@ == key@),
{
}

/// What a text is read as decides what the server must prove to have: a name
/// stays a name and an address an address, and a text that is neither is an
/// error.
pub proof fn law_server_named(
    name: &str,
    parts: Result<(bool, String), String>,
    r: Result<ServerName, ClientError>,
)
    requires
        call_ensures(named_server, (name, parts), r),
    ensures
        r is Ok <==> parts is Ok,
        parts matches Ok(p) ==> (r matches Ok(ServerName::DnsName(_)) <==> p.0),
        r matches Ok(ServerName::DnsName(s)) ==> (parts matches Ok(p) && s == p.1),
        r matches Ok(ServerName::IpAddress(s)) ==> (parts matches Ok(p) && s == p.1),
        r matches Err(e) ==> e is Tls,
{
}

/// A file gives its certificates as they are in it, and is refused where it has
/// none; a file gives the first private key in it, and is refused where it has
/// none.
pub proof fn law_files_give(
    path: &str,
    parsed: Result<Vec<Vec<u8>>, String>,
    found: Result<Option<PemItem>, String>,
    certs: Result<Vec<Vec<u8>>, ClientError>,
    key: Result<PemItem, ClientError>,
)
    requires
        call_ensures(certs_found, (path, parsed), certs),
        call_ensures(key_found, (path, found), key),
    ensures
        certs is Ok <==> (parsed matches Ok(v) && v@.len() > 0),
        certs matches Ok(v) ==> parsed == Ok::<Vec<Vec<u8>>, String>(v),
        key is Ok <==> (found matches Ok(k) && k is Some),
        key matches Ok(k) ==> found == Ok::<Option<PemItem>, String>(Some(k)),
{
}

} // verus!
