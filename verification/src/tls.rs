//! Trust roots and server names of TLS connections.
use vstd::prelude::*;

use crate::address::{endpoint_host, seed_host};
use crate::config::{SeedAddress, TlsConfig};
use crate::error::{agrees, checked, DcpError, DcpFault, Outcome, Result};
use crate::lists::{collected, collected_stops};
use crate::text::{
    copy_bytes, dec, dec_count, join3, join4, join5, opt_text, quoted, quoted_text,
};

verus! {

/// Certificates of a PEM text in order; a section that cannot be read stands
/// as its complaint.
pub uninterp spec fn pem_certificates(pem: Seq<u8>) -> Seq<std::result::Result<Seq<u8>, Seq<char>>>;

/// Why a certificate cannot serve as a trust root, if it cannot.
pub uninterp spec fn root_complaint(der: Seq<u8>) -> Option<Seq<char>>;

/// Why a text cannot serve as a server name, if it cannot.
pub uninterp spec fn name_complaint(name: Seq<char>) -> Option<Seq<char>>;

/// Contents of what was read from PEM sections.
pub open spec fn sections_of(list: Seq<std::result::Result<Vec<u8>, String>>) -> Seq<
    std::result::Result<Seq<u8>, Seq<char>>,
> {
    list.map_values(
        |item: std::result::Result<Vec<u8>, String>|
            match item {
                Ok(der) => std::result::Result::<Seq<u8>, Seq<char>>::Ok(der@),
                Err(e) => std::result::Result::<Seq<u8>, Seq<char>>::Err(e@),
            },
    )
}

/// Reads the certificates of a PEM text with `rustls_pemfile::certs`: one item
/// for each certificate section, in order, and one error for each section that
/// cannot be read. The items depend on the bytes alone.
#[verifier::external_body]
fn read_pem(pem: &[u8]) -> (result: Vec<std::result::Result<Vec<u8>, String>>)
    ensures
        sections_of(result@) == pem_certificates(pem@),
{
    let mut reader: &[u8] = pem;
    rustls_pemfile::certs(&mut reader)
        .map(
            |item| match item {
                Ok(der) => Ok(der.as_ref().to_vec()),
                Err(e) => Err(e.to_string()),
            },
        )
        .collect()
}

/// Asks `rustls::RootCertStore::add` whether a certificate can serve as a
/// trust root. Its error, rendered, depends on the certificate alone.
#[verifier::external_body]
fn root_error(der: &[u8]) -> (result: Option<String>)
    ensures
        (match result {
            Some(e) => Some(e@),
            None => None,
        }) == root_complaint(der@),
{
    let mut store = tokio_rustls::rustls::RootCertStore::empty();
    match store.add(tokio_rustls::rustls::pki_types::CertificateDer::from(der)) {
        Ok(_) => None,
        Err(e) => Some(e.to_string()),
    }
}

/// Asks `rustls::pki_types::ServerName::try_from` whether a text is a DNS name
/// or an IP address. Its error, rendered, depends on the text alone.
#[verifier::external_body]
fn name_error(name: &str) -> (result: Option<String>)
    ensures
        (match result {
            Some(e) => Some(e@),
            None => None,
        }) == name_complaint(name@),
{
    match tokio_rustls::rustls::pki_types::ServerName::try_from(name) {
        Ok(_) => None,
        Err(e) => Some(e.to_string()),
    }
}

/// What came of one section of a root CA file.
#[derive(Debug, Eq, PartialEq)]
pub enum RootReading {
    /// A certificate that can serve as a trust root.
    Certificate(Vec<u8>),
    /// A section that cannot be read.
    Malformed(String),
    /// A certificate that cannot serve as a trust root.
    Rejected(String),
}

/// Content of a reading.
pub enum ReadingModel {
    Certificate(Seq<u8>),
    Malformed(Seq<char>),
    Rejected(Seq<char>),
}

impl View for RootReading {
    type V = ReadingModel;

    open spec fn view(&self) -> ReadingModel {
        match self {
            RootReading::Certificate(der) => ReadingModel::Certificate(der@),
            RootReading::Malformed(e) => ReadingModel::Malformed(e@),
            RootReading::Rejected(e) => ReadingModel::Rejected(e@),
        }
    }
}

/// Contents of a list of readings.
pub open spec fn readings_of(list: Seq<RootReading>) -> Seq<ReadingModel> {
    list.map_values(|r: RootReading| r@)
}

/// What comes of one section.
pub open spec fn reading(section: std::result::Result<Seq<u8>, Seq<char>>) -> ReadingModel {
    match section {
        Err(e) => ReadingModel::Malformed(e),
        Ok(der) => match root_complaint(der) {
            Some(e) => ReadingModel::Rejected(e),
            None => ReadingModel::Certificate(der),
        },
    }
}

/// What comes of every section of a root CA file.
pub open spec fn file_readings(pem: Seq<u8>) -> Seq<ReadingModel> {
    pem_certificates(pem).map_values(
        |section: std::result::Result<Seq<u8>, Seq<char>>| reading(section),
    )
}

/// The certificate of one reading.
pub open spec fn accepted_root(path: Seq<char>, reading: ReadingModel) -> Outcome<Seq<u8>> {
    match reading {
        ReadingModel::Certificate(der) => Ok(der),
        ReadingModel::Malformed(e) => Err(
            DcpFault::Tls("invalid root CA PEM "@ + path + ": "@ + e),
        ),
        ReadingModel::Rejected(e) => Err(DcpFault::Tls("invalid root CA "@ + path + ": "@ + e)),
    }
}

/// Trust roots of a root CA file: its certificates in order, unless a reading
/// failed or there is no certificate. Of several failures the first one counts.
pub open spec fn accepted_roots(path: Seq<char>, readings: Seq<ReadingModel>) -> Outcome<
    Seq<Seq<u8>>,
> {
    match collected(readings.len(), |i: int| accepted_root(path, readings[i])) {
        Err(e) => Err(e),
        Ok(roots) => if roots.len() == 0 {
            Err(DcpFault::Tls("root CA file "@ + path + " contains no certificates"@))
        } else {
            Ok(roots)
        },
    }
}

/// Contents of a list of certificates.
pub open spec fn certificates_of(list: Seq<Vec<u8>>) -> Seq<Seq<u8>> {
    list.map_values(|der: Vec<u8>| der@)
}

/// A list of certificates is exactly the outcome given.
pub open spec fn lists_roots(result: Result<Vec<Vec<u8>>>, outcome: Outcome<Seq<Seq<u8>>>) -> bool {
    match (result, outcome) {
        (Ok(list), Ok(roots)) => certificates_of(list@) == roots,
        (Err(error), Err(fault)) => error@ == fault,
        _ => false,
    }
}

/// Takes the trust roots from what was read of a root CA file.
pub fn accept_roots(path: &str, readings: &Vec<RootReading>) -> (result: Result<Vec<Vec<u8>>>)
    ensures
        lists_roots(result, accepted_roots(path@, readings_of(readings@))),
{
    let ghost models = readings_of(readings@);
    let ghost item = |i: int| accepted_root(path@, models[i]);
    let mut roots: Vec<Vec<u8>> = Vec::new();
    let mut i: usize = 0;
    while i < readings.len()
        invariant
            i <= readings@.len(),
            models == readings_of(readings@),
            item == (|i: int| accepted_root(path@, models[i])),
            collected(i as nat, item) is Ok,
            collected(i as nat, item)->Ok_0 == certificates_of(roots@),
        decreases readings@.len() - i,
    {
        assert(models[i as int] == readings@[i as int]@);
        let ghost before = roots@;
        match &readings[i] {
            RootReading::Certificate(der) => {
                roots.push(copy_bytes(der.as_slice()));
                proof {
                    assert(certificates_of(roots@) =~= certificates_of(before).push(der@));
                }
            },
            RootReading::Malformed(e) => {
                proof {
                    collected_stops((i + 1) as nat, models.len(), item);
                }
                return Err(
                    DcpError::Tls(join4("invalid root CA PEM ", path, ": ", e.as_str())),
                );
            },
            RootReading::Rejected(e) => {
                proof {
                    collected_stops((i + 1) as nat, models.len(), item);
                }
                return Err(DcpError::Tls(join4("invalid root CA ", path, ": ", e.as_str())));
            },
        }
        i = i + 1;
    }
    assert(certificates_of(roots@).len() == roots@.len());
    if roots.len() == 0 {
        return Err(
            DcpError::Tls(join3("root CA file ", path, " contains no certificates")),
        );
    }
    Ok(roots)
}

/// Reads the trust roots of a root CA file from its bytes.
pub fn root_certificates(path: &str, pem: &[u8]) -> (result: Result<Vec<Vec<u8>>>)
    ensures
        lists_roots(result, accepted_roots(path@, file_readings(pem@))),
{
    let sections = read_pem(pem);
    let ghost models = sections_of(sections@);
    let mut readings: Vec<RootReading> = Vec::new();
    let mut i: usize = 0;
    while i < sections.len()
        invariant
            i <= sections@.len(),
            models == sections_of(sections@),
            readings@.len() == i,
            forall|j: int| 0 <= j < i ==> (#[trigger] readings@[j])@ == reading(models[j]),
        decreases sections@.len() - i,
    {
        let next = match &sections[i] {
            Ok(der) => match root_error(der.as_slice()) {
                Some(e) => RootReading::Rejected(e),
                None => RootReading::Certificate(copy_bytes(der.as_slice())),
            },
            Err(e) => RootReading::Malformed(e.clone()),
        };
        assert(next@ == reading(models[i as int]));
        readings.push(next);
        i = i + 1;
    }
    assert(readings_of(readings@) =~= file_readings(pem@));
    accept_roots(path, &readings)
}

/// What is wrong with the trust roots of the platform, if anything: there must
/// be one unless a root CA file is configured.
pub open spec fn platform_fault(
    added: usize,
    ignored: usize,
    loader_errors: usize,
    custom: bool,
) -> Option<DcpFault> {
    if added == 0 && !custom {
        Some(
            DcpFault::Tls(
                "no platform root certificates loaded ("@ + dec(ignored as nat)
                    + " parse failures, "@ + dec(loader_errors as nat) + " loader errors)"@,
            ),
        )
    } else {
        None
    }
}

/// Checks that connections have a trust root.
pub fn check_platform_roots(
    added: usize,
    ignored: usize,
    loader_errors: usize,
    custom: bool,
) -> (result: Result<()>)
    ensures
        checked(result, platform_fault(added, ignored, loader_errors, custom)),
{
    if added == 0 && !custom {
        return Err(
            DcpError::Tls(
                join5(
                    "no platform root certificates loaded (",
                    dec_count(ignored).as_str(),
                    " parse failures, ",
                    dec_count(loader_errors).as_str(),
                    " loader errors)",
                ),
            ),
        );
    }
    Ok(())
}

/// Name to validate a certificate against: the configured one, or the host of
/// the seed.
pub open spec fn chosen_name(configured: Option<Seq<char>>, seed: Seq<char>) -> Seq<char> {
    match configured {
        Some(name) => name,
        None => seed_host(seed),
    }
}

/// A server name, unless there is a complaint about it.
pub open spec fn accepted_name(name: Seq<char>, complaint: Option<Seq<char>>) -> Outcome<Seq<char>> {
    match complaint {
        Some(e) => Err(
            DcpFault::Tls("invalid TLS server name "@ + quoted(name) + ": "@ + e),
        ),
        None => Ok(name),
    }
}

/// Accepts a server name unless there is a complaint about it.
pub fn accept_name(name: String, complaint: Option<String>) -> (result: Result<String>)
    ensures
        agrees(result, accepted_name(name@, opt_text(complaint))),
{
    match complaint {
        Some(e) => Err(
            DcpError::Tls(
                join4(
                    "invalid TLS server name ",
                    quoted_text(name.as_str()).as_str(),
                    ": ",
                    e.as_str(),
                ),
            ),
        ),
        None => Ok(name),
    }
}

/// Name to validate the certificate of a seed against.
pub fn server_name(tls: &TlsConfig, seed: &SeedAddress) -> (result: Result<String>)
    ensures
        agrees(
            result,
            accepted_name(
                chosen_name(opt_text(tls.server_name), seed@),
                name_complaint(chosen_name(opt_text(tls.server_name), seed@)),
            ),
        ),
{
    let name: String = match &tls.server_name {
        Some(name) => name.clone(),
        None => endpoint_host(seed.as_str()).to_owned(),
    };
    let complaint = name_error(name.as_str());
    accept_name(name, complaint)
}

} // verus!
