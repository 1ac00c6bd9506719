//! The server's TLS certificate: where it comes from, the self-signed one
//! (`rcgen`), and its PEM text (`pem`). Reading and writing files belong to
//! the program that starts the server.
use rustls::pki_types::PrivateKeyDer;
use vstd::prelude::*;

use crate::text::{append, owned, string_views};

verus! {

/// Where the server's certificate comes from.
pub enum CertSource {
    /// Read the configured certificate and key files.
    LoadFiles,
    /// Generate a self-signed certificate, and write it to the configured
    /// files when `save` holds.
    Generate { save: bool },
}

/// The files are read when both paths are given and both files exist;
/// otherwise a certificate is generated, and saved when `auto_cert` is on
/// and both paths are given.
pub open spec fn cert_source(
    auto_cert: bool,
    cert_path: Seq<char>,
    key_path: Seq<char>,
    cert_exists: bool,
    key_exists: bool,
) -> CertSource {
    if cert_path.len() > 0 && key_path.len() > 0 && cert_exists && key_exists {
        CertSource::LoadFiles
    } else {
        CertSource::Generate { save: auto_cert && cert_path.len() > 0 && key_path.len() > 0 }
    }
}

/// The configured files win: whenever both paths are given and both files
/// exist, they are loaded, whatever `auto_cert` says; `auto_cert` only
/// decides whether a generated certificate is saved, and a certificate is
/// generated exactly when the files cannot be loaded.
pub proof fn lemma_configured_files_win(
    auto_cert: bool,
    cert_path: Seq<char>,
    key_path: Seq<char>,
    cert_exists: bool,
    key_exists: bool,
)
    ensures
        cert_path.len() > 0 && key_path.len() > 0 && cert_exists && key_exists ==> cert_source(
            auto_cert,
            cert_path,
            key_path,
            cert_exists,
            key_exists,
        ) == CertSource::LoadFiles,
        !(cert_path.len() > 0 && key_path.len() > 0 && cert_exists && key_exists) ==> cert_source(
            auto_cert,
            cert_path,
            key_path,
            cert_exists,
            key_exists,
        ) is Generate,
        cert_source(true, cert_path, key_path, cert_exists, key_exists) is LoadFiles <==> cert_source(
            false,
            cert_path,
            key_path,
            cert_exists,
            key_exists,
        ) is LoadFiles,
        cert_source(false, cert_path, key_path, cert_exists, key_exists) matches CertSource::Generate {
            save,
        } ==> !save,
{
}

/// Decides where the certificate comes from; `cert_exists` and
/// `key_exists` say whether the files at the two paths exist.
pub fn get_or_create_cert(
    auto_cert: bool,
    cert_path: &str,
    key_path: &str,
    cert_exists: bool,
    key_exists: bool,
) -> (s: CertSource)
    ensures
        s == cert_source(auto_cert, cert_path@, key_path@, cert_exists, key_exists),
{
    let has_paths = cert_path.unicode_len() > 0 && key_path.unicode_len() > 0;
    if has_paths && cert_exists && key_exists {
        CertSource::LoadFiles
    } else {
        CertSource::Generate { save: auto_cert && has_paths }
    }
}

/// What `pem::encode` makes of a PEM block with this tag and these
/// contents and no headers.
pub uninterp spec fn pem_encoding(tag: Seq<char>, contents: Seq<u8>) -> Seq<char>;

/// `pem::encode(&pem::Pem::new(tag, contents))`: the block opens with
/// `-----BEGIN tag-----` and a CRLF and closes with `-----END tag-----` and
/// a CRLF (between them the Base64 of the contents in lines of 64); it
/// depends on the tag and the contents alone.
#[verifier::external_body]
fn pem_encode(tag: &str, contents: &[u8]) -> (s: String)
    ensures
        s@ == pem_encoding(tag@, contents@),
        ("-----BEGIN "@ + tag@ + "-----\r\n"@).is_prefix_of(s@),
        ("-----END "@ + tag@ + "-----\r\n"@).is_suffix_of(s@),
{
    pem::encode(&pem::Pem::new(tag, contents))
}

/// The PEM text of a certificate chain: one `CERTIFICATE` block per
/// certificate, in order.
pub open spec fn chain_pem(ders: Seq<Seq<u8>>) -> Seq<char>
    decreases ders.len(),
{
    if ders.len() == 0 {
        Seq::empty()
    } else {
        chain_pem(ders.drop_last()) + pem_encoding("CERTIFICATE"@, ders.last())
    }
}

/// The PEM text of a certificate chain given in DER.
pub fn certificates_pem(ders: &Vec<Vec<u8>>) -> (s: String)
    ensures
        s@ == chain_pem(ders@.map_values(|d: Vec<u8>| d@)),
{
    let ghost all = ders@.map_values(|d: Vec<u8>| d@);
    let mut s = String::new();
    let mut i: usize = 0;
    while i < ders.len()
        invariant
            i <= ders@.len(),
            all == ders@.map_values(|d: Vec<u8>| d@),
            s@ == chain_pem(all.subrange(0, i as int)),
        decreases ders@.len() - i,
    {
        let block = pem_encode("CERTIFICATE", ders[i].as_slice());
        append(&mut s, block.as_str());
        assert(all.subrange(0, i + 1).drop_last() =~= all.subrange(0, i as int));
        i = i + 1;
    }
    assert(all.subrange(0, i as int) =~= all);
    s
}

/// The encoding of a private key.
#[derive(Debug, Clone, Copy, PartialEq, Eq, Structural)]
pub enum KeyFormat {
    Pkcs1,
    Pkcs8,
    Sec1,
    /// Any other encoding.
    Other,
}

/// The PEM tag of a key encoding, if it can be written.
pub open spec fn key_tag(f: KeyFormat) -> Option<Seq<char>> {
    match f {
        KeyFormat::Pkcs1 => Some("RSA PRIVATE KEY"@),
        KeyFormat::Pkcs8 => Some("PRIVATE KEY"@),
        KeyFormat::Sec1 => Some("EC PRIVATE KEY"@),
        KeyFormat::Other => None,
    }
}

/// The PEM text of a private key given in DER; refused for an encoding
/// other than PKCS#1, PKCS#8 and SEC1.
pub fn key_pem(format: KeyFormat, der: &[u8]) -> (r: Result<String, String>)
    ensures
        match key_tag(format) {
            Some(tag) => (r matches Ok(s) && s@ == pem_encoding(tag, der@)),
            None => (r matches Err(m) && m@ == "不支持的密钥格式"@),
        },
{
    match format {
        KeyFormat::Pkcs1 => Ok(pem_encode("RSA PRIVATE KEY", der)),
        KeyFormat::Pkcs8 => Ok(pem_encode("PRIVATE KEY", der)),
        KeyFormat::Sec1 => Ok(pem_encode("EC PRIVATE KEY", der)),
        KeyFormat::Other => Err(owned("不支持的密钥格式")),
    }
}

/// What `rustls_pemfile::certs` reads from PEM text: the DER of each
/// `CERTIFICATE` block, in order, or the text of the first read error.
pub uninterp spec fn pem_cert_list(pem: Seq<u8>) -> Result<Seq<Seq<u8>>, Seq<char>>;

/// The DER of each item of a list.
pub open spec fn der_views(v: Seq<Vec<u8>>) -> Seq<Seq<u8>> {
    v.map_values(|d: Vec<u8>| d@)
}

/// `rustls_pemfile::certs` on PEM text: the certificates it holds (as
/// DER), or the text of the error that stopped the reading. It depends on
/// the text alone.
#[verifier::external_body]
fn pem_certificates(pem: &[u8]) -> (r: Result<Vec<Vec<u8>>, String>)
    ensures
        match r {
            Ok(v) => pem_cert_list(pem@) == Ok::<Seq<Seq<u8>>, Seq<char>>(der_views(v@)),
            Err(e) => pem_cert_list(pem@) == Err::<Seq<Seq<u8>>, Seq<char>>(e@),
        },
{
    let mut rd: &[u8] = pem;
    rustls_pemfile::certs(&mut rd).map(|c| c.map(|d| d.as_ref().to_vec()).map_err(|e| e.to_string())).collect()
}

/// What `rustls_pemfile::private_key` reads from PEM text: the first
/// private key (its encoding and DER), none, or the text of a read error.
pub uninterp spec fn pem_key(pem: Seq<u8>) -> Result<Option<(KeyFormat, Seq<u8>)>, Seq<char>>;

/// `rustls_pemfile::private_key` on PEM text: the first private key, as
/// its encoding and DER (an encoding it does not name is `Other`, with no
/// bytes), nothing when there is none, or the text of a read error. It
/// depends on the text alone.
#[verifier::external_body]
fn pem_private_key(pem: &[u8]) -> (r: Result<Option<(KeyFormat, Vec<u8>)>, String>)
    ensures
        match r {
            Ok(Some((f, d))) => pem_key(pem@) == Ok::<Option<(KeyFormat, Seq<u8>)>, Seq<char>>(Some((f, d@))),
            Ok(None) => pem_key(pem@) == Ok::<Option<(KeyFormat, Seq<u8>)>, Seq<char>>(None),
            Err(e) => pem_key(pem@) == Err::<Option<(KeyFormat, Seq<u8>)>, Seq<char>>(e@),
        },
{
    let mut rd: &[u8] = pem;
    let key = rustls_pemfile::private_key(&mut rd).map_err(|e| e.to_string())?;
    Ok(key.map(|k| match k {
        PrivateKeyDer::Pkcs1(d) => (KeyFormat::Pkcs1, d.secret_pkcs1_der().to_vec()),
        PrivateKeyDer::Pkcs8(d) => (KeyFormat::Pkcs8, d.secret_pkcs8_der().to_vec()),
        PrivateKeyDer::Sec1(d) => (KeyFormat::Sec1, d.secret_sec1_der().to_vec()),
        _ => (KeyFormat::Other, Vec::new()),
    }))
}

/// A certificate chain and its private key, read from PEM files.
pub struct CertAndKey {
    /// The DER of each certificate, in order.
    pub certs: Vec<Vec<u8>>,
    pub key_format: KeyFormat,
    /// The DER of the key.
    pub key: Vec<u8>,
}

/// What reading a certificate file and a key file gives: the chain and
/// the key, or the first error.
pub open spec fn cert_and_key_of(cert_pem: Seq<u8>, key_pem: Seq<u8>) -> Result<
    (Seq<Seq<u8>>, KeyFormat, Seq<u8>),
    Seq<char>,
> {
    match pem_cert_list(cert_pem) {
        Err(e) => Err("解析证书 PEM 失败: "@ + e),
        Ok(certs) => match pem_key(key_pem) {
            Err(e) => Err("解析密钥 PEM 失败: "@ + e),
            Ok(None) => Err("未找到有效私钥"@),
            Ok(Some((f, d))) => Ok((certs, f, d)),
        },
    }
}

/// Reads the certificate chain and the private key out of the contents of
/// a certificate file and a key file.
pub fn parse_cert_and_key(cert_pem: &[u8], key_pem: &[u8]) -> (r: Result<CertAndKey, String>)
    ensures
        match r {
            Ok(ck) => cert_and_key_of(cert_pem@, key_pem@) == Ok::<
                (Seq<Seq<u8>>, KeyFormat, Seq<u8>),
                Seq<char>,
            >((der_views(ck.certs@), ck.key_format, ck.key@)),
            Err(m) => cert_and_key_of(cert_pem@, key_pem@) == Err::<
                (Seq<Seq<u8>>, KeyFormat, Seq<u8>),
                Seq<char>,
            >(m@),
        },
{
    let certs = match pem_certificates(cert_pem) {
        Ok(c) => c,
        Err(e) => {
            let mut m = owned("解析证书 PEM 失败: ");
            append(&mut m, e.as_str());
            return Err(m);
        },
    };
    match pem_private_key(key_pem) {
        Err(e) => {
            let mut m = owned("解析密钥 PEM 失败: ");
            append(&mut m, e.as_str());
            Err(m)
        },
        Ok(None) => Err(owned("未找到有效私钥")),
        Ok(Some((key_format, key))) => Ok(CertAndKey { certs, key_format, key }),
    }
}

/// The CA certificates of a PEM file's contents; the error that stopped
/// the reading, as its text.
pub fn parse_ca_certs(pem: &[u8]) -> (r: Result<Vec<Vec<u8>>, String>)
    ensures
        match r {
            Ok(v) => pem_cert_list(pem@) == Ok::<Seq<Seq<u8>>, Seq<char>>(der_views(v@)),
            Err(e) => pem_cert_list(pem@) == Err::<Seq<Seq<u8>>, Seq<char>>(e@),
        },
{
    pem_certificates(pem)
}

/// Why making a self-signed certificate failed, with the outside error
/// text of the step that failed.
pub enum SelfSignError {
    /// A subject alternative name is neither an IP address nor a DNS name.
    Names(String),
    /// No key pair could be generated.
    Key(String),
    /// The certificate could not be signed.
    Sign(String),
}

/// `rcgen`: a certificate for `subject_alt_names` (each an IP address or a
/// DNS name, as `CertificateParams::new` reads them) whose subject is
/// exactly the common name and organisation given, self-signed with a new
/// random key pair (`KeyPair::generate`). Gives the certificate's DER and
/// the key's PKCS#8 DER, both non-empty. The key, and so both results,
/// differ from call to call.
#[verifier::external_body]
fn rcgen_self_signed(common_name: &str, organization: &str, subject_alt_names: &Vec<String>) -> (r: Result<
    (Vec<u8>, Vec<u8>),
    SelfSignError,
>)
    ensures
        r matches Ok(p) ==> p.0@.len() > 0 && p.1@.len() > 0,
{
    let mut params = rcgen::CertificateParams::new(subject_alt_names.clone()).map_err(|e| SelfSignError::Names(e.to_string()))?;
    params.distinguished_name = rcgen::DistinguishedName::new();
    params.distinguished_name.push(rcgen::DnType::CommonName, common_name);
    params.distinguished_name.push(rcgen::DnType::OrganizationName, organization);
    let key_pair = rcgen::KeyPair::generate().map_err(|e| SelfSignError::Key(e.to_string()))?;
    let cert = params.self_signed(&key_pair).map_err(|e| SelfSignError::Sign(e.to_string()))?;
    Ok((cert.der().to_vec(), key_pair.serialize_der()))
}

/// The subject of a self-signed certificate: its common name, its
/// organisation, and the names it is valid for.
pub struct SelfSignedSubject {
    pub common_name: String,
    pub organization: String,
    pub subject_alt_names: Vec<String>,
}

/// The subject of the server's self-signed certificate: "RustProxy Server"
/// of "RustProxy", valid for `localhost`, 127.0.0.1 and ::1.
pub fn self_signed_subject() -> (s: SelfSignedSubject)
    ensures
        s.common_name@ == "RustProxy Server"@,
        s.organization@ == "RustProxy"@,
        string_views(s.subject_alt_names@) == seq!["localhost"@, "127.0.0.1"@, "::1"@],
{
    let names = vec![owned("localhost"), owned("127.0.0.1"), owned("::1")];
    assert(string_views(names@) =~= seq!["localhost"@, "127.0.0.1"@, "::1"@]);
    SelfSignedSubject {
        common_name: owned("RustProxy Server"),
        organization: owned("RustProxy"),
        subject_alt_names: names,
    }
}

/// The message for a failed step of making a self-signed certificate.
pub open spec fn self_sign_error_message(e: SelfSignError) -> Seq<char> {
    match e {
        SelfSignError::Names(t) => "DNS 名称解析失败: "@ + t@,
        SelfSignError::Key(t) => "生成密钥对失败: "@ + t@,
        SelfSignError::Sign(t) => "自签证书失败: "@ + t@,
    }
}

/// What making a self-signed certificate with the outcome `made` gives:
/// a chain of that one certificate with its PKCS#8 key, or the message of
/// the step that failed.
pub fn self_signed_reply(made: Result<(Vec<u8>, Vec<u8>), SelfSignError>) -> (r: Result<CertAndKey, String>)
    ensures
        made matches Ok(p) ==> (r matches Ok(ck) && ck.certs@.len() == 1 && ck.certs@[0]@ == p.0@
            && ck.key_format == KeyFormat::Pkcs8 && ck.key@ == p.1@),
        made matches Err(e) ==> (r matches Err(m) && m@ == self_sign_error_message(e)),
{
    match made {
        Ok((cert, key)) => Ok(CertAndKey { certs: vec![cert], key_format: KeyFormat::Pkcs8, key }),
        Err(SelfSignError::Names(t)) => {
            let mut m = owned("DNS 名称解析失败: ");
            append(&mut m, t.as_str());
            Err(m)
        },
        Err(SelfSignError::Key(t)) => {
            let mut m = owned("生成密钥对失败: ");
            append(&mut m, t.as_str());
            Err(m)
        },
        Err(SelfSignError::Sign(t)) => {
            let mut m = owned("自签证书失败: ");
            append(&mut m, t.as_str());
            Err(m)
        },
    }
}

/// Makes the server's self-signed certificate for the subject
/// `self_signed_subject` gives, around a new random key: one non-empty
/// certificate and its non-empty PKCS#8 key, or the message of the step
/// that failed.
pub fn generate_self_signed_cert() -> (r: Result<CertAndKey, String>)
    ensures
        r matches Ok(ck) ==> ck.certs@.len() == 1 && ck.certs@[0]@.len() > 0 && ck.key_format
            == KeyFormat::Pkcs8 && ck.key@.len() > 0,
        r matches Err(m) ==> exists|e: SelfSignError| m@ == self_sign_error_message(e),
{
    let subject = self_signed_subject();
    let made = rcgen_self_signed(
        subject.common_name.as_str(),
        subject.organization.as_str(),
        &subject.subject_alt_names,
    );
    self_signed_reply(made)
}

} // verus!
