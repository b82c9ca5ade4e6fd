//! Certificate parameters together with a model of what they hold, and the
//! signing of certificates from them.
//!
//! Only the functions of this module make or change a `CertParams`, and
//! each keeps the model in step with the parameters it sets.
use rcgen::string::PrintableString;
use rcgen::{BasicConstraints, Certificate, CertificateParams, DnValue, IsCa, Issuer, KeyPair, KeyUsagePurpose, SanType};
use time::OffsetDateTime;
use vstd::prelude::*;

verus! {

#[verifier::external_type_specification]
#[verifier::external_body]
pub struct ExRcgenError(rcgen::Error);

#[verifier::external_type_specification]
#[verifier::external_body]
pub struct ExCertificate(Certificate);

#[verifier::external_type_specification]
#[verifier::external_body]
pub struct ExKeyPair(KeyPair);

#[verifier::external_type_specification]
#[verifier::external_body]
pub struct ExCertificateParams(CertificateParams);

#[verifier::external_type_specification]
#[verifier::external_body]
#[verifier::reject_recursive_types(S)]
pub struct ExIssuer<'a, S>(Issuer<'a, S>);

#[verifier::external_type_specification]
#[verifier::external_body]
pub struct ExOffsetDateTime(OffsetDateTime);

/// How the identifiers of keys are derived.
#[derive(Clone, Copy, Debug, PartialEq, Eq, Structural)]
pub enum KeyIdentifier {
    /// A truncated SHA-256 digest of the public key.
    Sha256,
    /// A truncated SHA-384 digest of the public key.
    Sha384,
}

/// A field of a certificate's subject.
#[derive(Clone, Copy, Debug, PartialEq, Eq, Structural)]
pub enum SubjectField {
    CommonName,
}

/// Whether a certificate may sign other certificates.
#[derive(Clone, Copy, Debug, PartialEq, Eq, Structural)]
pub enum CaKind {
    /// It may not.
    NotCa,
    /// It may, with no limit on the length of the chain below it.
    Unconstrained,
}

/// What a certificate's key may be used for.
#[derive(Clone, Copy, Debug, PartialEq, Eq, Structural)]
pub enum KeyUsage {
    /// Signing certificates.
    KeyCertSign,
    /// Signing revocation lists.
    CrlSign,
}

/// An IP address, as its bytes in network order.
#[derive(Clone, Copy, Debug, PartialEq, Eq)]
pub enum IpAddress {
    V4([u8; 4]),
    V6([u8; 16]),
}

/// Which key signs a certificate.
#[derive(Clone, Copy, Debug, PartialEq, Eq, Structural)]
pub enum Signer {
    /// The certificate's own key.
    ItsOwnKey,
    /// The key of an issuing authority.
    Authority,
}

/// What certificate parameters hold, as far as this library sets them.
pub struct CertModel {
    pub key_identifier: KeyIdentifier,
    /// The subject's fields, each at most once, in the order first set.
    pub subject: Seq<(SubjectField, Seq<char>)>,
    pub ca: CaKind,
    /// The validity asked for, in days: the certificate ends that many days
    /// after it starts, or at the last moment `time` can represent when that
    /// is earlier; `None` while the default dates stand.
    pub validity_days: Option<i64>,
    pub key_usages: Seq<KeyUsage>,
    pub subject_alt_names: Seq<IpAddress>,
}

/// The position of field `f` in `subject`, or -1 when it is not there.
pub open spec fn field_position(subject: Seq<(SubjectField, Seq<char>)>, f: SubjectField) -> int
    decreases subject.len(),
{
    if subject.len() == 0 {
        -1
    } else {
        let p = field_position(subject.drop_last(), f);
        if p >= 0 {
            p
        } else if subject.last().0 == f {
            subject.len() - 1
        } else {
            -1
        }
    }
}

/// `subject` with field `f` set to `v`: replaced where it is, else added
/// at the end.
pub open spec fn subject_with(subject: Seq<(SubjectField, Seq<char>)>, f: SubjectField, v: Seq<char>) -> Seq<(SubjectField, Seq<char>)> {
    let p = field_position(subject, f);
    if p >= 0 {
        subject.update(p, (f, v))
    } else {
        subject.push((f, v))
    }
}

/// The subject made by setting the fields of `entries` in order, starting
/// from an empty subject.
pub open spec fn subject_of(entries: Seq<(SubjectField, Seq<char>)>) -> Seq<(SubjectField, Seq<char>)>
    decreases entries.len(),
{
    if entries.len() == 0 {
        Seq::empty()
    } else {
        let last = entries.last();
        subject_with(subject_of(entries.drop_last()), last.0, last.1)
    }
}

/// What the default parameters hold (`CertificateParams::default`).
pub open spec fn default_model() -> CertModel {
    CertModel {
        key_identifier: KeyIdentifier::Sha256,
        subject: seq![(SubjectField::CommonName, "rcgen self signed cert"@)],
        ca: CaKind::NotCa,
        validity_days: None,
        key_usages: Seq::empty(),
        subject_alt_names: Seq::empty(),
    }
}

/// Whether every character of `s` may stand in an ASN.1 PrintableString.
pub open spec fn printable_chars(s: Seq<char>) -> bool {
    forall|i: int|
        0 <= i < s.len() ==> {
            let c = #[trigger] s[i];
            ('A' <= c <= 'Z') || ('a' <= c <= 'z') || ('0' <= c <= '9') || c == ' ' || c == '\''
                || c == '(' || c == ')' || c == '+' || c == ',' || c == '-' || c == '.' || c == '/'
                || c == ':' || c == '=' || c == '?'
        }
}

/// Certificate parameters with the model of what they hold.
pub struct CertParams {
    params: CertificateParams,
    model: Ghost<CertModel>,
}

impl CertParams {
    /// What the parameters hold.
    pub closed spec fn model(self) -> CertModel {
        self.model@
    }
}

/// The default parameters (`CertificateParams::default`).
#[verifier::external_body]
pub(crate) fn default_params() -> (p: CertParams)
    ensures
        p.model() == default_model(),
{
    CertParams { params: CertificateParams::default(), model: Ghost(default_model()) }
}

/// Sets how key identifiers are derived (`key_identifier_method`), each
/// choice converted to its rcgen counterpart.
#[verifier::external_body]
pub(crate) fn set_key_identifier(p: &mut CertParams, k: KeyIdentifier)
    ensures
        final(p).model() == (CertModel { key_identifier: k, ..old(p).model() }),
{
    p.params.key_identifier_method = match k {
        KeyIdentifier::Sha256 => rcgen::KeyIdMethod::Sha256,
        KeyIdentifier::Sha384 => rcgen::KeyIdMethod::Sha384,
    };
}

/// Empties the subject (`distinguished_name`, set to
/// `DistinguishedName::new`).
#[verifier::external_body]
pub(crate) fn clear_subject(p: &mut CertParams)
    ensures
        final(p).model() == (CertModel { subject: Seq::empty(), ..old(p).model() }),
{
    p.params.distinguished_name = rcgen::DistinguishedName::new();
}

/// Sets field `f` of the subject to `v` as a PrintableString
/// (`PrintableString::try_from`, then `DistinguishedName::push`, which
/// replaces a field that is there and adds one that is not).  Refused,
/// with nothing changed, exactly when `v` has a character that a
/// PrintableString cannot hold.
#[verifier::external_body]
pub(crate) fn set_subject_field(p: &mut CertParams, f: SubjectField, v: &String) -> (r: Result<(), rcgen::Error>)
    ensures
        r.is_ok() == printable_chars(v@),
        r is Ok ==> final(p).model() == (CertModel { subject: subject_with(old(p).model().subject, f, v@), ..old(p).model() }),
        r is Err ==> final(p).model() == old(p).model(),
{
    let value = PrintableString::try_from(v.as_str())?;
    let field = match f {
        SubjectField::CommonName => rcgen::DnType::CommonName,
    };
    p.params.distinguished_name.push(field, DnValue::PrintableString(value));
    Ok(())
}

/// Sets whether the certificate may sign others (`is_ca`: `NoCa`, or `Ca`
/// with unconstrained basic constraints).
#[verifier::external_body]
pub(crate) fn set_ca(p: &mut CertParams, ca: CaKind)
    ensures
        final(p).model() == (CertModel { ca, ..old(p).model() }),
{
    p.params.is_ca = match ca {
        CaKind::NotCa => IsCa::NoCa,
        CaKind::Unconstrained => IsCa::Ca(BasicConstraints::Unconstrained),
    };
}

/// Makes the certificate valid from `not_before` for `days` days
/// (`not_before`, and `not_after` set to `not_before` moved by
/// `SignedDuration::days(days)` with `OffsetDateTime::saturating_add`,
/// which stops at the edge of the representable range; the model records
/// the days asked for, in the sense its field states).
/// `SignedDuration::days` panics when the span in seconds overflows `i64`,
/// hence the bound.
#[verifier::external_body]
pub(crate) fn set_validity(p: &mut CertParams, not_before: OffsetDateTime, days: i64)
    requires
        -106751991167300 <= days <= 106751991167300,
    ensures
        final(p).model() == (CertModel { validity_days: Some(days), ..old(p).model() }),
{
    p.params.not_before = not_before;
    p.params.not_after = not_before.saturating_add(time::SignedDuration::days(days));
}

/// Sets what the key may be used for (`key_usages`), each usage converted
/// to its rcgen counterpart.
#[verifier::external_body]
pub(crate) fn set_key_usages(p: &mut CertParams, usages: &Vec<KeyUsage>)
    ensures
        final(p).model() == (CertModel { key_usages: usages@, ..old(p).model() }),
{
    p.params.key_usages = usages.iter().map(|u| match u {
        KeyUsage::KeyCertSign => KeyUsagePurpose::KeyCertSign,
        KeyUsage::CrlSign => KeyUsagePurpose::CrlSign,
    }).collect();
}

/// Sets the subject alternative names (`subject_alt_names`), each address
/// converted to an `IpAddress` name.
#[verifier::external_body]
pub(crate) fn set_subject_alt_names(p: &mut CertParams, ips: &Vec<IpAddress>)
    ensures
        final(p).model() == (CertModel { subject_alt_names: ips@, ..old(p).model() }),
{
    p.params.subject_alt_names = ips.iter().map(|a| match a {
        IpAddress::V4(b) => SanType::IpAddress(From::from(*b)),
        IpAddress::V6(b) => SanType::IpAddress(From::from(*b)),
    }).collect();
}

/// The algorithm of a key pair.
#[derive(Clone, Copy, Debug, PartialEq, Eq, Structural)]
pub enum KeyAlgorithm {
    /// ECDSA over the P-384 curve, with SHA-384.
    EcdsaP384Sha384,
}

/// A key pair generated here, with the algorithm it was generated for.
pub struct FreshKey {
    key: KeyPair,
    algorithm: Ghost<KeyAlgorithm>,
}

impl FreshKey {
    /// The key pair.
    pub closed spec fn key(self) -> KeyPair {
        self.key
    }

    /// The algorithm it was generated for.
    pub closed spec fn algorithm(self) -> KeyAlgorithm {
        self.algorithm@
    }
}

/// A fresh key pair of algorithm `alg` (`KeyPair::generate_for`, with the
/// algorithm converted to its rcgen counterpart).  Nothing is stated of
/// when it succeeds: the key is random.
#[verifier::external_body]
pub(crate) fn generate_key_pair(alg: KeyAlgorithm) -> (r: Result<FreshKey, rcgen::Error>)
    ensures
        r matches Ok(k) ==> k.algorithm() == alg,
{
    let key = match alg {
        KeyAlgorithm::EcdsaP384Sha384 => KeyPair::generate_for(&rcgen::PKCS_ECDSA_P384_SHA384)?,
    };
    Ok(FreshKey { key, algorithm: Ghost(alg) })
}

/// Whether `KeyPair::from_pem` can read a key pair out of the text `pem`
/// (a PEM block holding a PKCS#8 private key it can use).
pub uninterp spec fn key_pem_readable(pem: Seq<char>) -> bool;

/// Whether `Issuer::from_ca_cert_pem` reads an issuer out of the CA
/// certificate text `pem` (a PEM block holding an X.509 certificate whose
/// key usages, key identifier method and subject it can read); the key
/// handed beside it plays no part in this.
pub uninterp spec fn ca_cert_pem_readable(pem: Seq<char>) -> bool;

/// A key pair read from PEM, with the text it was read from.
pub struct ReadKey {
    key: KeyPair,
    text: Ghost<Seq<char>>,
}

impl ReadKey {
    /// The text the key pair was read from.
    pub closed spec fn text(self) -> Seq<char> {
        self.text@
    }
}

/// A key pair read from PEM (`KeyPair::from_pem`), kept with the text.  It
/// succeeds only on a readable text; reading the key also draws random
/// numbers, which may fail, so success on a readable text is not stated.
#[verifier::external_body]
pub(crate) fn read_key(pem: &str) -> (r: Result<ReadKey, rcgen::Error>)
    ensures
        r is Ok ==> key_pem_readable(pem@),
        r matches Ok(k) ==> k.text() == pem@,
{
    let key = KeyPair::from_pem(pem)?;
    Ok(ReadKey { key, text: Ghost(pem@) })
}

/// An issuing authority: its certificate and key, with the texts they were
/// read from.
pub struct Authority<'a> {
    issuer: Issuer<'a, KeyPair>,
    cert_text: Ghost<Seq<char>>,
    key_text: Ghost<Seq<char>>,
}

impl<'a> Authority<'a> {
    /// The CA certificate text, and the text of the key, it was read from.
    pub closed spec fn texts(self) -> (Seq<char>, Seq<char>) {
        (self.cert_text@, self.key_text@)
    }
}

/// The authority of CA certificate `cert_pem` and key `key`
/// (`Issuer::from_ca_cert_pem`), kept with both texts.  Whether it
/// succeeds depends on the certificate text alone, named
/// `ca_cert_pem_readable`.
#[verifier::external_body]
pub(crate) fn authority<'a>(cert_pem: &'a str, key: ReadKey) -> (r: Result<Authority<'a>, rcgen::Error>)
    ensures
        r.is_ok() == ca_cert_pem_readable(cert_pem@),
        r matches Ok(a) ==> a.texts() == (cert_pem@, key.text()),
{
    let issuer = Issuer::from_ca_cert_pem(cert_pem, key.key)?;
    Ok(Authority { issuer, cert_text: Ghost(cert_pem@), key_text: key.text })
}

/// A certificate just signed, with what it was made from.
pub struct Signed {
    cert: Certificate,
    params: CertParams,
    key: FreshKey,
    signer: Signer,
    issuer: Ghost<Option<(Seq<char>, Seq<char>)>>,
}

impl Signed {
    /// What the parameters it was made from hold.
    pub closed spec fn model(self) -> CertModel {
        self.params.model()
    }

    /// The key pair it certifies.
    pub closed spec fn key(self) -> FreshKey {
        self.key
    }

    /// Which key signed it.
    pub closed spec fn signer(self) -> Signer {
        self.signer
    }

    /// The texts of the authority that signed it, if one did.
    pub closed spec fn issuer(self) -> Option<(Seq<char>, Seq<char>)> {
        self.issuer@
    }
}

/// A certificate made from `p` for `key` and signed by that key
/// (`CertificateParams::self_signed`), kept with what it was made from.
/// Nothing is stated of when it succeeds: signing draws random numbers.
#[verifier::external_body]
pub(crate) fn self_signed(p: CertParams, key: FreshKey) -> (r: Result<Signed, rcgen::Error>)
    ensures
        r matches Ok(s) ==> s.model() == p.model() && s.key() == key && s.signer() == Signer::ItsOwnKey
            && s.issuer() is None,
{
    let cert = p.params.self_signed(&key.key)?;
    Ok(Signed { cert, params: p, key, signer: Signer::ItsOwnKey, issuer: Ghost(None) })
}

/// A certificate made from `p` for `key` and signed by the authority `ca`
/// (`CertificateParams::signed_by`), kept with what it was made from.
/// Nothing is stated of when it succeeds.
#[verifier::external_body]
pub(crate) fn signed_by(p: CertParams, key: FreshKey, ca: &Authority<'_>) -> (r: Result<Signed, rcgen::Error>)
    ensures
        r matches Ok(s) ==> s.model() == p.model() && s.key() == key && s.signer() == Signer::Authority
            && s.issuer() == Some(ca.texts()),
{
    let cert = p.params.signed_by(&key.key, &ca.issuer)?;
    Ok(Signed { cert, params: p, key, signer: Signer::Authority, issuer: Ghost(Some((ca.cert_text@, ca.key_text@))) })
}

/// The certificate in PEM (`Certificate::pem`).
#[verifier::external_body]
fn certificate_pem(cert: &Certificate) -> String {
    cert.pem()
}

/// The certificate in DER (`Certificate::der`, as bytes).
#[verifier::external_body]
fn certificate_der(cert: &Certificate) -> &[u8] {
    cert.der()
}

/// The key pair in PKCS#8 PEM (`KeyPair::serialize_pem`).
#[verifier::external_body]
fn key_pair_pem(key_pair: &KeyPair) -> String {
    key_pair.serialize_pem()
}

/// The key pair in PKCS#8 DER (`KeyPair::serialize_der`).
#[verifier::external_body]
fn key_pair_der(key_pair: &KeyPair) -> Vec<u8> {
    key_pair.serialize_der()
}

/// A certificate with the key pair it was made for, what it was made from,
/// who signed it, and its encodings, written once when it was made.
pub struct CertAndKey {
    cert: Certificate,
    key: FreshKey,
    params: CertParams,
    signer: Signer,
    issuer: Ghost<Option<(Seq<char>, Seq<char>)>>,
    pem: String,
    der: Vec<u8>,
    key_pem: String,
    key_der: Vec<u8>,
}

impl CertAndKey {
    /// What the parameters the certificate was made from hold.
    pub closed spec fn made_from(self) -> CertModel {
        self.params.model()
    }

    /// The key pair the certificate was made for, as generated.
    pub closed spec fn certified_key(self) -> FreshKey {
        self.key
    }

    /// The algorithm of the certified key pair.
    pub closed spec fn key_algorithm(self) -> KeyAlgorithm {
        self.key.algorithm()
    }

    /// Which key signed the certificate.
    pub closed spec fn signer(self) -> Signer {
        self.signer
    }

    /// The texts of the CA certificate and key that signed it, if an
    /// authority did.
    pub closed spec fn issuer(self) -> Option<(Seq<char>, Seq<char>)> {
        self.issuer@
    }

    /// The certificate's PEM text (`Certificate::pem`).
    pub closed spec fn pem_text(self) -> Seq<char> {
        self.pem@
    }

    /// The certificate's DER bytes (`Certificate::der`).
    pub closed spec fn der_bytes(self) -> Seq<u8> {
        self.der@
    }

    /// The key pair's PKCS#8 PEM text (`KeyPair::serialize_pem`).
    pub closed spec fn key_pem_text(self) -> Seq<char> {
        self.key_pem@
    }

    /// The key pair's PKCS#8 DER bytes (`KeyPair::serialize_der`).
    pub closed spec fn key_der_bytes(self) -> Seq<u8> {
        self.key_der@
    }

    /// The certificate.
    pub fn cert(&self) -> &Certificate {
        &self.cert
    }

    /// The key pair the certificate was made for.
    pub fn key_pair(&self) -> (r: &KeyPair)
        ensures
            *r == self.certified_key().key(),
    {
        &self.key.key
    }

    /// The certificate in PEM.
    pub fn serialize_pem(&self) -> (r: String)
        ensures
            r@ == self.pem_text(),
    {
        self.pem.clone()
    }

    /// The certificate in DER.
    pub fn serialize_der(&self) -> (r: &[u8])
        ensures
            r@ == self.der_bytes(),
    {
        self.der.as_slice()
    }

    /// The private key that signed the certificate, in PEM.
    pub fn serialize_private_key_pem(&self) -> (r: String)
        ensures
            r@ == self.key_pem_text(),
    {
        self.key_pem.clone()
    }

    /// The private key that signed the certificate, in DER.
    pub fn serialize_private_key_der(&self) -> (r: Vec<u8>)
        ensures
            r@ == self.key_der_bytes(),
    {
        self.key_der.clone()
    }
}

/// The certificate just signed, with its key and its encodings.
pub(crate) fn seal(s: Signed) -> (ck: CertAndKey)
    ensures
        ck.made_from() == s.model(),
        ck.certified_key() == s.key(),
        ck.signer() == s.signer(),
        ck.issuer() == s.issuer(),
{
    let Signed { cert, params, key, signer, issuer } = s;
    let pem = certificate_pem(&cert);
    let der = vstd::slice::slice_to_vec(certificate_der(&cert));
    let key_pem = key_pair_pem(&key.key);
    let key_der = key_pair_der(&key.key);
    CertAndKey { cert, key, params, signer, issuer, pem, der, key_pem, key_der }
}

} // verus!
