//! Certificates for the cluster: a root CA, and server and client
//! certificates signed by it.
use crate::cert_params::{
    authority, ca_cert_pem_readable, clear_subject, default_params, generate_key_pair,
    key_pem_readable, read_key, seal, self_signed, set_ca, set_key_identifier, set_key_usages,
    set_subject_alt_names, set_subject_field, set_validity, signed_by, subject_of, Authority,
    CaKind, CertModel, CertParams, IpAddress, KeyIdentifier, KeyUsage, Signer, SubjectField,
};
pub use crate::cert_params::{CertAndKey, KeyAlgorithm};
use time::OffsetDateTime;
use vstd::prelude::*;

verus! {

/// Why certificate material could not be made.
#[derive(Debug)]
pub enum TlsError {
    Rcgen(rcgen::Error),
    Io(std::io::Error),
}

/// What a certificate says of itself, as this library chooses it.
pub struct CertProfile {
    /// The algorithm of the certificate's key pair.
    pub key_algorithm: KeyAlgorithm,
    /// How key identifiers are derived.
    pub key_identifier: KeyIdentifier,
    /// The subject's fields, in order.
    pub subject: Vec<(SubjectField, String)>,
    /// Whether the certificate may sign others.
    pub ca: CaKind,
    /// How many days from now the certificate is valid.
    pub validity_days: i64,
    /// What the key may be used for.
    pub key_usages: Vec<KeyUsage>,
    /// The addresses the certificate is for.
    pub subject_alt_names: Vec<IpAddress>,
}

/// The subject fields of a profile, each value as its characters.
pub open spec fn subject_view(s: Seq<(SubjectField, String)>) -> Seq<(SubjectField, Seq<char>)> {
    s.map_values(|e: (SubjectField, String)| (e.0, e.1@))
}

/// What parameters made from profile `p` hold.
pub open spec fn profile_model(p: CertProfile) -> CertModel {
    CertModel {
        key_identifier: p.key_identifier,
        subject: subject_of(subject_view(p.subject@)),
        ca: p.ca,
        validity_days: Some(p.validity_days),
        key_usages: p.key_usages@,
        subject_alt_names: p.subject_alt_names@,
    }
}

/// Whether parameters holding `m` carry the fields of profile `p` that are
/// set one for one: its key identifiers, CA kind, validity, key usages and
/// alternative names.
pub open spec fn carries_profile(m: CertModel, p: CertProfile) -> bool {
    &&& m.key_identifier == p.key_identifier
    &&& m.ca == p.ca
    &&& m.validity_days == Some(p.validity_days)
    &&& m.key_usages == p.key_usages@
    &&& m.subject_alt_names == p.subject_alt_names@
}

/// Parameters made from a profile carry the profile's key identifiers, CA
/// kind, validity, key usages and alternative names, whatever the profile.
pub proof fn law_parameters_carry_the_profile(p: CertProfile)
    ensures
        carries_profile(profile_model(p), p),
{
}

/// What the root certificate authority holds: SHA-384 key identifiers,
/// the common name "Corrosion Root CA", unconstrained, valid five years,
/// for signing certificates and revocation lists.
pub open spec fn ca_model() -> CertModel {
    CertModel {
        key_identifier: KeyIdentifier::Sha384,
        subject: seq![(SubjectField::CommonName, "Corrosion Root CA"@)],
        ca: CaKind::Unconstrained,
        validity_days: Some(1825i64),
        key_usages: seq![KeyUsage::KeyCertSign, KeyUsage::CrlSign],
        subject_alt_names: Seq::empty(),
    }
}

/// What a server certificate for address `ip` holds: SHA-384 key
/// identifiers, the common name "r.u.local", not an authority, valid one
/// year, no key usage, and `ip` as its one alternative name.
pub open spec fn server_model(ip: IpAddress) -> CertModel {
    CertModel {
        key_identifier: KeyIdentifier::Sha384,
        subject: seq![(SubjectField::CommonName, "r.u.local"@)],
        ca: CaKind::NotCa,
        validity_days: Some(365i64),
        key_usages: Seq::empty(),
        subject_alt_names: seq![ip],
    }
}

/// What a client certificate holds: SHA-384 key identifiers, an empty
/// subject, not an authority, valid one year, no key usage, no alternative
/// name.
pub open spec fn client_model() -> CertModel {
    CertModel {
        key_identifier: KeyIdentifier::Sha384,
        subject: Seq::empty(),
        ca: CaKind::NotCa,
        validity_days: Some(365i64),
        key_usages: Seq::empty(),
        subject_alt_names: Seq::empty(),
    }
}

/// A subject of one common name.
fn common_name_subject(name: &str) -> (r: Vec<(SubjectField, String)>)
    ensures
        subject_view(r@) == seq![(SubjectField::CommonName, name@)],
{
    let mut v: Vec<(SubjectField, String)> = Vec::new();
    v.push((SubjectField::CommonName, <String as vstd::string::StringExecFns>::from_str(name)));
    assert(subject_view(v@) =~= seq![(SubjectField::CommonName, name@)]);
    v
}

/// The profile of the root certificate authority.
pub fn ca_profile() -> (p: CertProfile)
    ensures
        p.key_algorithm == KeyAlgorithm::EcdsaP384Sha384,
        p.key_identifier == KeyIdentifier::Sha384,
        p.ca == CaKind::Unconstrained,
        p.validity_days == 1825,
        p.key_usages@ == seq![KeyUsage::KeyCertSign, KeyUsage::CrlSign],
        p.subject_alt_names@ == Seq::<IpAddress>::empty(),
        profile_model(p) == ca_model(),
{
    let mut usages: Vec<KeyUsage> = Vec::new();
    usages.push(KeyUsage::KeyCertSign);
    usages.push(KeyUsage::CrlSign);
    assert(usages@ =~= seq![KeyUsage::KeyCertSign, KeyUsage::CrlSign]);
    let p = CertProfile {
        key_algorithm: KeyAlgorithm::EcdsaP384Sha384,
        key_identifier: KeyIdentifier::Sha384,
        subject: common_name_subject("Corrosion Root CA"),
        ca: CaKind::Unconstrained,
        validity_days: 1825,
        key_usages: usages,
        subject_alt_names: Vec::new(),
    };
    proof {
        lemma_one_field_subject(SubjectField::CommonName, "Corrosion Root CA"@);
        assert(profile_model(p) =~= ca_model());
    }
    p
}

/// The profile of a server certificate for address `ip`.
pub fn server_profile(ip: IpAddress) -> (p: CertProfile)
    ensures
        p.key_algorithm == KeyAlgorithm::EcdsaP384Sha384,
        p.key_identifier == KeyIdentifier::Sha384,
        p.ca == CaKind::NotCa,
        p.validity_days == 365,
        p.key_usages@ == Seq::<KeyUsage>::empty(),
        p.subject_alt_names@ == seq![ip],
        profile_model(p) == server_model(ip),
{
    let mut sans: Vec<IpAddress> = Vec::new();
    sans.push(ip);
    let p = CertProfile {
        key_algorithm: KeyAlgorithm::EcdsaP384Sha384,
        key_identifier: KeyIdentifier::Sha384,
        subject: common_name_subject("r.u.local"),
        ca: CaKind::NotCa,
        validity_days: 365,
        key_usages: Vec::new(),
        subject_alt_names: sans,
    };
    proof {
        lemma_one_field_subject(SubjectField::CommonName, "r.u.local"@);
        assert(profile_model(p) =~= server_model(ip));
    }
    p
}

/// The profile of a client certificate.
pub fn client_profile() -> (p: CertProfile)
    ensures
        p.key_algorithm == KeyAlgorithm::EcdsaP384Sha384,
        p.key_identifier == KeyIdentifier::Sha384,
        p.subject@.len() == 0,
        p.ca == CaKind::NotCa,
        p.validity_days == 365,
        p.key_usages@ == Seq::<KeyUsage>::empty(),
        p.subject_alt_names@ == Seq::<IpAddress>::empty(),
        profile_model(p) == client_model(),
{
    let p = CertProfile {
        key_algorithm: KeyAlgorithm::EcdsaP384Sha384,
        key_identifier: KeyIdentifier::Sha384,
        subject: Vec::new(),
        ca: CaKind::NotCa,
        validity_days: 365,
        key_usages: Vec::new(),
        subject_alt_names: Vec::new(),
    };
    assert(subject_view(p.subject@) =~= Seq::<(SubjectField, Seq<char>)>::empty());
    assert(profile_model(p) =~= client_model());
    p
}

/// Setting one field of an empty subject gives a subject of that field.
proof fn lemma_one_field_subject(f: SubjectField, v: Seq<char>)
    ensures
        subject_of(seq![(f, v)]) == seq![(f, v)],
{
    let e = seq![(f, v)];
    assert(e.drop_last() =~= Seq::<(SubjectField, Seq<char>)>::empty());
    assert(subject_of(e.drop_last()) == Seq::<(SubjectField, Seq<char>)>::empty());
    assert(subject_of(e) =~= seq![(f, v)]);
}

/// Whether every subject value of a profile may stand in a PrintableString.
pub open spec fn printable_subject(s: Seq<(SubjectField, String)>) -> bool {
    forall|i: int| 0 <= i < s.len() ==> crate::cert_params::printable_chars(#[trigger] s[i].1@)
}

/// The current time in UTC (`OffsetDateTime::now_utc`).  Nothing is stated
/// of it: it is the clock.
#[verifier::external_body]
fn now_utc() -> OffsetDateTime {
    OffsetDateTime::now_utc()
}

/// Certificate parameters that carry `profile`, valid from now on.  Fails
/// exactly when a value of the profile's subject is not a printable string.
pub fn params_for(profile: &CertProfile) -> (r: Result<CertParams, rcgen::Error>)
    requires
        -106751991167300 <= profile.validity_days <= 106751991167300,
    ensures
        r.is_ok() == printable_subject(profile.subject@),
        r matches Ok(p) ==> p.model() == profile_model(*profile),
        r matches Ok(p) ==> carries_profile(p.model(), *profile),
{
    let mut p = default_params();
    set_key_identifier(&mut p, profile.key_identifier);
    clear_subject(&mut p);
    let ghost entries = subject_view(profile.subject@);
    let mut i: usize = 0;
    while i < profile.subject.len()
        invariant
            i <= profile.subject@.len(),
            entries == subject_view(profile.subject@),
            forall|j: int| 0 <= j < i ==> crate::cert_params::printable_chars(#[trigger] profile.subject@[j].1@),
            p.model() == (CertModel {
                key_identifier: profile.key_identifier,
                subject: subject_of(entries.subrange(0, i as int)),
                ..crate::cert_params::default_model()
            }),
        decreases profile.subject@.len() - i,
    {
        let (f, v) = &profile.subject[i];
        match set_subject_field(&mut p, *f, v) {
            Ok(()) => {},
            Err(e) => {
                assert(!crate::cert_params::printable_chars(profile.subject@[i as int].1@));
                return Err(e);
            },
        }
        assert(entries.subrange(0, i + 1).drop_last() =~= entries.subrange(0, i as int));
        i = i + 1;
    }
    assert(entries.subrange(0, i as int) =~= entries);
    set_ca(&mut p, profile.ca);
    let now = now_utc();
    set_validity(&mut p, now, profile.validity_days);
    set_key_usages(&mut p, &profile.key_usages);
    set_subject_alt_names(&mut p, &profile.subject_alt_names);
    assert(p.model() =~= profile_model(*profile));
    Ok(p)
}

/// A fresh root certificate authority with its key: made from the root
/// profile for a fresh key of the profile's algorithm, and signed by that
/// key.
pub fn generate_ca() -> (r: Result<CertAndKey, TlsError>)
    ensures
        r matches Err(e) ==> e is Rcgen,
        r matches Ok(ck) ==> ck.made_from().ca == CaKind::Unconstrained && ck.made_from().key_usages
            == seq![KeyUsage::KeyCertSign, KeyUsage::CrlSign] && ck.made_from().validity_days == Some(1825i64)
            && ck.made_from().key_identifier == KeyIdentifier::Sha384
            && ck.made_from().subject_alt_names == Seq::<IpAddress>::empty(),
        r matches Ok(ck) ==> ck.made_from() == ca_model() && ck.key_algorithm() == KeyAlgorithm::EcdsaP384Sha384
            && ck.signer() == Signer::ItsOwnKey && ck.issuer() is None,
{
    let profile = ca_profile();
    let key = match generate_key_pair(profile.key_algorithm) {
        Ok(k) => k,
        Err(e) => return Err(TlsError::Rcgen(e)),
    };
    let params = match params_for(&profile) {
        Ok(p) => p,
        Err(e) => return Err(TlsError::Rcgen(e)),
    };
    match self_signed(params, key) {
        Ok(signed) => Ok(seal(signed)),
        Err(e) => Err(TlsError::Rcgen(e)),
    }
}

/// The authority made of a CA certificate and its key, both in PEM: made
/// only when both texts can be read, never when the certificate text
/// cannot, and kept with both texts.
fn ca_cert<'c>(ca_cert_pem: &'c str, ca_key_pem: &str) -> (r: Result<Authority<'c>, rcgen::Error>)
    ensures
        r is Ok ==> key_pem_readable(ca_key_pem@) && ca_cert_pem_readable(ca_cert_pem@),
        !ca_cert_pem_readable(ca_cert_pem@) ==> r is Err,
        r matches Ok(a) ==> a.texts() == (ca_cert_pem@, ca_key_pem@),
{
    match read_key(ca_key_pem) {
        Ok(key) => authority(ca_cert_pem, key),
        Err(e) => Err(e),
    }
}

/// A fresh certificate for the profile `profile`, for a fresh key of the
/// profile's algorithm, signed by the authority given in PEM.
fn issue(ca_cert_pem: &str, ca_key_pem: &str, profile: &CertProfile) -> (r: Result<(CertAndKey, String), TlsError>)
    requires
        -106751991167300 <= profile.validity_days <= 106751991167300,
    ensures
        r matches Err(e) ==> e is Rcgen,
        !(key_pem_readable(ca_key_pem@) && ca_cert_pem_readable(ca_cert_pem@)) ==> r is Err,
        r matches Ok((ck, pem)) ==> carries_profile(ck.made_from(), *profile),
        r matches Ok((ck, pem)) ==> ck.made_from() == profile_model(*profile) && ck.key_algorithm() == profile.key_algorithm
            && ck.signer() == Signer::Authority && ck.issuer() == Some((ca_cert_pem@, ca_key_pem@))
            && pem@ == ck.pem_text(),
{
    let ca = match ca_cert(ca_cert_pem, ca_key_pem) {
        Ok(a) => a,
        Err(e) => return Err(TlsError::Rcgen(e)),
    };
    let key = match generate_key_pair(profile.key_algorithm) {
        Ok(k) => k,
        Err(e) => return Err(TlsError::Rcgen(e)),
    };
    let params = match params_for(profile) {
        Ok(p) => p,
        Err(e) => return Err(TlsError::Rcgen(e)),
    };
    match signed_by(params, key, &ca) {
        Ok(signed) => {
            let ck = seal(signed);
            let pem = ck.serialize_pem();
            Ok((ck, pem))
        },
        Err(e) => Err(TlsError::Rcgen(e)),
    }
}

/// A fresh server certificate for the address `ip`, signed by the given
/// authority, with its key and its PEM.  Refused when the authority's key
/// or certificate text cannot be read.
pub fn generate_server_cert(ca_cert_pem: &str, ca_key_pem: &str, ip: IpAddress) -> (r: Result<(CertAndKey, String), TlsError>)
    ensures
        r matches Err(e) ==> e is Rcgen,
        !(key_pem_readable(ca_key_pem@) && ca_cert_pem_readable(ca_cert_pem@)) ==> r is Err,
        r matches Ok((ck, pem)) ==> ck.made_from().subject_alt_names == seq![ip] && ck.made_from().ca == CaKind::NotCa
            && ck.made_from().validity_days == Some(365i64),
        r matches Ok((ck, pem)) ==> ck.made_from() == server_model(ip) && ck.key_algorithm() == KeyAlgorithm::EcdsaP384Sha384
            && ck.signer() == Signer::Authority && ck.issuer() == Some((ca_cert_pem@, ca_key_pem@))
            && pem@ == ck.pem_text(),
{
    let profile = server_profile(ip);
    issue(ca_cert_pem, ca_key_pem, &profile)
}

/// A fresh client certificate signed by the given authority, with its key
/// and its PEM.  Refused when the authority's key or certificate text
/// cannot be read.
pub fn generate_client_cert(ca_cert_pem: &str, ca_key_pem: &str) -> (r: Result<(CertAndKey, String), TlsError>)
    ensures
        r matches Err(e) ==> e is Rcgen,
        !(key_pem_readable(ca_key_pem@) && ca_cert_pem_readable(ca_cert_pem@)) ==> r is Err,
        r matches Ok((ck, pem)) ==> ck.made_from().subject == Seq::<(SubjectField, Seq<char>)>::empty()
            && ck.made_from().subject_alt_names == Seq::<IpAddress>::empty() && ck.made_from().ca == CaKind::NotCa
            && ck.made_from().validity_days == Some(365i64),
        r matches Ok((ck, pem)) ==> ck.made_from() == client_model() && ck.key_algorithm() == KeyAlgorithm::EcdsaP384Sha384
            && ck.signer() == Signer::Authority && ck.issuer() == Some((ca_cert_pem@, ca_key_pem@))
            && pem@ == ck.pem_text(),
{
    let profile = client_profile();
    issue(ca_cert_pem, ca_key_pem, &profile)
}

/// A certificate issued from the PEM texts that a root authority gives
/// out names that authority: its certificate and its private key are the
/// issuer.
pub proof fn law_issued_by_the_root(ca: CertAndKey, ck: CertAndKey, cert_text: Seq<char>, key_text: Seq<char>)
    requires
        cert_text == ca.pem_text(),
        key_text == ca.key_pem_text(),
        ck.issuer() == Some((cert_text, key_text)),
    ensures
        ck.issuer() == Some((ca.pem_text(), ca.key_pem_text())),
{
}

} // verus!
