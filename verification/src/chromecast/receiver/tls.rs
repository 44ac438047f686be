//! The certificate that the receiver shows: self-signed, fresh for each run,
//! good for the local host and for every announced address.

use vstd::prelude::*;
use vstd::string::*;

use crate::error::FerricastError;
use crate::text::join2;

verus! {

/// The `CertificateParams` of rcgen.
#[verifier::external_type_specification]
#[verifier::external_body]
pub struct ExCertificateParams(rcgen::CertificateParams);

/// The `KeyPair` of rcgen.
#[verifier::external_type_specification]
#[verifier::external_body]
pub struct ExKeyPair(rcgen::KeyPair);

/// Whether every character of the texts is ASCII.
pub open spec fn all_ascii(names: Seq<String>) -> bool {
    forall|i: int, j: int|
        0 <= i < names.len() && 0 <= j < names[i]@.len() ==> ((#[trigger] names[i]@[j]) as u32) < 128
}

/// `CertificateParams::new` of rcgen: what a certificate for the names is to
/// hold. Names that are not ASCII are refused, no others.
#[verifier::external_body]
fn params_for(names: Vec<String>) -> (out: Result<rcgen::CertificateParams, String>)
    ensures
        out is Ok <==> all_ascii(names@),
{
    rcgen::CertificateParams::new(names).map_err(|e| e.to_string())
}

/// `DistinguishedName::push` of rcgen, for the common name of the subject.
/// What the parameters hold is not visible here.
#[verifier::external_body]
fn set_common_name(params: &mut rcgen::CertificateParams, name: &str)
{
    let mut subject = rcgen::DistinguishedName::new();
    subject.push(rcgen::DnType::CommonName, name);
    params.distinguished_name = subject;
}

/// `KeyPair::generate` of rcgen: a random key pair, and its private key as a
/// document that is not empty, or why none could be made. Which key comes out
/// is left to chance.
#[verifier::external_body]
fn generate_key() -> (out: Result<(rcgen::KeyPair, PrivateKey), String>)
    ensures
        out matches Ok(made) ==> made.1.der@.len() > 0,
{
    let pair = rcgen::KeyPair::generate().map_err(|e| e.to_string())?;
    let der = pair.serialize_der();
    Ok((pair, PrivateKey { der }))
}

/// `CertificateParams::self_signed` of rcgen: the certificate as a sequence of
/// bytes that is not empty, or why there is none. The signature in it takes
/// random numbers; what the certificate says is not visible here.
#[verifier::external_body]
fn self_signed(params: rcgen::CertificateParams, key: &rcgen::KeyPair) -> (out: Result<
    Certificate,
    String,
>)
    ensures
        out matches Ok(certificate) ==> certificate.der@.len() > 0,
{
    let made = params.self_signed(key).map_err(|e| e.to_string())?;
    Ok(Certificate { der: made.der().to_vec() })
}

/// A certificate in DER.
#[derive(Debug, PartialEq, Eq)]
pub struct Certificate {
    pub der: Vec<u8>,
}

/// A private key in DER, in the form of PKCS #8.
#[derive(Debug, PartialEq, Eq)]
pub struct PrivateKey {
    pub der: Vec<u8>,
}

/// A certificate and its private key.
#[derive(Debug, PartialEq, Eq)]
pub struct TlsIdentity {
    pub certificate: Certificate,
    pub private_key: PrivateKey,
}

/// The names that a certificate is good for: the local host, then the
/// addresses in their order.
pub fn certificate_names(addresses: &Vec<String>) -> (names: Vec<String>)
    ensures
        names@.len() == addresses@.len() + 1,
        names@[0]@ == "localhost"@,
        forall|i: int| 0 <= i < addresses@.len() ==> (#[trigger] names@[i + 1])@ == addresses@[i]@,
{
    let mut names: Vec<String> = Vec::new();
    names.push("localhost".to_owned());
    let mut i: usize = 0;
    while i < addresses.len()
        invariant
            i <= addresses@.len(),
            names@.len() == i + 1,
            names@[0]@ == "localhost"@,
            forall|k: int| 0 <= k < i ==> (#[trigger] names@[k + 1])@ == addresses@[k]@,
        decreases addresses@.len() - i,
    {
        let ghost before = names@;
        names.push(addresses[i].clone());
        assert forall|k: int| 0 <= k < i + 1 implies (#[trigger] names@[k + 1])@
            == addresses@[k]@ by {
            if k < i {
                assert(names@[k + 1] == before[k + 1]);
            }
        }
        i = i + 1;
    }
    names
}

/// What a certificate is to say: the names that it is good for, and whom it
/// is issued to.
#[derive(Debug, PartialEq, Eq)]
pub struct CertificatePlan {
    pub names: Vec<String>,
    pub common_name: String,
}

/// The certificate of a receiver that is announced on the addresses.
pub fn certificate_plan(addresses: &Vec<String>) -> (plan: CertificatePlan)
    ensures
        plan.names@.len() == addresses@.len() + 1,
        plan.names@[0]@ == "localhost"@,
        forall|i: int|
            0 <= i < addresses@.len() ==> (#[trigger] plan.names@[i + 1])@ == addresses@[i]@,
        plan.common_name@ == "ferricast-receiver"@,
{
    CertificatePlan {
        names: certificate_names(addresses),
        common_name: "ferricast-receiver".to_owned(),
    }
}

/// Whether the error tells of the step with the words.
pub open spec fn failed_at(e: FerricastError, step: Seq<char>) -> bool {
    exists|why: Seq<char>| #[trigger] e.is_receiver(step + why)
}

fn failure(step: &str, why: &str) -> (e: FerricastError)
    ensures
        failed_at(e, step@),
{
    let e: FerricastError = FerricastError::Receiver(join2(step, why));
    assert(e.is_receiver(step@ + why@));
    e
}

/// A fresh certificate for the local host and the addresses, and its key.
/// Addresses that are not ASCII are refused; the key and the signature may
/// fail for reasons of the machine's.
pub fn build_identity(addresses: &Vec<String>) -> (out: Result<TlsIdentity, FerricastError>)
    ensures
        out matches Ok(id) ==> id.certificate.der@.len() > 0 && id.private_key.der@.len() > 0,
        !all_ascii(addresses@) ==> (out matches Err(e) && failed_at(e, "rcgen params: "@)),
        all_ascii(addresses@) ==> (out matches Err(e) ==> failed_at(e, "rcgen keypair: "@)
            || failed_at(e, "rcgen self-sign: "@)),
{
    let plan: CertificatePlan = certificate_plan(addresses);
    let names: Vec<String> = plan.names;
    proof {
        reveal_strlit("localhost");
        assert(all_ascii(names@) <==> all_ascii(addresses@)) by {
            if all_ascii(addresses@) {
                assert forall|i: int, j: int|
                    0 <= i < names@.len() && 0 <= j < names@[i]@.len() implies ((
                #[trigger] names@[i]@[j]) as u32) < 128 by {
                    if i > 0 {
                        assert(names@[(i - 1) + 1]@ == addresses@[i - 1]@);
                        assert((addresses@[i - 1]@[j] as u32) < 128);
                    }
                }
            }
            if all_ascii(names@) {
                assert forall|i: int, j: int|
                    0 <= i < addresses@.len() && 0 <= j < addresses@[i]@.len() implies ((
                #[trigger] addresses@[i]@[j]) as u32) < 128 by {
                    assert(names@[i + 1]@ == addresses@[i]@);
                    assert((names@[i + 1]@[j] as u32) < 128);
                }
            }
        }
    }
    let mut params: rcgen::CertificateParams = match params_for(names) {
        Ok(p) => p,
        Err(e) => {
            return Err(failure("rcgen params: ", e.as_str()));
        },
    };
    set_common_name(&mut params, plan.common_name.as_str());
    match generate_key() {
        Err(e) => Err(failure("rcgen keypair: ", e.as_str())),
        Ok(made) => match self_signed(params, &made.0) {
            Err(e) => Err(failure("rcgen self-sign: ", e.as_str())),
            Ok(certificate) => Ok(TlsIdentity { certificate, private_key: made.1 }),
        },
    }
}

} // verus!
