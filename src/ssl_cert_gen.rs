use vstd::prelude::*;

verus! {

/// What to do about TLS material before a TLS listener starts.
#[derive(Clone, Copy, Debug, PartialEq, Eq, Structural)]
pub enum CertificatePlan {
    /// Certificate and key are both present.
    Ready,
    /// Some is missing and a self-signed pair is to be generated.
    Generate,
    /// Some is missing and generation is disabled: TLS cannot start.
    Missing,
}

/// Provisioning of the certificate and key that TLS listeners use.
pub struct CertificateGenerator;

impl CertificateGenerator {
    /// Ready when both files exist; otherwise generate when allowed, else fail.
    pub fn certificate_plan(cert_exists: bool, key_exists: bool, auto_generate: bool) -> (r: CertificatePlan)
        ensures
            r == if cert_exists && key_exists {
                CertificatePlan::Ready
            } else if auto_generate {
                CertificatePlan::Generate
            } else {
                CertificatePlan::Missing
            },
    {
        if cert_exists && key_exists {
            CertificatePlan::Ready
        } else if auto_generate {
            CertificatePlan::Generate
        } else {
            CertificatePlan::Missing
        }
    }
}

} // verus!
