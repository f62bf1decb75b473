//! Integrity policy: which digests are compared and what a mismatch means.
use vstd::prelude::*;
use crate::error::Error;

verus! {

/// Lower-case hexadecimal MD5 digest of the bytes.
pub uninterp spec fn md5_hex(b: Seq<u8>) -> Seq<char>;

/// Relies on `md5::compute` and the lower-case hex form of its 16-byte digest.
#[verifier::external_body]
fn md5_hex_of(b: &[u8]) -> (r: String)
    ensures
        r@ == md5_hex(b@),
        r@.len() == 32,
{
    format!("{:x}", md5::compute(b))
}

/// What a signature check established.
#[derive(Debug, PartialEq, Eq, Structural, Clone, Copy)]
pub enum SignatureCheck {
    /// Nothing was checked: the artifact must not be reported as signature-verified.
    NotChecked,
}

/// Holds whether verification is switched off by configuration.
pub struct SecurityManager {
    skip_verify: bool,
}

impl SecurityManager {
    pub closed spec fn skips(&self) -> bool {
        self.skip_verify
    }

    pub fn new(skip_verify: bool) -> (r: SecurityManager)
        ensures
            r.skips() == skip_verify,
    {
        SecurityManager { skip_verify }
    }

    /// Signature checking is not implemented: this inspects nothing and says so.
    pub fn verify_signature(&self, _file_path: &str, _signature_url: Option<&str>) -> (r: SignatureCheck)
        ensures
            r == SignatureCheck::NotChecked,
    {
        SignatureCheck::NotChecked
    }

    /// The MD5 digest of `content`, in lower-case hex.
    pub fn calculate_hash(&self, content: &Vec<u8>) -> (r: String)
        ensures
            r@ == md5_hex(content@),
    {
        md5_hex_of(content.as_slice())
    }

    /// Accepts `content` exactly when its digest is `expected`; otherwise a security error.
    pub fn verify_hash(&self, content: &Vec<u8>, expected: &str) -> (r: Result<(), Error>)
        ensures
            r is Ok <==> md5_hex(content@) == expected@,
            r is Err ==> r matches Err(Error::Security(_)),
    {
        let actual = md5_hex_of(content.as_slice());
        if crate::text::str_eq(actual.as_str(), expected) {
            Ok(())
        } else {
            let mut msg = String::from_str("Hash mismatch: expected ");
            msg.append(expected);
            msg.append(", got ");
            msg.append(actual.as_str());
            Err(Error::Security(msg))
        }
    }

    pub fn skip_verification(&self) -> (r: bool)
        ensures
            r == self.skips(),
    {
        self.skip_verify
    }
}

} // verus!
