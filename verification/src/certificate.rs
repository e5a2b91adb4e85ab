//! One DER-encoded certificate, and comparison of certificates by their bytes.

use vstd::prelude::*;

verus! {

/// An owned DER encoding of one X.509 certificate.
///
/// Two certificates are the same certificate exactly when their bytes are.
#[derive(Clone, Debug, PartialEq, Eq)]
pub struct Certificate(pub Vec<u8>);

impl View for Certificate {
    type V = Seq<u8>;

    open spec fn view(&self) -> Seq<u8> {
        self.0@
    }
}

/// The DER encodings of a list of certificates, in the same order.
pub open spec fn ders(certs: Seq<Certificate>) -> Seq<Seq<u8>> {
    Seq::new(certs.len(), |i: int| certs[i]@)
}

impl Certificate {
    /// Wraps DER bytes without looking at them.
    pub fn new(der: Vec<u8>) -> (cert: Certificate)
        ensures
            cert@ == der@,
    {
        Certificate(der)
    }

    /// The DER bytes.
    pub fn as_bytes(&self) -> (bytes: &[u8])
        ensures
            bytes@ == self@,
    {
        self.0.as_slice()
    }

    /// Gives the DER bytes back.
    pub fn into_bytes(self) -> (bytes: Vec<u8>)
        ensures
            bytes@ == self@,
    {
        self.0
    }
}

/// Whether two byte strings are equal, byte for byte.
pub fn bytes_eq(a: &[u8], b: &[u8]) -> (same: bool)
    ensures
        same == (a@ == b@),
{
    if a.len() != b.len() {
        return false;
    }
    let mut i: usize = 0;
    while i < a.len()
        invariant
            a@.len() == b@.len(),
            i <= a@.len(),
            forall|j: int| 0 <= j < i ==> a@[j] == b@[j],
        decreases a@.len() - i,
    {
        if a[i] != b[i] {
            return false;
        }
        i += 1;
    }
    assert(a@ =~= b@);
    true
}

/// A copy of a byte string.
pub fn copy_bytes(bytes: &[u8]) -> (copy: Vec<u8>)
    ensures
        copy@ == bytes@,
{
    let mut copy: Vec<u8> = Vec::new();
    let mut i: usize = 0;
    while i < bytes.len()
        invariant
            i <= bytes@.len(),
            copy@ == bytes@.take(i as int),
        decreases bytes@.len() - i,
    {
        copy.push(bytes[i]);
        i += 1;
        assert(bytes@.take(i as int) =~= bytes@.take(i - 1).push(bytes@[i - 1]));
    }
    assert(bytes@.take(bytes@.len() as int) =~= bytes@);
    copy
}

/// Whether a certificate with these DER bytes is already in the list.
pub fn contains_der(certs: &Vec<Certificate>, der: &[u8]) -> (found: bool)
    ensures
        found == ders(certs@).contains(der@),
{
    let mut i: usize = 0;
    while i < certs.len()
        invariant
            i <= certs@.len(),
            forall|j: int| 0 <= j < i ==> ders(certs@)[j] != der@,
        decreases certs@.len() - i,
    {
        if bytes_eq(certs[i].as_bytes(), der) {
            assert(ders(certs@)[i as int] == der@);
            return true;
        }
        i += 1;
    }
    false
}

} // verus!
