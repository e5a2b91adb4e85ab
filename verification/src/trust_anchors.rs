//! Trust anchors: the parts of a root certificate that path validation uses.
//!
//! The parts are taken out of a certificate by the `rustls-webpki` crate.

use vstd::prelude::*;
use crate::builder::{
    after_source, build_native_certs, is_failure_of, source_succeeds, NativeSource, RootStoreBuilder,
};
use crate::error::{partial_result, ErrorKind, LoadError, PartialResult};

verus! {

/// The three parts of a trust anchor, as contracts see them.
pub struct TrustAnchorView {
    /// The subject name, DER-encoded.
    pub subject: Seq<u8>,
    /// The subject's public key info, DER-encoded.
    pub spki: Seq<u8>,
    /// The name constraints, DER-encoded, if the certificate has any.
    pub name_constraints: Option<Seq<u8>>,
}

/// What `webpki::anchor_from_trusted_cert` makes of a certificate with these
/// DER bytes: its trust anchor, or nothing where it refuses the certificate.
pub uninterp spec fn parsed_anchor(der: Seq<u8>) -> Option<TrustAnchorView>;

/// The error type of `rustls-webpki`.
#[verifier::external_type_specification]
#[verifier::external_body]
pub struct ExWebpkiError(webpki::Error);

/// A trust anchor that owns its bytes.
#[derive(Debug)]
pub struct OwnedTrustAnchor {
    subject: Vec<u8>,
    spki: Vec<u8>,
    name_constraints: Option<Vec<u8>>,
}

impl View for OwnedTrustAnchor {
    type V = TrustAnchorView;

    closed spec fn view(&self) -> TrustAnchorView {
        TrustAnchorView {
            subject: self.subject@,
            spki: self.spki@,
            name_constraints: match self.name_constraints {
                Some(bytes) => Some(bytes@),
                None => None,
            },
        }
    }
}

/// A trust anchor that borrows its bytes.
#[derive(Clone, Copy, Debug, PartialEq, Eq)]
pub struct TrustAnchor<'a> {
    /// The subject name, DER-encoded.
    pub subject: &'a [u8],
    /// The subject's public key info, DER-encoded.
    pub spki: &'a [u8],
    /// The name constraints, DER-encoded, if there are any.
    pub name_constraints: Option<&'a [u8]>,
}

impl<'a> View for TrustAnchor<'a> {
    type V = TrustAnchorView;

    open spec fn view(&self) -> TrustAnchorView {
        TrustAnchorView {
            subject: self.subject@,
            spki: self.spki@,
            name_constraints: match self.name_constraints {
                Some(bytes) => Some(bytes@),
                None => None,
            },
        }
    }
}

/// The text of an error of `rustls-webpki`, as its `Debug` form gives it.
///
/// Trusted, and nothing is claimed of the text.
#[verifier::external_body]
fn webpki_error_text(error: &webpki::Error) -> String {
    format!("{error:?}")
}

impl OwnedTrustAnchor {
    /// Calls `webpki::anchor_from_trusted_cert` on the certificate and copies
    /// the three parts of the anchor that it returns.
    ///
    /// Trusted: the anchor, or its absence, is what [`parsed_anchor`] names,
    /// the same for the same bytes.
    #[verifier::external_body]
    pub(crate) fn try_from_cert_der(der: &[u8]) -> (res: Result<OwnedTrustAnchor, webpki::Error>)
        ensures
            res matches Ok(anchor) ==> parsed_anchor(der@) == Some(anchor@),
            res is Err ==> parsed_anchor(der@) is None,
    {
        let cert = rustls_pki_types::CertificateDer::from(der);
        let anchor = webpki::anchor_from_trusted_cert(&cert)?;
        Ok(OwnedTrustAnchor {
            subject: anchor.subject.as_ref().to_vec(),
            spki: anchor.subject_public_key_info.as_ref().to_vec(),
            name_constraints: anchor.name_constraints.as_ref().map(|nc| nc.as_ref().to_vec()),
        })
    }

    /// The anchor without a copy of its bytes.
    pub fn as_ref(&self) -> (anchor: TrustAnchor<'_>)
        ensures
            anchor@ == self@,
    {
        TrustAnchor {
            subject: self.subject.as_slice(),
            spki: self.spki.as_slice(),
            name_constraints: match &self.name_constraints {
                Some(bytes) => Some(bytes.as_slice()),
                None => None,
            },
        }
    }
}

/// A list of trust anchors.
#[derive(Debug)]
pub struct OwnedTrustAnchors {
    anchors: Vec<OwnedTrustAnchor>,
}

impl View for OwnedTrustAnchors {
    type V = Seq<TrustAnchorView>;

    closed spec fn view(&self) -> Seq<TrustAnchorView> {
        Seq::new(self.anchors@.len(), |i: int| self.anchors@[i]@)
    }
}

impl OwnedTrustAnchors {
    /// The anchors, borrowed, in their order.
    pub fn iter(&self) -> (anchors: Vec<TrustAnchor<'_>>)
        ensures
            anchors@.len() == self@.len(),
            forall|i: int| 0 <= i < self@.len() ==> (#[trigger] anchors@[i])@ == self@[i],
    {
        let mut anchors: Vec<TrustAnchor<'_>> = Vec::new();
        let mut i: usize = 0;
        while i < self.anchors.len()
            invariant
                i <= self.anchors@.len(),
                anchors@.len() == i,
                forall|j: int| 0 <= j < i ==> (#[trigger] anchors@[j])@ == self@[j],
            decreases self.anchors@.len() - i,
        {
            anchors.push(self.anchors[i].as_ref());
            i += 1;
        }
        anchors
    }

    /// The number of anchors.
    pub fn len(&self) -> (n: usize)
        ensures
            n == self@.len(),
    {
        self.anchors.len()
    }

    /// Whether there is no anchor.
    pub fn is_empty(&self) -> (empty: bool)
        ensures
            empty == (self@.len() == 0),
    {
        self.anchors.len() == 0
    }

    /// The anchors themselves.
    pub fn into_anchors(self) -> (anchors: Vec<OwnedTrustAnchor>)
        ensures
            anchors@.len() == self@.len(),
            forall|i: int| 0 <= i < self@.len() ==> (#[trigger] anchors@[i])@ == self@[i],
    {
        self.anchors
    }
}

/// Collects the trust anchors of the certificates that it is given.
pub struct TrustAnchorLoader {
    store: OwnedTrustAnchors,
}

impl View for TrustAnchorLoader {
    type V = Seq<TrustAnchorView>;

    closed spec fn view(&self) -> Seq<TrustAnchorView> {
        self.store@
    }
}

impl RootStoreBuilder for TrustAnchorLoader {
    /// A certificate is taken if a trust anchor can be made of it.
    open spec fn accepts(der: Seq<u8>) -> bool {
        parsed_anchor(der) is Some
    }

    /// Its trust anchor is appended.
    open spec fn with_der(contents: Seq<TrustAnchorView>, der: Seq<u8>) -> Seq<TrustAnchorView> {
        contents.push(parsed_anchor(der).unwrap())
    }

    fn load_der(&mut self, der: Vec<u8>) -> (res: Result<(), LoadError>) {
        match OwnedTrustAnchor::try_from_cert_der(der.as_slice()) {
            Ok(anchor) => {
                let ghost before = self.store@;
                self.store.anchors.push(anchor);
                assert(self.store@ =~= before.push(anchor@));
                Ok(())
            },
            Err(error) => Err(
                LoadError::new(
                    ErrorKind::InvalidData,
                    String::from_str("invalid certificate"),
                    webpki_error_text(&error),
                ),
            ),
        }
    }
}

/// The trust anchors that [`load_to_webpki`] collects from a source.
pub open spec fn webpki_anchors(source: NativeSource) -> Seq<TrustAnchorView> {
    after_source::<TrustAnchorLoader>(Seq::empty(), source)
}

/// The trust anchors of the platform's certificates.
///
/// Every certificate of the source of which a trust anchor can be made
/// contributes it, in the order of the source. The result is `Ok` if the
/// source could be read and each of its certificates was taken. Otherwise it
/// is an error, together with the anchors that were collected if there are
/// any: a certificate that is refused does not cost the others.
pub fn load_to_webpki(source: NativeSource) -> (res: PartialResult<OwnedTrustAnchors, LoadError>)
    ensures
        res is Ok <==> source_succeeds::<TrustAnchorLoader>(source),
        res matches Ok(anchors) ==> anchors@ == webpki_anchors(source),
        res matches Err((_, error)) ==> is_failure_of(error@, source),
        res matches Err((Some(anchors), _)) ==> anchors@ == webpki_anchors(source) && anchors@.len()
            > 0,
        res matches Err((None, _)) ==> webpki_anchors(source).len() == 0,
{
    let mut loader = TrustAnchorLoader { store: OwnedTrustAnchors { anchors: Vec::new() } };
    assert(loader@ =~= Seq::<TrustAnchorView>::empty());
    let outcome = build_native_certs(&mut loader, source);
    let empty = loader.store.is_empty();
    partial_result(loader.store, empty, outcome)
}

} // verus!
