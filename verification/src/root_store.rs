//! Loading the platform's certificates into a `rustls::RootCertStore`.

use vstd::prelude::*;
use crate::builder::{
    after_ders, after_source, all_accepted, build_native_certs, is_failure_of, source_ders,
    source_succeeds, NativeSource, RootStoreBuilder,
};
use crate::certificate::ders;
use crate::error::{partial_result, ErrorKind, LoadError, PartialResult};
use crate::trust_anchors::{parsed_anchor, webpki_anchors, TrustAnchorLoader, TrustAnchorView};

verus! {

/// The root certificate store of `rustls`.
#[verifier::external_type_specification]
#[verifier::external_body]
pub struct ExRootCertStore(rustls::RootCertStore);

/// The error type of `rustls`.
#[verifier::external_type_specification]
#[verifier::external_body]
pub struct ExRustlsError(rustls::Error);

/// The trust anchors that a `rustls::RootCertStore` holds in its `roots`,
/// oldest first.
pub uninterp spec fn root_store_anchors(store: rustls::RootCertStore) -> Seq<TrustAnchorView>;

/// `RootCertStore::empty` makes a store without roots.
pub assume_specification[ rustls::RootCertStore::empty ]() -> (store: rustls::RootCertStore)
    ensures
        root_store_anchors(store).len() == 0,
;

/// `RootCertStore::len` is the number of roots.
pub assume_specification[ rustls::RootCertStore::len ](store: &rustls::RootCertStore) -> (n: usize)
    ensures
        n == root_store_anchors(*store).len(),
;

/// `RootCertStore::is_empty` says whether the number of roots is zero.
pub assume_specification[ rustls::RootCertStore::is_empty ](store: &rustls::RootCertStore) -> (empty:
    bool)
    ensures
        empty == (root_store_anchors(*store).len() == 0),
;

/// Calls `RootCertStore::add` with the certificate.
///
/// Trusted: `add` makes a trust anchor of the certificate with
/// `webpki::anchor_from_trusted_cert` and pushes it onto the roots, or fails
/// and leaves the roots alone where no anchor can be made.
#[verifier::external_body]
fn root_store_add(store: &mut rustls::RootCertStore, der: Vec<u8>) -> (res: Result<
    (),
    rustls::Error,
>)
    ensures
        res is Ok <==> parsed_anchor(der@) is Some,
        res is Ok ==> root_store_anchors(*final(store)) == root_store_anchors(*old(store)).push(
            parsed_anchor(der@).unwrap(),
        ),
        res is Err ==> root_store_anchors(*final(store)) == root_store_anchors(*old(store)),
{
    store.add(rustls_pki_types::CertificateDer::from(der))
}

/// The text of an error of `rustls`, as its `Display` form gives it.
///
/// Trusted, and nothing is claimed of the text.
#[verifier::external_body]
fn rustls_error_text(error: &rustls::Error) -> String {
    format!("{error}")
}

/// Fills a `rustls::RootCertStore` with the certificates that it is given.
pub struct RootCertStoreLoader {
    store: rustls::RootCertStore,
}

impl View for RootCertStoreLoader {
    type V = Seq<TrustAnchorView>;

    closed spec fn view(&self) -> Seq<TrustAnchorView> {
        root_store_anchors(self.store)
    }
}

impl RootStoreBuilder for RootCertStoreLoader {
    /// A certificate is taken if a trust anchor can be made of it.
    open spec fn accepts(der: Seq<u8>) -> bool {
        parsed_anchor(der) is Some
    }

    /// Its trust anchor is appended.
    open spec fn with_der(contents: Seq<TrustAnchorView>, der: Seq<u8>) -> Seq<TrustAnchorView> {
        contents.push(parsed_anchor(der).unwrap())
    }

    fn load_der(&mut self, der: Vec<u8>) -> (res: Result<(), LoadError>) {
        match root_store_add(&mut self.store, der) {
            Ok(()) => Ok(()),
            Err(error) => Err(
                LoadError::new(
                    ErrorKind::InvalidData,
                    String::from_str("invalid certificate"),
                    rustls_error_text(&error),
                ),
            ),
        }
    }
}

/// The trust anchors that [`load_to_rustls`] puts into the store.
pub open spec fn rustls_anchors(source: NativeSource) -> Seq<TrustAnchorView> {
    after_source::<RootCertStoreLoader>(Seq::empty(), source)
}

/// A `rustls::RootCertStore` takes the certificates that
/// [`load_to_webpki`](crate::trust_anchors::load_to_webpki) takes, and holds
/// the same trust anchors for them.
pub proof fn lemma_root_store_holds_the_webpki_anchors(source: NativeSource)
    ensures
        rustls_anchors(source) == webpki_anchors(source),
        source_succeeds::<RootCertStoreLoader>(source) == source_succeeds::<TrustAnchorLoader>(
            source,
        ),
{
    lemma_same_anchors(source_ders(source));
    match source {
        NativeSource::Certificates(certs) => {
            assert(all_accepted::<RootCertStoreLoader>(ders(certs@)) == all_accepted::<
                TrustAnchorLoader,
            >(ders(certs@)));
        },
        _ => {},
    }
}

/// Both loaders hold the same after the same certificates.
proof fn lemma_same_anchors(certs: Seq<Seq<u8>>)
    ensures
        after_ders::<RootCertStoreLoader>(Seq::empty(), certs) == after_ders::<TrustAnchorLoader>(
            Seq::empty(),
            certs,
        ),
    decreases certs.len(),
{
    if certs.len() > 0 {
        lemma_same_anchors(certs.drop_last());
    }
}

/// A `rustls::RootCertStore` with the platform's certificates.
///
/// Every certificate of the source that the store takes is added, in the
/// order of the source. The result is `Ok` if the source could be read and
/// each of its certificates was taken. Otherwise it is an error, together
/// with the store if anything is in it: a certificate that is refused does
/// not cost the others.
pub fn load_to_rustls(source: NativeSource) -> (res: PartialResult<rustls::RootCertStore, LoadError>)
    ensures
        res is Ok <==> source_succeeds::<RootCertStoreLoader>(source),
        res matches Ok(store) ==> root_store_anchors(store) == rustls_anchors(source),
        res matches Err((_, error)) ==> is_failure_of(error@, source),
        res matches Err((Some(store), _)) ==> root_store_anchors(store) == rustls_anchors(source)
            && rustls_anchors(source).len() > 0,
        res matches Err((None, _)) ==> rustls_anchors(source).len() == 0,
{
    let mut loader = RootCertStoreLoader { store: rustls::RootCertStore::empty() };
    assert(loader@ =~= Seq::<TrustAnchorView>::empty());
    let outcome = build_native_certs(&mut loader, source);
    let empty = loader.store.is_empty();
    partial_result(loader.store, empty, outcome)
}

} // verus!
