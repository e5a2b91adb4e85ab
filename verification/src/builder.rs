//! Feeding the platform's certificates into a store of the caller's choice.
//!
//! What a platform yields is either a PEM file or a list of DER
//! certificates. A [`RootStoreBuilder`] takes DER certificates one at a time
//! and decides of each whether it keeps it. [`build_native_certs`] hands it
//! everything that the platform yielded: a certificate that the builder
//! refuses is reported, and does not keep the others from being loaded.

use vstd::prelude::*;
use crate::certificate::{copy_bytes, ders, Certificate};
use crate::error::{ErrorKind, ErrorView, LoadError};
use crate::pem::{decode_pem, pem_certs, PemFile};

verus! {

/// A store that can be filled with DER certificates.
///
/// The view of a builder is what it holds. Whether a certificate is taken
/// depends on the certificate alone, and so does what taking it adds.
pub trait RootStoreBuilder: View + Sized {
    /// Whether a certificate with these bytes is taken.
    spec fn accepts(der: Seq<u8>) -> bool;

    /// What the builder holds after it has taken a certificate with these
    /// bytes.
    spec fn with_der(contents: Self::V, der: Seq<u8>) -> Self::V;

    /// Offers one DER certificate. The builder takes it, or fails with an
    /// error of kind [`ErrorKind::InvalidData`] and is unchanged.
    fn load_der(&mut self, der: Vec<u8>) -> (res: Result<(), LoadError>)
        ensures
            res is Ok <==> Self::accepts(der@),
            res matches Err(error) ==> error@.kind == ErrorKind::InvalidData,
            Self::accepts(der@) ==> final(self)@ == Self::with_der(old(self)@, der@),
            !Self::accepts(der@) ==> final(self)@ == old(self)@,
    ;
}

/// What the platform yielded.
#[derive(Debug)]
pub enum NativeSource {
    /// A PEM file.
    PemFile(PemFile),
    /// Certificates that were enumerated from a store.
    Certificates(Vec<Certificate>),
    /// The store could not be read.
    Unavailable(LoadError),
}

/// What a builder holds after it has been offered a certificate.
pub open spec fn after_der<B: RootStoreBuilder>(contents: B::V, der: Seq<u8>) -> B::V {
    if B::accepts(der) {
        B::with_der(contents, der)
    } else {
        contents
    }
}

/// What a builder holds after it has been offered each of the certificates
/// in turn.
pub open spec fn after_ders<B: RootStoreBuilder>(contents: B::V, ders: Seq<Seq<u8>>) -> B::V
    decreases ders.len(),
{
    if ders.len() == 0 {
        contents
    } else {
        after_der::<B>(after_ders::<B>(contents, ders.drop_last()), ders.last())
    }
}

/// Whether the builder takes each of the certificates.
pub open spec fn all_accepted<B: RootStoreBuilder>(ders: Seq<Seq<u8>>) -> bool {
    forall|i: int| 0 <= i < ders.len() ==> B::accepts(#[trigger] ders[i])
}

/// The certificates of a source that reach the builder: those of the PEM
/// file if it could be read, or those that were enumerated.
pub open spec fn source_ders(source: NativeSource) -> Seq<Seq<u8>> {
    match source {
        NativeSource::PemFile(file) => match file.contents {
            Ok(data) => pem_certs(data@),
            Err(_) => Seq::empty(),
        },
        NativeSource::Certificates(certs) => ders(certs@),
        NativeSource::Unavailable(_) => Seq::empty(),
    }
}

/// What a builder holds after it has been offered the certificates of a
/// source.
pub open spec fn after_source<B: RootStoreBuilder>(contents: B::V, source: NativeSource) -> B::V {
    after_ders::<B>(contents, source_ders(source))
}

/// Whether loading a source into a builder succeeds.
///
/// A PEM file has to be readable; that the builder refuses some of its
/// certificates is no failure. Of enumerated certificates the builder has to
/// take every one.
pub open spec fn source_succeeds<B: RootStoreBuilder>(source: NativeSource) -> bool {
    match source {
        NativeSource::PemFile(file) => file.contents is Ok,
        NativeSource::Certificates(certs) => all_accepted::<B>(ders(certs@)),
        NativeSource::Unavailable(_) => false,
    }
}

/// The error of a source that fails before the builder is asked, if it does.
pub open spec fn source_error(source: NativeSource) -> Option<ErrorView> {
    match source {
        NativeSource::PemFile(file) => match file.contents {
            Ok(_) => None,
            Err(error) => Some(error@),
        },
        NativeSource::Certificates(_) => None,
        NativeSource::Unavailable(error) => Some(error@),
    }
}

/// Whether an error is what loading this source fails with: the error of the
/// source itself if it has one, else an error of kind
/// [`ErrorKind::InvalidData`] from the builder.
pub open spec fn is_failure_of(error: ErrorView, source: NativeSource) -> bool {
    match source_error(source) {
        Some(failure) => error == failure,
        None => error.kind == ErrorKind::InvalidData,
    }
}

/// Offers each certificate to the builder and returns the first failure, if
/// there was one. A failure does not end the loading.
pub fn load_ders<B: RootStoreBuilder>(builder: &mut B, certs: &Vec<Certificate>) -> (res: Result<
    (),
    LoadError,
>)
    ensures
        final(builder)@ == after_ders::<B>(old(builder)@, ders(certs@)),
        res is Ok <==> all_accepted::<B>(ders(certs@)),
        res matches Err(error) ==> error@.kind == ErrorKind::InvalidData,
{
    let mut first_error: Option<LoadError> = None;
    let mut i: usize = 0;
    assert(ders(certs@).take(0) =~= Seq::<Seq<u8>>::empty());
    while i < certs.len()
        invariant
            i <= certs@.len(),
            builder@ == after_ders::<B>(old(builder)@, ders(certs@).take(i as int)),
            first_error is None <==> all_accepted::<B>(ders(certs@).take(i as int)),
            first_error matches Some(error) ==> error@.kind == ErrorKind::InvalidData,
        decreases certs@.len() - i,
    {
        let ghost before = ders(certs@).take(i as int);
        let ghost now = ders(certs@).take(i + 1);
        assert(now.drop_last() =~= before);
        assert(now.last() == certs@[i as int]@);
        let der = copy_bytes(certs[i].as_bytes());
        match builder.load_der(der) {
            Ok(()) => {
                assert(all_accepted::<B>(before) ==> all_accepted::<B>(now)) by {
                    if all_accepted::<B>(before) {
                        assert forall|j: int| 0 <= j < now.len() implies B::accepts(
                            #[trigger] now[j],
                        ) by {
                            if j < now.len() - 1 {
                                assert(B::accepts(before[j]));
                            }
                        }
                    }
                }
                assert(all_accepted::<B>(now) ==> all_accepted::<B>(before)) by {
                    if all_accepted::<B>(now) {
                        assert forall|j: int| 0 <= j < before.len() implies B::accepts(
                            #[trigger] before[j],
                        ) by {
                            assert(B::accepts(now[j]));
                        }
                    }
                }
            },
            Err(error) => {
                assert(!B::accepts(now[now.len() - 1]));
                if first_error.is_none() {
                    first_error = Some(error);
                }
            },
        }
        i += 1;
    }
    assert(ders(certs@).take(i as int) =~= ders(certs@));
    match first_error {
        Some(error) => Err(error),
        None => Ok(()),
    }
}

/// Offers each of the certificates of a PEM file to the builder.
///
/// That the builder refuses a certificate is no failure here: a bundle may
/// hold certificates that a store cannot use. Only a file that could not be
/// read fails, with the error of the read, and then the builder is unchanged.
pub fn load_pem_file<B: RootStoreBuilder>(builder: &mut B, file: &PemFile) -> (res: Result<
    (),
    LoadError,
>)
    ensures
        match file.contents {
            Ok(data) => res is Ok && final(builder)@ == after_ders::<B>(
                old(builder)@,
                pem_certs(data@),
            ),
            Err(error) => res matches Err(found) && found@ == error@ && final(builder)@ == old(
                builder,
            )@,
        },
{
    match &file.contents {
        Ok(data) => {
            let certs = decode_pem(data.as_slice());
            let _ = load_ders(builder, &certs);
            Ok(())
        },
        Err(error) => Err(error.duplicate()),
    }
}

/// Loads what the platform yielded into the builder.
///
/// The builder is offered every certificate of the source, in order,
/// whatever it says of the ones before. The result is an error if the source
/// could not be read, and then it is that error; or if the source is a list
/// of certificates and the builder refused one, and then it is the builder's
/// error for the first one that it refused.
pub fn build_native_certs<B: RootStoreBuilder>(builder: &mut B, source: NativeSource) -> (res:
    Result<(), LoadError>)
    ensures
        final(builder)@ == after_source::<B>(old(builder)@, source),
        res is Ok <==> source_succeeds::<B>(source),
        res matches Err(found) ==> is_failure_of(found@, source),
{
    match source {
        NativeSource::PemFile(file) => load_pem_file(builder, &file),
        NativeSource::Certificates(certs) => load_ders(builder, &certs),
        NativeSource::Unavailable(error) => Err(error),
    }
}

} // verus!
