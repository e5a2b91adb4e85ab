//! Errors, and results that keep what was loaded before an error.

use vstd::prelude::*;
use crate::certificate::{ders, Certificate};

verus! {

/// What went wrong, as far as a caller can act on it.
#[derive(Clone, Copy, Debug, PartialEq, Eq, Structural)]
pub enum ErrorKind {
    /// The file does not exist.
    NotFound,
    /// The file exists but may not be read.
    PermissionDenied,
    /// The data was read but is not what it should be.
    InvalidData,
    /// The platform refused or failed an operation.
    Os,
    /// Any other failure while reading.
    Other,
}

/// A failure while loading certificates.
#[derive(Clone, Debug, PartialEq, Eq)]
pub struct LoadError {
    /// The class of the failure.
    pub kind: ErrorKind,
    /// Where it happened: the file, store, domain or alias.
    pub context: String,
    /// What the platform or the decoder reported.
    pub detail: String,
}

/// The mathematical content of a [`LoadError`].
pub struct ErrorView {
    pub kind: ErrorKind,
    pub context: Seq<char>,
    pub detail: Seq<char>,
}

impl View for LoadError {
    type V = ErrorView;

    open spec fn view(&self) -> ErrorView {
        ErrorView { kind: self.kind, context: self.context@, detail: self.detail@ }
    }
}

/// The contents of a list of errors, in the same order.
pub open spec fn error_views(errors: Seq<LoadError>) -> Seq<ErrorView> {
    Seq::new(errors.len(), |i: int| errors[i]@)
}

impl LoadError {
    /// An error of the given kind.
    pub fn new(kind: ErrorKind, context: String, detail: String) -> (error: LoadError)
        ensures
            error@ == (ErrorView { kind, context: context@, detail: detail@ }),
    {
        LoadError { kind, context, detail }
    }

    /// A copy of the error.
    pub fn duplicate(&self) -> (copy: LoadError)
        ensures
            copy@ == self@,
    {
        LoadError {
            kind: self.kind,
            context: self.context.clone(),
            detail: self.detail.clone(),
        }
    }

    /// The class of the failure.
    pub fn kind(&self) -> (kind: ErrorKind)
        ensures
            kind == self@.kind,
    {
        self.kind
    }

    /// Context and detail in one line, separated by a colon and a space.
    pub fn message(&self) -> (text: String)
        ensures
            text@ == self@.context + ": "@ + self@.detail,
    {
        let mut text = self.context.clone();
        text.append(": ");
        text.append(self.detail.as_str());
        text
    }
}

/// Certificates together with the failures met while collecting them.
///
/// Both lists may be non-empty at once: a failure is recorded and does not
/// discard what was loaded before or after it.
#[derive(Clone, Debug, PartialEq, Eq)]
pub struct CertificateResult {
    /// The certificates that were loaded, in the order in which they were found.
    pub certs: Vec<Certificate>,
    /// The failures that were met, in the order in which they happened.
    pub errors: Vec<LoadError>,
}

/// The mathematical content of a [`CertificateResult`].
pub struct CertificateResultView {
    pub certs: Seq<Seq<u8>>,
    pub errors: Seq<ErrorView>,
}

impl View for CertificateResult {
    type V = CertificateResultView;

    open spec fn view(&self) -> CertificateResultView {
        CertificateResultView { certs: ders(self.certs@), errors: error_views(self.errors@) }
    }
}

/// What [`CertificateResult::into_result`] makes of a result.
pub open spec fn collapsed(result: CertificateResultView) -> Result<Seq<Seq<u8>>, ErrorView> {
    if result.certs.len() == 0 && result.errors.len() > 0 {
        Err(result.errors[0])
    } else {
        Ok(result.certs)
    }
}

impl CertificateResult {
    /// A result with no certificates and no errors.
    pub fn new() -> (result: CertificateResult)
        ensures
            result@.certs == Seq::<Seq<u8>>::empty(),
            result@.errors == Seq::<ErrorView>::empty(),
    {
        CertificateResult { certs: Vec::new(), errors: Vec::new() }
    }

    /// Appends a certificate.
    pub fn push_cert(&mut self, cert: Certificate)
        ensures
            final(self)@.certs == old(self)@.certs.push(cert@),
            final(self)@.errors == old(self)@.errors,
    {
        self.certs.push(cert);
        assert(ders(self.certs@) =~= ders(old(self).certs@).push(cert@));
    }

    /// Appends a failure.
    pub fn push_error(&mut self, error: LoadError)
        ensures
            final(self)@.certs == old(self)@.certs,
            final(self)@.errors == old(self)@.errors.push(error@),
    {
        self.errors.push(error);
        assert(error_views(self.errors@) =~= error_views(old(self).errors@).push(error@));
    }

    /// All or nothing: the certificates if there are any or nothing went
    /// wrong, else the first failure.
    ///
    /// Partial success stays a success. Only a result without a single
    /// certificate and with at least one failure becomes an error.
    pub fn into_result(self) -> (res: Result<Vec<Certificate>, LoadError>)
        ensures
            match res {
                Ok(certs) => collapsed(self@) == Ok::<Seq<Seq<u8>>, ErrorView>(ders(certs@)),
                Err(error) => collapsed(self@) == Err::<Seq<Seq<u8>>, ErrorView>(error@),
            },
    {
        let CertificateResult { certs, errors } = self;
        let mut errors = errors;
        if certs.len() == 0 && errors.len() > 0 {
            let first = errors.remove(0);
            Err(first)
        } else {
            Ok(certs)
        }
    }
}

impl Default for CertificateResult {
    fn default() -> (result: CertificateResult)
        ensures
            result@.certs == Seq::<Seq<u8>>::empty(),
            result@.errors == Seq::<ErrorView>::empty(),
    {
        CertificateResult::new()
    }
}

/// The result of a load, as contracts see it.
pub open spec fn loaded(res: Result<Vec<Certificate>, LoadError>) -> Result<
    Seq<Seq<u8>>,
    ErrorView,
> {
    match res {
        Ok(certs) => Ok(ders(certs@)),
        Err(error) => Err(error@),
    }
}

/// Either everything, or an error together with what was loaded before it.
pub type PartialResult<T, E> = Result<T, (Option<T>, E)>;

/// What became of a load into a store: the store if nothing failed, else
/// the failure, together with the store unless it is empty.
///
/// `empty` says whether the store holds nothing.
pub fn partial_result<T>(store: T, empty: bool, outcome: Result<(), LoadError>) -> (res:
    PartialResult<T, LoadError>)
    ensures
        outcome is Ok ==> res == Ok::<T, (Option<T>, LoadError)>(store),
        outcome matches Err(error) ==> res == Err::<T, (Option<T>, LoadError)>(
            (
                if empty {
                    None
                } else {
                    Some(store)
                },
                error,
            ),
        ),
{
    match outcome {
        Ok(()) => Ok(store),
        Err(error) => if empty {
            Err((None, error))
        } else {
            Err((Some(store), error))
        },
    }
}

} // verus!
