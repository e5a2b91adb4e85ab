//! The certificate bundle of a Unix system.
//!
//! Unix systems keep their root certificates in a PEM bundle, in a directory
//! of PEM files, or in both. Where they are differs from one distribution to
//! the next and is found by probing. What was found and read is given here as
//! [`CertPaths`]; this module decides what is loaded from it.

use vstd::prelude::*;
use crate::certificate::{ders, Certificate};
use crate::error::{loaded, ErrorView, LoadError};
use crate::pem::{load_pem_certs, pem_file_certs, PemFile};

verus! {

/// A directory of certificate files as it was found on disk.
#[derive(Debug, PartialEq, Eq)]
pub struct CertDir {
    /// The path of the directory.
    pub path: String,
    /// The regular files of the directory in the order in which it lists
    /// them, or why it could not be listed.
    pub files: Result<Vec<PemFile>, LoadError>,
}

/// What probing found: a bundle, a directory, both or neither.
#[derive(Debug, PartialEq, Eq)]
pub struct CertPaths {
    /// The certificate bundle, if one was found.
    pub file: Option<PemFile>,
    /// The certificate directory, if one was found.
    pub dir: Option<CertDir>,
}

/// The certificates of a list of files, one file after the other, or the
/// failure of the first file that fails.
pub open spec fn files_certs(files: Seq<PemFile>) -> Result<Seq<Seq<u8>>, ErrorView>
    decreases files.len(),
{
    if files.len() == 0 {
        Ok(Seq::empty())
    } else {
        match files_certs(files.drop_last()) {
            Err(error) => Err(error),
            Ok(certs) => match pem_file_certs(files.last()) {
                Err(error) => Err(error),
                Ok(more) => Ok(certs + more),
            },
        }
    }
}

/// The certificates of a directory, or its failure: that of the listing, or
/// of the first file that fails.
pub open spec fn dir_certs(dir: CertDir) -> Result<Seq<Seq<u8>>, ErrorView> {
    match dir.files {
        Err(error) => Err(error@),
        Ok(files) => files_certs(files@),
    }
}

/// What [`CertPaths::load`] returns: nothing where neither a bundle nor a
/// directory was found, else the certificates of the bundle followed by
/// those of the directory, or the first failure.
pub open spec fn paths_certs(paths: CertPaths) -> Result<Option<Seq<Seq<u8>>>, ErrorView> {
    if paths.file is None && paths.dir is None {
        Ok(None)
    } else {
        let from_file = match paths.file {
            Some(file) => pem_file_certs(file),
            None => Ok(Seq::empty()),
        };
        let from_dir = match paths.dir {
            Some(dir) => dir_certs(dir),
            None => Ok(Seq::empty()),
        };
        match from_file {
            Err(error) => Err(error),
            Ok(certs) => match from_dir {
                Err(error) => Err(error),
                Ok(more) => Ok(Some(certs + more)),
            },
        }
    }
}

/// What [`load_native_certs`] returns.
pub open spec fn native_certs(paths: CertPaths) -> Result<Seq<Seq<u8>>, ErrorView> {
    match paths_certs(paths) {
        Err(error) => Err(error),
        Ok(Some(certs)) => Ok(certs),
        Ok(None) => Ok(Seq::empty()),
    }
}

/// Appends the certificates of `more` to `certs`.
fn append_certs(certs: &mut Vec<Certificate>, more: Vec<Certificate>)
    ensures
        ders(final(certs)@) == ders(old(certs)@) + ders(more@),
{
    let mut more = more;
    let ghost added = more@;
    certs.append(&mut more);
    assert(ders(certs@) =~= ders(old(certs)@) + ders(added));
}

/// Once a file has failed, the files after it do not change the failure.
proof fn lemma_failure_stays(files: Seq<PemFile>, n: int)
    requires
        0 <= n <= files.len(),
        files_certs(files.take(n)) is Err,
    ensures
        files_certs(files) == files_certs(files.take(n)),
    decreases files.len() - n,
{
    if n < files.len() {
        assert(files.take(n + 1).drop_last() =~= files.take(n));
        lemma_failure_stays(files, n + 1);
    } else {
        assert(files.take(n) =~= files);
    }
}

/// Loads the files of a directory, each as a PEM file of its own.
fn load_pem_certs_from_dir(dir: &CertDir) -> (res: Result<Vec<Certificate>, LoadError>)
    ensures
        loaded(res) == dir_certs(*dir),
{
    match &dir.files {
        Err(error) => Err(error.duplicate()),
        Ok(files) => {
            let mut certs: Vec<Certificate> = Vec::new();
            let mut i: usize = 0;
            assert(files@.take(0) =~= Seq::<PemFile>::empty());
            assert(ders(certs@) =~= Seq::<Seq<u8>>::empty());
            while i < files.len()
                invariant
                    i <= files@.len(),
                    dir_certs(*dir) == files_certs(files@),
                    files_certs(files@.take(i as int)) == Ok::<Seq<Seq<u8>>, ErrorView>(
                        ders(certs@),
                    ),
                decreases files@.len() - i,
            {
                assert(files@.take(i + 1).drop_last() =~= files@.take(i as int));
                assert(files@.take(i + 1).last() == files@[i as int]);
                match load_pem_certs(&files[i]) {
                    Err(error) => {
                        proof {
                            lemma_failure_stays(files@, i + 1);
                        }
                        return Err(error);
                    },
                    Ok(more) => {
                        append_certs(&mut certs, more);
                    },
                }
                i += 1;
            }
            assert(files@.take(i as int) =~= files@);
            Ok(certs)
        },
    }
}

impl CertPaths {
    /// The certificates of the bundle, followed by those of the files of the
    /// directory in the order in which the directory lists them.
    ///
    /// Where probing found neither, the result is `None`. A file or a
    /// directory that was found has to be readable: the first failure, of the
    /// bundle before the directory and of the listing before the files, fails
    /// the load, and with the error as it came (see [`load_pem_certs`]).
    pub fn load(&self) -> (res: Result<Option<Vec<Certificate>>, LoadError>)
        ensures
            match res {
                Ok(Some(certs)) => paths_certs(*self) == Ok::<Option<Seq<Seq<u8>>>, ErrorView>(
                    Some(ders(certs@)),
                ),
                Ok(None) => paths_certs(*self) == Ok::<Option<Seq<Seq<u8>>>, ErrorView>(None),
                Err(error) => paths_certs(*self) == Err::<Option<Seq<Seq<u8>>>, ErrorView>(error@),
            },
    {
        if self.file.is_none() && self.dir.is_none() {
            return Ok(None);
        }
        let mut certs: Vec<Certificate> = match &self.file {
            Some(file) => match load_pem_certs(file) {
                Ok(certs) => certs,
                Err(error) => {
                    return Err(error);
                },
            },
            None => Vec::new(),
        };
        match &self.dir {
            Some(dir) => match load_pem_certs_from_dir(dir) {
                Ok(more) => {
                    append_certs(&mut certs, more);
                },
                Err(error) => {
                    return Err(error);
                },
            },
            None => {
                assert(ders(certs@) + Seq::<Seq<u8>>::empty() =~= ders(certs@));
            },
        }
        Ok(Some(certs))
    }
}

/// The root certificates of a Unix system.
///
/// As [`CertPaths::load`], but where probing found nothing the result is an
/// empty list.
pub fn load_native_certs(paths: &CertPaths) -> (res: Result<Vec<Certificate>, LoadError>)
    ensures
        loaded(res) == native_certs(*paths),
{
    match paths.load() {
        Ok(Some(certs)) => Ok(certs),
        Ok(None) => {
            let certs: Vec<Certificate> = Vec::new();
            assert(ders(certs@) =~= Seq::<Seq<u8>>::empty());
            Ok(certs)
        },
        Err(error) => Err(error),
    }
}

} // verus!
