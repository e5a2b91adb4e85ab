//! The override: a certificate file named by the environment.

use vstd::prelude::*;
use crate::certificate::Certificate;
use crate::error::{loaded, LoadError};
use crate::pem::{load_pem_certs, pem_file_certs, PemFile};

verus! {

/// The environment variable that names the certificate file to use in place
/// of the platform's store.
pub const ENV_CERT_FILE: &'static str = "SSL_CERT_FILE";

/// The certificates of the file that the environment names.
///
/// `file` is `None` where [`ENV_CERT_FILE`] is not set, and then the result
/// is `None` too: the platform's store is to be used. Where the variable is
/// set, `file` holds its value as the path and what reading that path gave,
/// and the result is what the file gives and nothing else: a file that is
/// missing or unreadable is an error, never a reason to fall back.
pub fn load_certs_from_env(file: Option<&PemFile>) -> (res: Option<
    Result<Vec<Certificate>, LoadError>,
>)
    ensures
        match res {
            Some(certs) => file matches Some(named) && loaded(certs) == pem_file_certs(*named),
            None => file is None,
        },
{
    match file {
        Some(file) => Some(load_pem_certs(file)),
        None => None,
    }
}

} // verus!
