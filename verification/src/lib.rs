//! Loading of the root certificates that the host platform trusts.
//!
//! Every platform keeps its trust anchors somewhere else: a PEM bundle on
//! disk, registry-backed certificate stores, per-domain trust settings, or a
//! key store that lives inside a managed runtime. This crate holds the rules
//! that turn what such a store reports into one list of DER certificates:
//! which certificates are kept, in which order, which failures are fatal and
//! which are only recorded. Reading the store itself is left to the caller,
//! who hands the raw findings to the functions here.
//!
//! Every function carries a contract, and the contracts are checked by Verus.

pub mod android;
pub mod builder;
pub mod cert_env;
pub mod certificate;
pub mod error;
pub mod macos;
pub mod pem;
pub mod root_store;
pub mod trust_anchors;
pub mod unix;
pub mod windows;

use vstd::prelude::*;
use crate::cert_env::load_certs_from_env;
use crate::certificate::Certificate;
use crate::error::{loaded, LoadError};
use crate::pem::{pem_file_certs, PemFile};

verus! {

/// The root certificates that this machine trusts.
///
/// `env` is the certificate file that the environment names (see
/// [`load_certs_from_env`]), and `platform` loads the platform's own store.
/// Where the environment names a file, the result is what that file gives,
/// and the platform's store is not consulted at all. Where it names none,
/// the result is what `platform` returns.
pub fn load_native_certs<F: FnOnce() -> Result<Vec<Certificate>, LoadError>>(
    env: Option<&PemFile>,
    platform: F,
) -> (res: Result<Vec<Certificate>, LoadError>)
    requires
        env is None ==> platform.requires(()),
    ensures
        env matches Some(file) ==> loaded(res) == pem_file_certs(*file),
        env is None ==> platform.ensures((), res),
{
    load_certs_from_env(env).unwrap_or_else(platform)
}

} // verus!
