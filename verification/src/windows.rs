//! The Windows certificate stores: which of their certificates are loaded.
//!
//! The root certificates of a Windows machine are spread over several
//! registry-backed stores, which overlap. All of them are scanned. A
//! certificate is loaded if the time of the scan lies within its validity, if
//! it may be used to authenticate a server, and if the same certificate was
//! not loaded before. A store that cannot be opened is recorded as a failure,
//! and the scan goes on with the next store.

use vstd::prelude::*;
use crate::certificate::{contains_der, copy_bytes, ders, Certificate};
use crate::error::{
    collapsed, loaded, CertificateResult, CertificateResultView, ErrorKind, ErrorView, LoadError,
};

verus! {

/// The object identifier of the extended key usage "TLS server
/// authentication".
pub const PKIX_SERVER_AUTH: &'static str = "1.3.6.1.5.5.7.3.1";

/// A place where Windows keeps a store named `ROOT`.
#[derive(Clone, Copy, Debug, PartialEq, Eq, Structural)]
pub enum StoreLocation {
    /// The store of the current user.
    CurrentUser,
    /// The store that group policy fills for the current user.
    CurrentUserGroupPolicy,
    /// The store of the local machine.
    LocalMachine,
    /// The store that the enterprise fills for the local machine.
    LocalMachineEnterprise,
    /// The store that group policy fills for the local machine.
    LocalMachineGroupPolicy,
    /// The store of the current service.
    CurrentService,
}

/// What a certificate may be used for, as its store tells it.
#[derive(Debug, PartialEq, Eq)]
pub enum ValidUses {
    /// The certificate carries no restriction: it may be used for anything.
    All,
    /// The certificate may be used for the uses with these object
    /// identifiers, written in dotted decimal, and for no other.
    Oids(Vec<String>),
}

/// One certificate as a store holds it.
///
/// Moments are numbers on the scale on which the time of the scan is given,
/// such as the 100-nanosecond ticks in which Windows counts time.
#[derive(Debug, PartialEq, Eq)]
pub struct StoreCertificate {
    /// The certificate's DER encoding.
    pub der: Vec<u8>,
    /// The first moment at which the certificate is valid.
    pub not_before: u64,
    /// The last moment at which the certificate is valid.
    pub not_after: u64,
    /// What the certificate may be used for.
    pub uses: ValidUses,
}

/// What opening and enumerating one store gave.
#[derive(Debug, PartialEq, Eq)]
pub struct StoreScan {
    /// Where the store is.
    pub location: StoreLocation,
    /// Its certificates in the order of the enumeration, or the platform's
    /// message where the store could not be opened.
    pub certificates: Result<Vec<StoreCertificate>, String>,
}

/// The stores that are scanned, in the order of the scan.
pub fn store_locations() -> (order: [StoreLocation; 6])
    ensures
        order@ == seq![
            StoreLocation::CurrentUser,
            StoreLocation::CurrentUserGroupPolicy,
            StoreLocation::LocalMachine,
            StoreLocation::LocalMachineEnterprise,
            StoreLocation::LocalMachineGroupPolicy,
            StoreLocation::CurrentService,
        ],
{
    let order = [
        StoreLocation::CurrentUser,
        StoreLocation::CurrentUserGroupPolicy,
        StoreLocation::LocalMachine,
        StoreLocation::LocalMachineEnterprise,
        StoreLocation::LocalMachineGroupPolicy,
        StoreLocation::CurrentService,
    ];
    assert(order@ =~= seq![
        StoreLocation::CurrentUser,
        StoreLocation::CurrentUserGroupPolicy,
        StoreLocation::LocalMachine,
        StoreLocation::LocalMachineEnterprise,
        StoreLocation::LocalMachineGroupPolicy,
        StoreLocation::CurrentService,
    ]);
    order
}

/// The object identifier of server authentication, as text.
pub open spec fn server_auth() -> Seq<char> {
    PKIX_SERVER_AUTH@
}

/// Whether server authentication is among the object identifiers.
pub open spec fn names_server_auth(oids: Seq<String>) -> bool {
    exists|i: int| 0 <= i < oids.len() && (#[trigger] oids[i])@ == server_auth()
}

/// Whether a certificate with these uses may authenticate a server: it is
/// unrestricted, or server authentication is among its uses.
pub open spec fn is_usable(uses: ValidUses) -> bool {
    match uses {
        ValidUses::All => true,
        ValidUses::Oids(oids) => names_server_auth(oids@),
    }
}

/// Whether a moment lies within the validity of a certificate.
pub open spec fn is_valid_at(cert: StoreCertificate, now: u64) -> bool {
    cert.not_before <= now <= cert.not_after
}

/// Whether a certificate of a store qualifies at the time of the scan.
pub open spec fn qualifies(cert: StoreCertificate, now: u64) -> bool {
    is_valid_at(cert, now) && is_usable(cert.uses)
}

/// The certificates collected after one more certificate of a store has been
/// looked at: it is added if it qualifies and is not among them yet.
pub open spec fn collect(certs: Seq<Seq<u8>>, found: StoreCertificate, now: u64) -> Seq<Seq<u8>> {
    if qualifies(found, now) && !certs.contains(found.der@) {
        certs.push(found.der@)
    } else {
        certs
    }
}

/// The certificates collected after the certificates of a store have been
/// looked at in turn.
pub open spec fn collect_all(certs: Seq<Seq<u8>>, found: Seq<StoreCertificate>, now: u64) -> Seq<
    Seq<u8>,
>
    decreases found.len(),
{
    if found.len() == 0 {
        certs
    } else {
        collect(collect_all(certs, found.drop_last(), now), found.last(), now)
    }
}

/// How a store is named in an error.
pub open spec fn location_context(location: StoreLocation) -> Seq<char> {
    match location {
        StoreLocation::CurrentUser => "current user store"@,
        StoreLocation::CurrentUserGroupPolicy => "current user group policy store"@,
        StoreLocation::LocalMachine => "local machine store"@,
        StoreLocation::LocalMachineEnterprise => "local machine enterprise store"@,
        StoreLocation::LocalMachineGroupPolicy => "local machine group policy store"@,
        StoreLocation::CurrentService => "current service store"@,
    }
}

/// The error recorded for a store that could not be opened.
pub open spec fn store_error(location: StoreLocation, detail: Seq<char>) -> ErrorView {
    ErrorView { kind: ErrorKind::Os, context: location_context(location), detail }
}

/// The certificates collected after the stores have been scanned in turn.
pub open spec fn scanned_certs(stores: Seq<StoreScan>, now: u64) -> Seq<Seq<u8>>
    decreases stores.len(),
{
    if stores.len() == 0 {
        Seq::empty()
    } else {
        match stores.last().certificates {
            Ok(found) => collect_all(scanned_certs(stores.drop_last(), now), found@, now),
            Err(_) => scanned_certs(stores.drop_last(), now),
        }
    }
}

/// The failures recorded after the stores have been scanned in turn: one for
/// each store that could not be opened.
pub open spec fn scanned_errors(stores: Seq<StoreScan>) -> Seq<ErrorView>
    decreases stores.len(),
{
    if stores.len() == 0 {
        Seq::empty()
    } else {
        match stores.last().certificates {
            Ok(_) => scanned_errors(stores.drop_last()),
            Err(detail) => scanned_errors(stores.drop_last()).push(
                store_error(stores.last().location, detail@),
            ),
        }
    }
}

/// Whether a certificate with these bytes is held by one of the stores and
/// qualifies there.
pub open spec fn qualifies_somewhere(stores: Seq<StoreScan>, der: Seq<u8>, now: u64) -> bool {
    exists|s: int, c: int|
        0 <= s < stores.len() && (#[trigger] stores[s]).certificates is Ok && 0 <= c
            < stores[s].certificates->Ok_0@.len() && (
        #[trigger] stores[s].certificates->Ok_0@[c]).der@ == der && qualifies(
            stores[s].certificates->Ok_0@[c],
            now,
        )
}

/// Collecting adds nothing twice.
pub proof fn lemma_collect_all_keeps_distinct(
    certs: Seq<Seq<u8>>,
    found: Seq<StoreCertificate>,
    now: u64,
)
    requires
        certs.no_duplicates(),
    ensures
        collect_all(certs, found, now).no_duplicates(),
        certs.is_prefix_of(collect_all(certs, found, now)),
    decreases found.len(),
{
    if found.len() > 0 {
        lemma_collect_all_keeps_distinct(certs, found.drop_last(), now);
    }
}

/// After collecting, a certificate is among the collected exactly if it was
/// before or is one of the store's and qualifies.
pub proof fn lemma_collect_all_contains(
    certs: Seq<Seq<u8>>,
    found: Seq<StoreCertificate>,
    now: u64,
    der: Seq<u8>,
)
    ensures
        collect_all(certs, found, now).contains(der) <==> certs.contains(der) || exists|c: int|
            0 <= c < found.len() && (#[trigger] found[c]).der@ == der && qualifies(found[c], now),
    decreases found.len(),
{
    if found.len() > 0 {
        let before = collect_all(certs, found.drop_last(), now);
        let after = collect_all(certs, found, now);
        lemma_collect_all_contains(certs, found.drop_last(), now, der);
        if before.contains(der) {
            let k = choose|k: int| 0 <= k < before.len() && before[k] == der;
            assert(after[k] == der);
            if !certs.contains(der) {
                let c = choose|c: int|
                    0 <= c < found.drop_last().len() && (#[trigger] found.drop_last()[c]).der@
                        == der && qualifies(found.drop_last()[c], now);
                assert(found[c].der@ == der && qualifies(found[c], now));
            }
        }
        if after.contains(der) && !before.contains(der) {
            let k = choose|k: int| 0 <= k < after.len() && after[k] == der;
            assert(k == before.len());
            assert(found[found.len() - 1].der@ == der);
        }
        if exists|c: int|
            0 <= c < found.len() && (#[trigger] found[c]).der@ == der && qualifies(found[c], now) {
            let c = choose|c: int|
                0 <= c < found.len() && (#[trigger] found[c]).der@ == der && qualifies(
                    found[c],
                    now,
                );
            if c < found.len() - 1 {
                assert(found.drop_last()[c].der@ == der);
            } else if !before.contains(der) {
                assert(after == before.push(der));
                assert(after[before.len() as int] == der);
            }
        }
    }
}

/// No certificate is loaded twice, whatever the stores hold and however they
/// overlap.
pub proof fn lemma_scanned_certs_are_distinct(stores: Seq<StoreScan>, now: u64)
    ensures
        scanned_certs(stores, now).no_duplicates(),
    decreases stores.len(),
{
    if stores.len() > 0 {
        lemma_scanned_certs_are_distinct(stores.drop_last(), now);
        match stores.last().certificates {
            Ok(found) => {
                lemma_collect_all_keeps_distinct(
                    scanned_certs(stores.drop_last(), now),
                    found@,
                    now,
                );
            },
            Err(_) => {},
        }
    }
}

/// The loaded certificates are the union of what qualifies in the stores: a
/// certificate is loaded exactly if some store that could be opened holds
/// it, the time of the scan lies within its validity there, and it is
/// unrestricted or usable for server authentication there.
pub proof fn lemma_scanned_certs_are_the_qualified(stores: Seq<StoreScan>, now: u64, der: Seq<u8>)
    ensures
        scanned_certs(stores, now).contains(der) <==> qualifies_somewhere(stores, der, now),
    decreases stores.len(),
{
    if stores.len() > 0 {
        let earlier = stores.drop_last();
        lemma_scanned_certs_are_the_qualified(earlier, now, der);
        let last = stores.len() - 1;
        if qualifies_somewhere(earlier, der, now) {
            let (s, c) = choose|s: int, c: int|
                0 <= s < earlier.len() && (#[trigger] earlier[s]).certificates is Ok && 0 <= c
                    < earlier[s].certificates->Ok_0@.len() && (
                #[trigger] earlier[s].certificates->Ok_0@[c]).der@ == der && qualifies(
                    earlier[s].certificates->Ok_0@[c],
                    now,
                );
            assert(stores[s].certificates is Ok && stores[s].certificates->Ok_0@[c].der@ == der);
        }
        if qualifies_somewhere(stores, der, now) && !qualifies_somewhere(earlier, der, now) {
            let (s, c) = choose|s: int, c: int|
                0 <= s < stores.len() && (#[trigger] stores[s]).certificates is Ok && 0 <= c
                    < stores[s].certificates->Ok_0@.len() && (
                #[trigger] stores[s].certificates->Ok_0@[c]).der@ == der && qualifies(
                    stores[s].certificates->Ok_0@[c],
                    now,
                );
            if s < last {
                assert(earlier[s].certificates is Ok && earlier[s].certificates->Ok_0@[c].der@
                    == der);
            }
        }
        match stores.last().certificates {
            Ok(found) => {
                lemma_collect_all_contains(scanned_certs(earlier, now), found@, now, der);
                if exists|c: int|
                    0 <= c < found@.len() && (#[trigger] found@[c]).der@ == der && qualifies(
                        found@[c],
                        now,
                    ) {
                    let c = choose|c: int|
                        0 <= c < found@.len() && (#[trigger] found@[c]).der@ == der && qualifies(
                            found@[c],
                            now,
                        );
                    assert(stores[last].certificates is Ok && stores[last].certificates->Ok_0@[c].der@
                        == der);
                }
            },
            Err(_) => {},
        }
    }
}

/// The stores that come first keep their places: what a later store holds
/// changes nothing of what was loaded from the earlier ones.
pub proof fn lemma_later_store_adds_only(stores: Seq<StoreScan>, now: u64)
    requires
        stores.len() > 0,
    ensures
        scanned_certs(stores.drop_last(), now).is_prefix_of(scanned_certs(stores, now)),
        scanned_errors(stores.drop_last()).is_prefix_of(scanned_errors(stores)),
{
    match stores.last().certificates {
        Ok(found) => {
            lemma_scanned_certs_are_distinct(stores.drop_last(), now);
            lemma_collect_all_keeps_distinct(scanned_certs(stores.drop_last(), now), found@, now);
        },
        Err(_) => {},
    }
}

/// Whether a certificate with these uses may authenticate a server.
pub fn usable_for_rustls(uses: &ValidUses) -> (usable: bool)
    ensures
        usable == is_usable(*uses),
{
    match uses {
        ValidUses::All => true,
        ValidUses::Oids(oids) => {
            let wanted = String::from_str(PKIX_SERVER_AUTH);
            let mut i: usize = 0;
            while i < oids.len()
                invariant
                    i <= oids@.len(),
                    wanted@ == server_auth(),
                    is_usable(*uses) == names_server_auth(oids@),
                    forall|j: int| 0 <= j < i ==> (#[trigger] oids@[j])@ != server_auth(),
                decreases oids@.len() - i,
            {
                if oids[i] == wanted {
                    assert(oids@[i as int]@ == server_auth());
                    return true;
                }
                i += 1;
            }
            false
        },
    }
}

/// Whether a moment lies within the validity of a certificate.
pub fn is_time_valid(cert: &StoreCertificate, now: u64) -> (valid: bool)
    ensures
        valid == is_valid_at(*cert, now),
{
    cert.not_before <= now && now <= cert.not_after
}

/// The name of a store, for errors.
fn location_name(location: StoreLocation) -> (name: String)
    ensures
        name@ == location_context(location),
{
    match location {
        StoreLocation::CurrentUser => String::from_str("current user store"),
        StoreLocation::CurrentUserGroupPolicy => String::from_str(
            "current user group policy store",
        ),
        StoreLocation::LocalMachine => String::from_str("local machine store"),
        StoreLocation::LocalMachineEnterprise => String::from_str("local machine enterprise store"),
        StoreLocation::LocalMachineGroupPolicy => String::from_str(
            "local machine group policy store",
        ),
        StoreLocation::CurrentService => String::from_str("current service store"),
    }
}

/// Looks at the certificates of one store and adds those that qualify and
/// are not there yet.
fn collect_store(certs: &mut Vec<Certificate>, found: &Vec<StoreCertificate>, now: u64)
    ensures
        ders(final(certs)@) == collect_all(ders(old(certs)@), found@, now),
{
    let mut i: usize = 0;
    assert(found@.take(0) =~= Seq::<StoreCertificate>::empty());
    while i < found.len()
        invariant
            i <= found@.len(),
            ders(certs@) == collect_all(ders(old(certs)@), found@.take(i as int), now),
        decreases found@.len() - i,
    {
        assert(found@.take(i + 1).drop_last() =~= found@.take(i as int));
        assert(found@.take(i + 1).last() == found@[i as int]);
        let cert = &found[i];
        if is_time_valid(cert, now) && usable_for_rustls(&cert.uses) && !contains_der(
            certs,
            cert.der.as_slice(),
        ) {
            let ghost before = ders(certs@);
            certs.push(Certificate::new(copy_bytes(cert.der.as_slice())));
            assert(ders(certs@) =~= before.push(cert.der@));
        }
        i += 1;
    }
    assert(found@.take(i as int) =~= found@);
}

/// The certificates of the stores that qualify at `now`, together with the
/// failures to open a store.
///
/// The stores are taken in the order given, each store's certificates in
/// the order of its enumeration. A certificate is loaded if `now` lies
/// within its validity, if it is unrestricted or names server authentication
/// among its uses, and if no certificate with the same bytes was loaded
/// before it. A store that could not be opened adds one failure, which names
/// the store, and no certificate; the stores after it are scanned all the
/// same.
pub fn scan_stores(stores: &Vec<StoreScan>, now: u64) -> (result: CertificateResult)
    ensures
        result@.certs == scanned_certs(stores@, now),
        result@.errors == scanned_errors(stores@),
        result@.certs.no_duplicates(),
        forall|der: Seq<u8>| #[trigger]
            result@.certs.contains(der) <==> qualifies_somewhere(stores@, der, now),
{
    let mut result = CertificateResult::new();
    let mut i: usize = 0;
    assert(stores@.take(0) =~= Seq::<StoreScan>::empty());
    while i < stores.len()
        invariant
            i <= stores@.len(),
            result@.certs == scanned_certs(stores@.take(i as int), now),
            result@.errors == scanned_errors(stores@.take(i as int)),
        decreases stores@.len() - i,
    {
        assert(stores@.take(i + 1).drop_last() =~= stores@.take(i as int));
        assert(stores@.take(i + 1).last() == stores@[i as int]);
        let store = &stores[i];
        match &store.certificates {
            Ok(found) => {
                collect_store(&mut result.certs, found, now);
            },
            Err(detail) => {
                result.push_error(
                    LoadError::new(ErrorKind::Os, location_name(store.location), detail.clone()),
                );
            },
        }
        i += 1;
    }
    assert(stores@.take(i as int) =~= stores@);
    proof {
        lemma_scanned_certs_are_distinct(stores@, now);
        assert forall|der: Seq<u8>| #[trigger]
            result@.certs.contains(der) <==> qualifies_somewhere(stores@, der, now) by {
            lemma_scanned_certs_are_the_qualified(stores@, now, der);
        }
    }
    result
}

/// What [`load_native_certs`] returns.
pub open spec fn native_certs(stores: Seq<StoreScan>, now: u64) -> Result<Seq<Seq<u8>>, ErrorView> {
    collapsed(
        CertificateResultView {
            certs: scanned_certs(stores, now),
            errors: scanned_errors(stores),
        },
    )
}

/// The root certificates of the Windows stores, all or nothing.
///
/// The stores are scanned as [`scan_stores`] says. The load fails only if
/// not a single certificate was loaded and at least one store could not be
/// opened, and then with the failure of the first such store. Otherwise the
/// result holds the loaded certificates, and the failures are dropped.
pub fn load_native_certs(stores: &Vec<StoreScan>, now: u64) -> (res: Result<
    Vec<Certificate>,
    LoadError,
>)
    ensures
        loaded(res) == native_certs(stores@, now),
        res matches Ok(certs) ==> ders(certs@).no_duplicates() && forall|der: Seq<u8>| #[trigger]
            ders(certs@).contains(der) <==> qualifies_somewhere(stores@, der, now),
{
    let result = scan_stores(stores, now);
    result.into_result()
}

} // verus!
