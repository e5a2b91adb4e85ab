//! The macOS trust settings: three domains merged under a fixed precedence.
//!
//! Trust settings exist per user, per machine as set by an administrator, and
//! for the system as shipped. A certificate may be listed in several domains
//! with different settings. The user's settings override the administrator's,
//! which override the system's: the domains are read in that order, and the
//! first setting found for a certificate is the one that counts. In the end
//! only certificates whose setting is to trust them take part in the result.
//!
//! Any failure to query a domain, or the setting of one certificate, fails
//! the whole load.

use vstd::prelude::*;
use crate::certificate::{bytes_eq, copy_bytes, ders, Certificate};
use crate::error::{ErrorKind, ErrorView, LoadError};

verus! {

/// A set of trust settings.
#[derive(Clone, Copy, Debug, PartialEq, Eq, Structural)]
pub enum Domain {
    /// The settings of the current user.
    User,
    /// The settings of the local administrator.
    Admin,
    /// The settings shipped with the system.
    System,
}

/// What a domain says of one certificate, for TLS.
#[derive(Clone, Copy, Debug, PartialEq, Eq, Structural)]
pub enum TrustSettingsForCertificate {
    /// Not a setting that is in use.
    Invalid,
    /// A root certificate that is trusted.
    TrustRoot,
    /// Not a root certificate, but trusted like one.
    TrustAsRoot,
    /// Explicitly distrusted.
    Deny,
    /// Neither trusted nor distrusted.
    Unspecified,
}

/// One certificate as a domain lists it.
#[derive(Debug, PartialEq, Eq)]
pub struct TrustEntry {
    /// The certificate's DER encoding.
    pub der: Vec<u8>,
    /// The domain's setting for it: `Ok(None)` where the domain lists the
    /// certificate without a setting for TLS, `Err` with the platform's
    /// message where the setting could not be queried.
    pub trust: Result<Option<TrustSettingsForCertificate>, String>,
}

/// What querying one domain gave: its entries in the order in which the
/// platform lists them, or the platform's message where the query failed.
pub type DomainQuery = Result<Vec<TrustEntry>, String>;

/// A certificate's identity with the setting that counts for it.
pub struct Record {
    pub der: Seq<u8>,
    pub trust: TrustSettingsForCertificate,
}

/// The order in which the domains are consulted: the first overrides the
/// second, which overrides the third.
pub fn domains() -> (order: [Domain; 3])
    ensures
        order@ == seq![Domain::User, Domain::Admin, Domain::System],
{
    let order = [Domain::User, Domain::Admin, Domain::System];
    assert(order@ =~= seq![Domain::User, Domain::Admin, Domain::System]);
    order
}

/// The setting that counts for a listed certificate: a certificate that a
/// domain lists without a setting for TLS is trusted as a root.
pub open spec fn effective(trust: Option<TrustSettingsForCertificate>)
    -> TrustSettingsForCertificate {
    match trust {
        Some(setting) => setting,
        None => TrustSettingsForCertificate::TrustRoot,
    }
}

/// Whether a setting admits the certificate as a trust anchor.
pub open spec fn is_trusted(trust: TrustSettingsForCertificate) -> bool {
    trust is TrustRoot || trust is TrustAsRoot
}

/// Whether a certificate with these bytes has a record.
pub open spec fn has_record(records: Seq<Record>, der: Seq<u8>) -> bool {
    exists|i: int| 0 <= i < records.len() && #[trigger] records[i].der == der
}

/// Recording one more finding: it counts only if the certificate has no
/// record yet.
pub open spec fn record(records: Seq<Record>, found: Record) -> Seq<Record> {
    if has_record(records, found.der) {
        records
    } else {
        records.push(found)
    }
}

/// The record that an entry stands for. Meant for entries whose setting
/// could be queried.
pub open spec fn entry_record(entry: TrustEntry) -> Record {
    Record {
        der: entry.der@,
        trust: match entry.trust {
            Ok(trust) => effective(trust),
            Err(_) => TrustSettingsForCertificate::Invalid,
        },
    }
}

/// Recording the entries of a domain, one after the other.
pub open spec fn record_entries(records: Seq<Record>, entries: Seq<TrustEntry>) -> Seq<Record>
    decreases entries.len(),
{
    if entries.len() == 0 {
        records
    } else {
        record(record_entries(records, entries.drop_last()), entry_record(entries.last()))
    }
}

/// The entries of a domain whose query succeeded; none for one that failed.
pub open spec fn entries_of(query: DomainQuery) -> Seq<TrustEntry> {
    match query {
        Ok(entries) => entries@,
        Err(_) => Seq::empty(),
    }
}

/// The records after the three domains have been read in order of
/// precedence.
pub open spec fn merged(user: DomainQuery, admin: DomainQuery, system: DomainQuery) -> Seq<
    Record,
> {
    record_entries(
        record_entries(record_entries(Seq::empty(), entries_of(user)), entries_of(admin)),
        entries_of(system),
    )
}

/// The certificates among the records whose setting is to trust them, in the
/// order of the records.
pub open spec fn trusted_ders(records: Seq<Record>) -> Seq<Seq<u8>>
    decreases records.len(),
{
    if records.len() == 0 {
        Seq::empty()
    } else if is_trusted(records.last().trust) {
        trusted_ders(records.drop_last()).push(records.last().der)
    } else {
        trusted_ders(records.drop_last())
    }
}

/// How a domain is named in an error.
pub open spec fn domain_context(domain: Domain) -> Seq<char> {
    match domain {
        Domain::User => "user trust settings"@,
        Domain::Admin => "admin trust settings"@,
        Domain::System => "system trust settings"@,
    }
}

/// The error for a failure in a domain.
pub open spec fn domain_error(domain: Domain, detail: Seq<char>) -> ErrorView {
    ErrorView { kind: ErrorKind::Os, context: domain_context(domain), detail }
}

/// The first entry, in order, whose setting could not be queried, as the
/// error it causes.
pub open spec fn entries_failure(domain: Domain, entries: Seq<TrustEntry>) -> Option<ErrorView>
    decreases entries.len(),
{
    if entries.len() == 0 {
        None
    } else {
        match entries_failure(domain, entries.drop_last()) {
            Some(error) => Some(error),
            None => match entries.last().trust {
                Err(detail) => Some(domain_error(domain, detail@)),
                Ok(_) => None,
            },
        }
    }
}

/// The failure of a domain, if it has one: that of the query itself, or of
/// the first entry whose setting could not be queried.
pub open spec fn domain_failure(domain: Domain, query: DomainQuery) -> Option<ErrorView> {
    match query {
        Err(detail) => Some(domain_error(domain, detail@)),
        Ok(entries) => entries_failure(domain, entries@),
    }
}

/// The failure that the load ends with, if any: the first in the order in
/// which the domains are read.
pub open spec fn first_failure(user: DomainQuery, admin: DomainQuery, system: DomainQuery)
    -> Option<ErrorView> {
    match domain_failure(Domain::User, user) {
        Some(error) => Some(error),
        None => match domain_failure(Domain::Admin, admin) {
            Some(error) => Some(error),
            None => domain_failure(Domain::System, system),
        },
    }
}

/// What [`load_native_certs`] returns.
pub open spec fn native_certs(user: DomainQuery, admin: DomainQuery, system: DomainQuery)
    -> Result<Seq<Seq<u8>>, ErrorView> {
    match first_failure(user, admin, system) {
        Some(error) => Err(error),
        None => Ok(trusted_ders(merged(user, admin, system))),
    }
}

/// Whether no two records are of the same certificate.
pub open spec fn distinct(records: Seq<Record>) -> bool {
    forall|i: int, j: int|
        0 <= i < j < records.len() ==> #[trigger] records[i].der != #[trigger] records[j].der
}

/// The index of the first entry with these bytes, or the number of entries
/// if there is none.
pub open spec fn first_listing(entries: Seq<TrustEntry>, der: Seq<u8>) -> int
    decreases entries.len(),
{
    if entries.len() == 0 {
        0
    } else {
        let before = first_listing(entries.drop_last(), der);
        if before < entries.len() - 1 || entries.last().der@ == der {
            before
        } else {
            entries.len() as int
        }
    }
}

/// The setting recorded for a certificate.
pub open spec fn recorded_trust(records: Seq<Record>, der: Seq<u8>)
    -> TrustSettingsForCertificate
    recommends
        has_record(records, der),
{
    let i = choose|i: int| 0 <= i < records.len() && #[trigger] records[i].der == der;
    records[i].trust
}

/// Recording keeps every record in its place: a setting that was recorded
/// is never replaced by a later one.
pub proof fn lemma_recording_keeps_records(records: Seq<Record>, entries: Seq<TrustEntry>)
    ensures
        records.is_prefix_of(record_entries(records, entries)),
    decreases entries.len(),
{
    if entries.len() > 0 {
        lemma_recording_keeps_records(records, entries.drop_last());
    }
}

/// Recording never gives one certificate two records.
pub proof fn lemma_recording_keeps_distinct(records: Seq<Record>, entries: Seq<TrustEntry>)
    requires
        distinct(records),
    ensures
        distinct(record_entries(records, entries)),
    decreases entries.len(),
{
    if entries.len() > 0 {
        lemma_recording_keeps_distinct(records, entries.drop_last());
        let before = record_entries(records, entries.drop_last());
        let found = entry_record(entries.last());
        if !has_record(before, found.der) {
            assert forall|i: int, j: int| 0 <= i < j < before.push(found).len() implies (
            #[trigger] before.push(found)[i].der) != (#[trigger] before.push(found)[j].der) by {
                if j == before.len() {
                    assert(before[i].der != found.der);
                }
            }
        }
    }
}

/// After recording, a certificate has a record exactly if it had one before
/// or is among the entries.
pub proof fn lemma_recorded_exactly_the_listed(
    records: Seq<Record>,
    entries: Seq<TrustEntry>,
    der: Seq<u8>,
)
    ensures
        has_record(record_entries(records, entries), der) <==> has_record(records, der)
            || first_listing(entries, der) < entries.len(),
        0 <= first_listing(entries, der) <= entries.len(),
        first_listing(entries, der) < entries.len() ==> entries[first_listing(
            entries,
            der,
        )].der@ == der,
    decreases entries.len(),
{
    if entries.len() > 0 {
        lemma_recorded_exactly_the_listed(records, entries.drop_last(), der);
        let before = record_entries(records, entries.drop_last());
        let found = entry_record(entries.last());
        let after = record(before, found);
        if has_record(before, der) {
            let i = choose|i: int| 0 <= i < before.len() && #[trigger] before[i].der == der;
            lemma_recording_keeps_records(before, seq![entries.last()]);
            assert(after[i].der == der);
        }
        if has_record(after, der) && !has_record(before, der) {
            let i = choose|i: int| 0 <= i < after.len() && #[trigger] after[i].der == der;
            assert(i == before.len());
        }
        if found.der == der && !has_record(before, der) {
            assert(after[before.len() as int].der == der);
        }
    }
}

/// The setting recorded for a certificate that had no record before is the
/// one of its first entry.
pub proof fn lemma_first_listing_is_recorded(
    records: Seq<Record>,
    entries: Seq<TrustEntry>,
    der: Seq<u8>,
)
    requires
        distinct(records),
        !has_record(records, der),
        first_listing(entries, der) < entries.len(),
    ensures
        has_record(record_entries(records, entries), der),
        recorded_trust(record_entries(records, entries), der) == entry_record(
            entries[first_listing(entries, der)],
        ).trust,
    decreases entries.len(),
{
    let after = record_entries(records, entries);
    lemma_recorded_exactly_the_listed(records, entries, der);
    lemma_recording_keeps_distinct(records, entries);
    let chosen = choose|i: int| 0 <= i < after.len() && #[trigger] after[i].der == der;
    let before = record_entries(records, entries.drop_last());
    lemma_recorded_exactly_the_listed(records, entries.drop_last(), der);
    lemma_recording_keeps_distinct(records, entries.drop_last());
    if first_listing(entries.drop_last(), der) < entries.len() - 1 {
        lemma_first_listing_is_recorded(records, entries.drop_last(), der);
        let earlier = choose|i: int| 0 <= i < before.len() && #[trigger] before[i].der == der;
        assert(after[earlier] == before[earlier]);
        assert(chosen == earlier) by {
            if chosen < earlier {
                assert(after[chosen].der != after[earlier].der);
            }
            if earlier < chosen {
                assert(after[earlier].der != after[chosen].der);
            }
        }
        assert(entries.drop_last()[first_listing(entries.drop_last(), der)] == entries[first_listing(
            entries,
            der,
        )]);
    } else {
        assert(!has_record(before, der));
        assert(after == before.push(entry_record(entries.last())));
        assert(chosen == before.len()) by {
            if chosen < before.len() {
                assert(before[chosen].der == der);
            }
        }
    }
}

/// A certificate is among the trusted ones exactly if it has a record whose
/// setting is to trust it.
pub proof fn lemma_trusted_are_the_trusted_records(records: Seq<Record>, der: Seq<u8>)
    ensures
        trusted_ders(records).contains(der) <==> exists|i: int|
            0 <= i < records.len() && #[trigger] records[i].der == der && is_trusted(
                records[i].trust,
            ),
    decreases records.len(),
{
    if records.len() > 0 {
        let before = records.drop_last();
        lemma_trusted_are_the_trusted_records(before, der);
        let out = trusted_ders(records);
        if trusted_ders(before).contains(der) {
            let k = choose|k: int|
                0 <= k < trusted_ders(before).len() && trusted_ders(before)[k] == der;
            assert(out[k] == der);
            let i = choose|i: int|
                0 <= i < before.len() && #[trigger] before[i].der == der && is_trusted(
                    before[i].trust,
                );
            assert(records[i].der == der && is_trusted(records[i].trust));
        }
        if out.contains(der) && !trusted_ders(before).contains(der) {
            let k = choose|k: int| 0 <= k < out.len() && out[k] == der;
            assert(is_trusted(records.last().trust));
            if k < out.len() - 1 {
                assert(trusted_ders(before)[k] == der);
            }
            assert(records[records.len() - 1].der == der);
        }
        if exists|i: int|
            0 <= i < records.len() && #[trigger] records[i].der == der && is_trusted(
                records[i].trust,
            ) {
            let i = choose|i: int|
                0 <= i < records.len() && #[trigger] records[i].der == der && is_trusted(
                    records[i].trust,
                );
            if i < records.len() - 1 {
                assert(before[i].der == der && is_trusted(before[i].trust));
            } else {
                assert(out.last() == der);
                assert(out[out.len() - 1] == der);
            }
        }
    }
}

/// The trusted certificates of distinct records are distinct.
pub proof fn lemma_trusted_are_distinct(records: Seq<Record>)
    requires
        distinct(records),
    ensures
        trusted_ders(records).no_duplicates(),
    decreases records.len(),
{
    if records.len() > 0 {
        let before = records.drop_last();
        lemma_trusted_are_distinct(before);
        if is_trusted(records.last().trust) {
            let out = trusted_ders(records);
            let der = records.last().der;
            lemma_trusted_are_the_trusted_records(before, der);
            assert forall|i: int, j: int| 0 <= i < out.len() && 0 <= j < out.len() && i != j implies out[i]
                != out[j] by {
                if i == out.len() - 1 && out[j] == der {
                    assert(trusted_ders(before)[j] == der);
                    let k = choose|k: int|
                        0 <= k < before.len() && #[trigger] before[k].der == der;
                    assert(records[k].der != records[records.len() - 1].der);
                }
                if j == out.len() - 1 && out[i] == der {
                    assert(trusted_ders(before)[i] == der);
                    let k = choose|k: int|
                        0 <= k < before.len() && #[trigger] before[k].der == der;
                    assert(records[k].der != records[records.len() - 1].der);
                }
            }
        }
    }
}

/// The user's setting decides: for a certificate that the user's domain
/// lists, whether it is loaded depends on the setting of its first entry
/// there and on nothing that the administrator's or the system's domain says
/// of it.
pub proof fn lemma_user_setting_takes_precedence(
    user: DomainQuery,
    admin: DomainQuery,
    system: DomainQuery,
    der: Seq<u8>,
)
    requires
        first_failure(user, admin, system) is None,
        first_listing(entries_of(user), der) < entries_of(user).len(),
    ensures
        native_certs(user, admin, system) matches Ok(certs) && (certs.contains(der) <==> is_trusted(
            entry_record(entries_of(user)[first_listing(entries_of(user), der)]).trust,
        )),
{
    let empty = Seq::<Record>::empty();
    let after_user = record_entries(empty, entries_of(user));
    let after_admin = record_entries(after_user, entries_of(admin));
    let all = record_entries(after_admin, entries_of(system));
    lemma_first_listing_is_recorded(empty, entries_of(user), der);
    lemma_recording_keeps_distinct(empty, entries_of(user));
    lemma_recording_keeps_distinct(after_user, entries_of(admin));
    lemma_recording_keeps_distinct(after_admin, entries_of(system));
    lemma_recording_keeps_records(after_user, entries_of(admin));
    lemma_recording_keeps_records(after_admin, entries_of(system));
    let i = choose|i: int| 0 <= i < after_user.len() && #[trigger] after_user[i].der == der;
    assert(after_admin[i] == after_user[i]);
    assert(all[i] == after_user[i]);
    lemma_trusted_are_the_trusted_records(all, der);
    if trusted_ders(all).contains(der) {
        let k = choose|k: int|
            0 <= k < all.len() && #[trigger] all[k].der == der && is_trusted(all[k].trust);
        if k < i {
            assert(all[k].der != all[i].der);
        }
        if i < k {
            assert(all[i].der != all[k].der);
        }
    }
}

/// No certificate is loaded twice.
pub proof fn lemma_native_certs_are_distinct(
    user: DomainQuery,
    admin: DomainQuery,
    system: DomainQuery,
)
    ensures
        native_certs(user, admin, system) matches Ok(certs) ==> certs.no_duplicates(),
{
    let empty = Seq::<Record>::empty();
    let after_user = record_entries(empty, entries_of(user));
    let after_admin = record_entries(after_user, entries_of(admin));
    lemma_recording_keeps_distinct(empty, entries_of(user));
    lemma_recording_keeps_distinct(after_user, entries_of(admin));
    lemma_recording_keeps_distinct(after_admin, entries_of(system));
    lemma_trusted_are_distinct(merged(user, admin, system));
}

/// A record as the merge keeps it.
struct Recorded {
    der: Vec<u8>,
    trust: TrustSettingsForCertificate,
}

impl View for Recorded {
    type V = Record;

    closed spec fn view(&self) -> Record {
        Record { der: self.der@, trust: self.trust }
    }
}

/// The contents of a list of kept records.
spec fn records_of(kept: Seq<Recorded>) -> Seq<Record> {
    Seq::new(kept.len(), |i: int| kept[i]@)
}

/// The name of a domain, for errors.
fn domain_name(domain: Domain) -> (name: String)
    ensures
        name@ == domain_context(domain),
{
    match domain {
        Domain::User => String::from_str("user trust settings"),
        Domain::Admin => String::from_str("admin trust settings"),
        Domain::System => String::from_str("system trust settings"),
    }
}

/// Whether a certificate with these bytes has been recorded.
fn is_recorded(kept: &Vec<Recorded>, der: &[u8]) -> (found: bool)
    ensures
        found == has_record(records_of(kept@), der@),
{
    let mut i: usize = 0;
    while i < kept.len()
        invariant
            i <= kept@.len(),
            forall|j: int| 0 <= j < i ==> (#[trigger] records_of(kept@)[j]).der != der@,
        decreases kept@.len() - i,
    {
        if bytes_eq(kept[i].der.as_slice(), der) {
            assert(records_of(kept@)[i as int].der == der@);
            return true;
        }
        i += 1;
    }
    false
}

/// Reads one domain into the records: every entry whose certificate has no
/// record yet is recorded with the setting that counts for it.
fn record_domain(kept: &mut Vec<Recorded>, domain: Domain, query: &DomainQuery) -> (res: Result<
    (),
    LoadError,
>)
    ensures
        match res {
            Ok(()) => domain_failure(domain, *query) is None && records_of(final(kept)@)
                == record_entries(records_of(old(kept)@), entries_of(*query)),
            Err(error) => domain_failure(domain, *query) == Some(error@),
        },
{
    match query {
        Err(detail) => Err(LoadError::new(ErrorKind::Os, domain_name(domain), detail.clone())),
        Ok(entries) => {
            let mut i: usize = 0;
            assert(entries@.take(0) =~= Seq::<TrustEntry>::empty());
            while i < entries.len()
                invariant
                    i <= entries@.len(),
                    domain_failure(domain, *query) == entries_failure(domain, entries@),
                    entries_failure(domain, entries@.take(i as int)) is None,
                    records_of(kept@) == record_entries(
                        records_of(old(kept)@),
                        entries@.take(i as int),
                    ),
                decreases entries@.len() - i,
            {
                let entry = &entries[i];
                assert(entries@.take(i + 1).drop_last() =~= entries@.take(i as int));
                assert(entries@.take(i + 1).last() == entries@[i as int]);
                match &entry.trust {
                    Err(detail) => {
                        let error = LoadError::new(ErrorKind::Os, domain_name(domain), detail.clone());
                        proof {
                            lemma_failure_stays(domain, entries@, i + 1);
                        }
                        return Err(error);
                    },
                    Ok(trust) => {
                        let setting = match trust {
                            Some(setting) => *setting,
                            None => TrustSettingsForCertificate::TrustRoot,
                        };
                        if !is_recorded(kept, entry.der.as_slice()) {
                            let ghost before = records_of(kept@);
                            kept.push(Recorded { der: copy_bytes(entry.der.as_slice()), trust: setting });
                            assert(records_of(kept@) =~= before.push(entry_record(*entry)));
                        }
                    },
                }
                i += 1;
            }
            assert(entries@.take(i as int) =~= entries@);
            Ok(())
        },
    }
}

/// Once an entry has failed, reading further entries does not change the
/// failure.
proof fn lemma_failure_stays(domain: Domain, entries: Seq<TrustEntry>, n: int)
    requires
        0 <= n <= entries.len(),
        entries_failure(domain, entries.take(n)) is Some,
    ensures
        entries_failure(domain, entries) == entries_failure(domain, entries.take(n)),
    decreases entries.len() - n,
{
    if n < entries.len() {
        assert(entries.take(n + 1).drop_last() =~= entries.take(n));
        lemma_failure_stays(domain, entries, n + 1);
    } else {
        assert(entries.take(n) =~= entries);
    }
}

/// The certificates that the trust settings admit as trust anchors.
///
/// The three arguments are what querying the user's, the administrator's and
/// the system's domain gave. They are read in this order, and of a
/// certificate that is listed more than once only the first entry counts. The
/// result holds, in the order of those first entries, each certificate whose
/// setting that counts is [`TrustSettingsForCertificate::TrustRoot`] or
/// [`TrustSettingsForCertificate::TrustAsRoot`], and no certificate twice.
///
/// If a query failed, for a domain or for one certificate, the result is the
/// first such failure in reading order and no certificate at all.
pub fn load_native_certs(user: &DomainQuery, admin: &DomainQuery, system: &DomainQuery) -> (res:
    Result<Vec<Certificate>, LoadError>)
    ensures
        match res {
            Ok(certs) => native_certs(*user, *admin, *system) == Ok::<Seq<Seq<u8>>, ErrorView>(
                ders(certs@),
            ) && ders(certs@).no_duplicates(),
            Err(error) => native_certs(*user, *admin, *system) == Err::<
                Seq<Seq<u8>>,
                ErrorView,
            >(error@),
        },
{
    let mut kept: Vec<Recorded> = Vec::new();
    assert(records_of(kept@) =~= Seq::<Record>::empty());
    match record_domain(&mut kept, Domain::User, user) {
        Err(error) => {
            return Err(error);
        },
        Ok(()) => {},
    }
    match record_domain(&mut kept, Domain::Admin, admin) {
        Err(error) => {
            return Err(error);
        },
        Ok(()) => {},
    }
    match record_domain(&mut kept, Domain::System, system) {
        Err(error) => {
            return Err(error);
        },
        Ok(()) => {},
    }
    assert(records_of(kept@) == merged(*user, *admin, *system));
    let mut certs: Vec<Certificate> = Vec::new();
    let mut i: usize = 0;
    assert(records_of(kept@).take(0) =~= Seq::<Record>::empty());
    assert(ders(certs@) =~= Seq::<Seq<u8>>::empty());
    while i < kept.len()
        invariant
            i <= kept@.len(),
            ders(certs@) == trusted_ders(records_of(kept@).take(i as int)),
        decreases kept@.len() - i,
    {
        assert(records_of(kept@).take(i + 1).drop_last() =~= records_of(kept@).take(i as int));
        assert(records_of(kept@).take(i + 1).last() == kept@[i as int]@);
        let trusted = match kept[i].trust {
            TrustSettingsForCertificate::TrustRoot | TrustSettingsForCertificate::TrustAsRoot => true,
            _ => false,
        };
        if trusted {
            let ghost before = ders(certs@);
            certs.push(Certificate::new(copy_bytes(kept[i].der.as_slice())));
            assert(ders(certs@) =~= before.push(kept@[i as int]@.der));
        }
        i += 1;
    }
    assert(records_of(kept@).take(i as int) =~= records_of(kept@));
    proof {
        lemma_native_certs_are_distinct(*user, *admin, *system);
    }
    Ok(certs)
}

} // verus!
