use rustls_native_certs::certificate::Certificate;
use rustls_native_certs::error::{ErrorKind, LoadError};
use rustls_native_certs::macos::{
    domains, load_native_certs, Domain, DomainQuery, TrustEntry, TrustSettingsForCertificate,
};

fn entry(der: &[u8], trust: TrustSettingsForCertificate) -> TrustEntry {
    TrustEntry { der: der.to_vec(), trust: Ok(Some(trust)) }
}

fn none() -> DomainQuery {
    Ok(Vec::new())
}

fn certs(ders: &[&[u8]]) -> Vec<Certificate> {
    ders.iter().map(|der| Certificate(der.to_vec())).collect()
}

#[test]
fn domains_are_read_user_first() {
    assert_eq!(domains(), [Domain::User, Domain::Admin, Domain::System]);
}

#[test]
fn only_trusted_settings_are_loaded() {
    let system: DomainQuery = Ok(vec![
        entry(b"root", TrustSettingsForCertificate::TrustRoot),
        entry(b"as-root", TrustSettingsForCertificate::TrustAsRoot),
        entry(b"denied", TrustSettingsForCertificate::Deny),
        entry(b"unspecified", TrustSettingsForCertificate::Unspecified),
        entry(b"invalid", TrustSettingsForCertificate::Invalid),
    ]);
    assert_eq!(load_native_certs(&none(), &none(), &system), Ok(certs(&[b"root", b"as-root"])));
}

#[test]
fn user_distrust_overrides_system_trust() {
    let user: DomainQuery = Ok(vec![entry(b"ca", TrustSettingsForCertificate::Deny)]);
    let system: DomainQuery = Ok(vec![
        entry(b"ca", TrustSettingsForCertificate::TrustRoot),
        entry(b"other", TrustSettingsForCertificate::TrustRoot),
    ]);
    assert_eq!(load_native_certs(&user, &none(), &system), Ok(certs(&[b"other"])));
}

#[test]
fn user_trust_overrides_system_distrust() {
    let user: DomainQuery = Ok(vec![entry(b"ca", TrustSettingsForCertificate::TrustAsRoot)]);
    let system: DomainQuery = Ok(vec![entry(b"ca", TrustSettingsForCertificate::Deny)]);
    assert_eq!(load_native_certs(&user, &none(), &system), Ok(certs(&[b"ca"])));
}

#[test]
fn admin_overrides_system_and_yields_to_user() {
    let user: DomainQuery = Ok(vec![entry(b"a", TrustSettingsForCertificate::Deny)]);
    let admin: DomainQuery = Ok(vec![
        entry(b"a", TrustSettingsForCertificate::TrustRoot),
        entry(b"b", TrustSettingsForCertificate::Deny),
        entry(b"c", TrustSettingsForCertificate::TrustRoot),
    ]);
    let system: DomainQuery = Ok(vec![
        entry(b"a", TrustSettingsForCertificate::TrustRoot),
        entry(b"b", TrustSettingsForCertificate::TrustRoot),
        entry(b"c", TrustSettingsForCertificate::Deny),
        entry(b"d", TrustSettingsForCertificate::TrustRoot),
    ]);
    assert_eq!(load_native_certs(&user, &admin, &system), Ok(certs(&[b"c", b"d"])));
}

#[test]
fn first_entry_within_a_domain_counts() {
    let system: DomainQuery = Ok(vec![
        entry(b"x", TrustSettingsForCertificate::Deny),
        entry(b"x", TrustSettingsForCertificate::TrustRoot),
        entry(b"y", TrustSettingsForCertificate::TrustRoot),
        entry(b"y", TrustSettingsForCertificate::Deny),
    ]);
    assert_eq!(load_native_certs(&none(), &none(), &system), Ok(certs(&[b"y"])));
}

#[test]
fn certificate_listed_in_all_domains_is_loaded_once() {
    let listing = || -> DomainQuery { Ok(vec![entry(b"same", TrustSettingsForCertificate::TrustRoot)]) };
    assert_eq!(load_native_certs(&listing(), &listing(), &listing()), Ok(certs(&[b"same"])));
}

#[test]
fn entry_without_a_setting_is_trusted_as_root() {
    let system: DomainQuery = Ok(vec![TrustEntry { der: b"plain".to_vec(), trust: Ok(None) }]);
    assert_eq!(load_native_certs(&none(), &none(), &system), Ok(certs(&[b"plain"])));
    // Also such an entry is the one that counts if it comes first.
    let user: DomainQuery = Ok(vec![TrustEntry { der: b"plain".to_vec(), trust: Ok(None) }]);
    let system: DomainQuery = Ok(vec![entry(b"plain", TrustSettingsForCertificate::Deny)]);
    assert_eq!(load_native_certs(&user, &none(), &system), Ok(certs(&[b"plain"])));
}

#[test]
fn certificates_come_in_the_order_of_their_first_entries() {
    let user: DomainQuery = Ok(vec![entry(b"3", TrustSettingsForCertificate::TrustRoot)]);
    let admin: DomainQuery = Ok(vec![
        entry(b"1", TrustSettingsForCertificate::TrustRoot),
        entry(b"3", TrustSettingsForCertificate::TrustRoot),
    ]);
    let system: DomainQuery = Ok(vec![
        entry(b"2", TrustSettingsForCertificate::TrustRoot),
        entry(b"1", TrustSettingsForCertificate::TrustRoot),
    ]);
    assert_eq!(load_native_certs(&user, &admin, &system), Ok(certs(&[b"3", b"1", b"2"])));
}

#[test]
fn failed_domain_fails_the_load() {
    let user: DomainQuery = Ok(vec![entry(b"ca", TrustSettingsForCertificate::TrustRoot)]);
    let admin: DomainQuery = Err("errSecInternalComponent".to_string());
    let system: DomainQuery = Ok(vec![entry(b"other", TrustSettingsForCertificate::TrustRoot)]);
    assert_eq!(
        load_native_certs(&user, &admin, &system),
        Err(LoadError::new(
            ErrorKind::Os,
            "admin trust settings".to_string(),
            "errSecInternalComponent".to_string()
        ))
    );
}

#[test]
fn failed_setting_fails_the_load() {
    let user: DomainQuery = Ok(vec![
        entry(b"ca", TrustSettingsForCertificate::TrustRoot),
        TrustEntry { der: b"bad".to_vec(), trust: Err("errSecItemNotFound".to_string()) },
        TrustEntry { der: b"worse".to_vec(), trust: Err("second".to_string()) },
    ]);
    let error = load_native_certs(&user, &none(), &none()).unwrap_err();
    assert_eq!(error.kind(), ErrorKind::Os);
    assert_eq!(error.context, "user trust settings");
    assert_eq!(error.detail, "errSecItemNotFound");
}

#[test]
fn first_failure_in_reading_order_is_reported() {
    let user: DomainQuery = Ok(vec![entry(b"ca", TrustSettingsForCertificate::TrustRoot)]);
    let admin: DomainQuery =
        Ok(vec![TrustEntry { der: b"bad".to_vec(), trust: Err("in admin".to_string()) }]);
    let system: DomainQuery = Err("in system".to_string());
    let error = load_native_certs(&user, &admin, &system).unwrap_err();
    assert_eq!(error.context, "admin trust settings");
    assert_eq!(error.detail, "in admin");
    let error = load_native_certs(&system, &admin, &user).unwrap_err();
    assert_eq!(error.context, "user trust settings");
    assert_eq!(error.detail, "in system");
}

#[test]
fn no_settings_at_all_give_no_certificates() {
    assert_eq!(load_native_certs(&none(), &none(), &none()), Ok(Vec::new()));
}
