use rustls_native_certs::certificate::{bytes_eq, contains_der, copy_bytes, Certificate};
use rustls_native_certs::error::{partial_result, CertificateResult, ErrorKind, LoadError};

fn error(context: &str) -> LoadError {
    LoadError::new(ErrorKind::Os, context.to_string(), "detail".to_string())
}

#[test]
fn certificate_wraps_its_bytes() {
    let cert = Certificate::new(vec![0x30, 0x00]);
    assert_eq!(cert.as_bytes(), &[0x30, 0x00]);
    assert_eq!(cert.clone().into_bytes(), vec![0x30, 0x00]);
    assert_eq!(cert, Certificate(vec![0x30, 0x00]));
}

#[test]
fn bytes_are_compared_one_by_one() {
    assert!(bytes_eq(b"", b""));
    assert!(bytes_eq(b"abc", b"abc"));
    assert!(!bytes_eq(b"abc", b"abd"));
    assert!(!bytes_eq(b"abc", b"ab"));
    assert!(!bytes_eq(b"ab", b"abc"));
    assert!(!bytes_eq(b"xbc", b"abc"));
}

#[test]
fn bytes_are_copied() {
    assert_eq!(copy_bytes(b""), Vec::<u8>::new());
    assert_eq!(copy_bytes(&[1, 2, 3, 255]), vec![1, 2, 3, 255]);
}

#[test]
fn certificate_is_found_by_its_bytes() {
    let certs = vec![Certificate(vec![1]), Certificate(vec![1, 2]), Certificate(vec![])];
    assert!(contains_der(&certs, &[1]));
    assert!(contains_der(&certs, &[1, 2]));
    assert!(contains_der(&certs, &[]));
    assert!(!contains_der(&certs, &[2]));
    assert!(!contains_der(&certs, &[1, 2, 3]));
    assert!(!contains_der(&Vec::new(), &[1]));
}

#[test]
fn error_has_kind_and_message() {
    let error = LoadError::new(
        ErrorKind::InvalidData,
        "could not load PEM file a.pem".to_string(),
        "section end missing".to_string(),
    );
    assert_eq!(error.kind(), ErrorKind::InvalidData);
    assert_eq!(error.message(), "could not load PEM file a.pem: section end missing");
    assert_eq!(error.duplicate(), error);
}

#[test]
fn result_collects_certificates_and_errors() {
    let mut result = CertificateResult::new();
    result.push_cert(Certificate(vec![1]));
    result.push_error(error("first"));
    result.push_cert(Certificate(vec![2]));
    result.push_error(error("second"));
    assert_eq!(result.certs, vec![Certificate(vec![1]), Certificate(vec![2])]);
    assert_eq!(result.errors, vec![error("first"), error("second")]);
}

#[test]
fn partial_success_is_a_success() {
    let mut result = CertificateResult::new();
    result.push_error(error("first"));
    result.push_cert(Certificate(vec![1]));
    assert_eq!(result.into_result(), Ok(vec![Certificate(vec![1])]));
}

#[test]
fn errors_without_certificates_are_a_failure() {
    let mut result = CertificateResult::new();
    result.push_error(error("first"));
    result.push_error(error("second"));
    assert_eq!(result.into_result(), Err(error("first")));
}

#[test]
fn nothing_at_all_is_an_empty_success() {
    assert_eq!(CertificateResult::new().into_result(), Ok(Vec::new()));
    assert_eq!(CertificateResult::default().into_result(), Ok(Vec::new()));
}

#[test]
fn store_comes_alone_after_a_success() {
    assert_eq!(partial_result(vec![1], false, Ok(())), Ok(vec![1]));
    assert_eq!(partial_result(Vec::<u8>::new(), true, Ok(())), Ok(Vec::new()));
}

#[test]
fn store_comes_with_the_failure_unless_empty() {
    assert_eq!(
        partial_result(vec![1], false, Err(error("refused"))),
        Err((Some(vec![1]), error("refused")))
    );
    assert_eq!(
        partial_result(Vec::<u8>::new(), true, Err(error("closed"))),
        Err((None, error("closed")))
    );
}
