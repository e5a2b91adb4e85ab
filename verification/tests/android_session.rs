use rustls_native_certs::android::{
    load_native_certs, reinterpret_bytes, FailureSource, Reply, Request, Session,
};
use rustls_native_certs::certificate::Certificate;
use rustls_native_certs::error::{CertificateResult, ErrorKind, LoadError};

fn failed(detail: &str) -> Reply {
    Reply::Failed { source: FailureSource::Jni, detail: detail.to_string() }
}

/// The replies up to the point where the first alias is asked for.
fn opened() -> Vec<Reply> {
    vec![Reply::Done, Reply::Done, Reply::Done, Reply::Done]
}

/// The replies of one alias that is read without a failure.
fn alias(name: &str, bytes: &[i8]) -> Vec<Reply> {
    vec![
        Reply::Flag(true),
        Reply::Done,
        Reply::Text(name.to_string()),
        Reply::Done,
        Reply::Done,
        Reply::Length(bytes.len()),
        Reply::Bytes(bytes.to_vec()),
    ]
}

/// The replies at the end of an enumeration.
fn closed() -> Vec<Reply> {
    vec![Reply::Flag(false), Reply::Flag(false), Reply::Done]
}

fn os_error(context: &str, detail: &str) -> LoadError {
    LoadError::new(ErrorKind::Os, context.to_string(), detail.to_string())
}

#[test]
fn signed_bytes_are_read_as_unsigned() {
    assert_eq!(reinterpret_bytes(&[0, 1, 127, -128, -1, -2, 48]), vec![0, 1, 127, 128, 255, 254, 48]);
    assert_eq!(reinterpret_bytes(&[]), Vec::<u8>::new());
}

#[test]
fn every_signed_byte_keeps_its_bits() {
    let all: Vec<i8> = (i8::MIN..=i8::MAX).collect();
    let out = reinterpret_bytes(&all);
    assert_eq!(out.len(), 256);
    for (signed, unsigned) in all.iter().zip(out.iter()) {
        assert_eq!(signed.to_ne_bytes(), unsigned.to_ne_bytes());
    }
}

#[test]
fn session_asks_for_the_calls_in_order() {
    let mut session = Session::new();
    assert_eq!(session.pending(), Request::LocateRuntime);
    assert_eq!(session.advance(&Reply::Done), Request::AttachThread);
    assert_eq!(session.advance(&Reply::Done), Request::OpenKeyStore);
    assert_eq!(session.advance(&Reply::Done), Request::ListAliases);
    assert_eq!(session.advance(&Reply::Done), Request::HasMoreAliases);
    assert_eq!(session.advance(&Reply::Flag(true)), Request::NextAlias);
    assert_eq!(session.advance(&Reply::Done), Request::ResolveAlias);
    assert_eq!(session.advance(&Reply::Text("root".to_string())), Request::FetchCertificate);
    assert_eq!(session.advance(&Reply::Done), Request::EncodeCertificate);
    assert_eq!(session.advance(&Reply::Done), Request::MeasureEncoding);
    assert_eq!(session.advance(&Reply::Length(3)), Request::CopyEncoding { length: 3 });
    assert_eq!(session.advance(&Reply::Bytes(vec![48, -126, 1])), Request::HasMoreAliases);
    assert_eq!(session.advance(&Reply::Flag(false)), Request::CheckException);
    assert_eq!(session.advance(&Reply::Flag(true)), Request::ClearException);
    assert!(!session.is_finished());
    assert_eq!(session.advance(&Reply::Done), Request::Finish);
    assert!(session.is_finished());
    let result = session.into_result();
    assert_eq!(result.certs, vec![Certificate(vec![48, 130, 1])]);
    assert!(result.errors.is_empty());
}

#[test]
fn missing_runtime_is_fatal() {
    let replies = vec![Reply::Failed {
        source: FailureSource::Ffi,
        detail: "No JVM created".to_string(),
    }];
    let result = load_native_certs(&replies);
    assert!(result.certs.is_empty());
    assert_eq!(result.errors, vec![os_error("Foreign Function operation failed", "No JVM created")]);
}

#[test]
fn library_failure_is_reported_as_such() {
    let mut session = Session::new();
    let next = session.advance(&Reply::Failed {
        source: FailureSource::Library,
        detail: "undefined symbol: JNI_GetCreatedJavaVMs".to_string(),
    });
    assert_eq!(next, Request::Finish);
    assert_eq!(
        session.result().errors,
        vec![os_error("Failed to load library", "undefined symbol: JNI_GetCreatedJavaVMs")]
    );
}

#[test]
fn failed_attachment_is_fatal() {
    let replies = vec![Reply::Done, failed("thread attach failed")];
    let result = load_native_certs(&replies);
    assert_eq!(result.certs, Vec::<Certificate>::new());
    assert_eq!(result.errors, vec![os_error("Jni operation failed", "thread attach failed")]);
}

#[test]
fn failed_key_store_is_fatal() {
    let mut session = Session::new();
    session.advance(&Reply::Done);
    session.advance(&Reply::Done);
    assert_eq!(session.advance(&failed("KeyStoreException")), Request::Finish);
    assert_eq!(session.result().errors, vec![os_error("Jni operation failed", "KeyStoreException")]);
}

#[test]
fn failed_alias_does_not_cost_the_others() {
    let mut replies = opened();
    replies.extend(alias("first", &[1, 2, 3]));
    // The second alias has no certificate.
    replies.extend(vec![
        Reply::Flag(true),
        Reply::Done,
        Reply::Text("second".to_string()),
        failed("no such entry"),
    ]);
    replies.extend(alias("third", &[-1, -2]));
    replies.extend(closed());
    let result = load_native_certs(&replies);
    assert_eq!(result.certs, vec![Certificate(vec![1, 2, 3]), Certificate(vec![255, 254])]);
    assert_eq!(
        result.errors,
        vec![os_error("Failed to read certificate. Alias: second", "no such entry")]
    );
}

#[test]
fn each_failing_step_is_recorded_under_the_alias() {
    let read_up_to = |steps: usize| -> CertificateResult {
        let mut replies = opened();
        let good = alias("leaf", &[7]);
        // Skip the two replies that take the alias, keep `steps` of the rest.
        replies.extend(good[..2 + steps].to_vec());
        replies.push(failed("boom"));
        replies.extend(alias("next", &[9]));
        replies.extend(closed());
        load_native_certs(&replies)
    };
    // Fetching the certificate fails.
    let result = read_up_to(1);
    assert_eq!(result.certs, vec![Certificate(vec![9])]);
    assert_eq!(result.errors, vec![os_error("Failed to read certificate. Alias: leaf", "boom")]);
    // Encoding, measuring and copying fail.
    for steps in 2..=4 {
        let result = read_up_to(steps);
        assert_eq!(result.certs, vec![Certificate(vec![9])]);
        assert_eq!(
            result.errors,
            vec![os_error("Failed to decode certificate. Alias: leaf", "boom")]
        );
    }
}

#[test]
fn undecodable_alias_is_read_as_unknown() {
    let mut replies = opened();
    replies.extend(vec![
        Reply::Flag(true),
        Reply::Done,
        failed("invalid utf-8"),
        Reply::Done,
        Reply::Done,
        Reply::Length(1),
        Reply::Bytes(vec![5]),
    ]);
    replies.extend(vec![Reply::Flag(true), Reply::Done, failed("invalid utf-8"), failed("gone")]);
    replies.extend(closed());
    let result = load_native_certs(&replies);
    assert_eq!(result.certs, vec![Certificate(vec![5])]);
    assert_eq!(result.errors, vec![os_error("Failed to read certificate. Alias: unknown", "gone")]);
}

#[test]
fn failed_enumeration_keeps_what_was_loaded() {
    let mut replies = opened();
    replies.extend(alias("first", &[1]));
    replies.push(failed("enumeration broke"));
    // Nothing that comes after the end is looked at.
    replies.extend(alias("late", &[2]));
    let result = load_native_certs(&replies);
    assert_eq!(result.certs, vec![Certificate(vec![1])]);
    assert_eq!(result.errors, vec![os_error("Jni operation failed", "enumeration broke")]);
}

#[test]
fn failed_alias_listing_is_fatal() {
    let replies = vec![Reply::Done, Reply::Done, Reply::Done, failed("aliases() threw")];
    let result = load_native_certs(&replies);
    assert!(result.certs.is_empty());
    assert_eq!(result.errors, vec![os_error("Jni operation failed", "aliases() threw")]);
}

#[test]
fn reply_of_the_wrong_shape_counts_as_failure() {
    let mut session = Session::new();
    for reply in opened() {
        session.advance(&reply);
    }
    session.advance(&Reply::Flag(true));
    session.advance(&Reply::Done);
    session.advance(&Reply::Text("odd".to_string()));
    session.advance(&Reply::Done);
    session.advance(&Reply::Done);
    // A length is asked for, text comes back.
    assert_eq!(session.advance(&Reply::Text("12".to_string())), Request::HasMoreAliases);
    assert_eq!(
        session.result().errors,
        vec![os_error("Failed to decode certificate. Alias: odd", "unexpected reply")]
    );
    // A boolean is asked for, a length comes back.
    assert_eq!(session.advance(&Reply::Length(1)), Request::Finish);
    assert_eq!(
        session.result().errors[1],
        os_error("Foreign Function operation failed", "unexpected reply")
    );
}

#[test]
fn exception_is_cleared_only_if_it_can_be_checked() {
    let mut session = Session::new();
    for reply in opened() {
        session.advance(&reply);
    }
    assert_eq!(session.advance(&Reply::Flag(false)), Request::CheckException);
    assert_eq!(session.advance(&failed("check failed")), Request::Finish);
    assert!(session.result().errors.is_empty());

    let mut session = Session::new();
    for reply in opened() {
        session.advance(&reply);
    }
    session.advance(&Reply::Flag(false));
    assert_eq!(session.advance(&Reply::Done), Request::ClearException);
    assert_eq!(session.advance(&failed("clear failed")), Request::Finish);
    assert!(session.result().errors.is_empty());
}

#[test]
fn finished_session_stays_finished() {
    let mut session = Session::new();
    session.advance(&failed("no runtime"));
    let before = session.clone();
    assert_eq!(session.advance(&Reply::Done), Request::Finish);
    assert_eq!(session.advance(&Reply::Bytes(vec![1])), Request::Finish);
    assert_eq!(session, before);
}

#[test]
fn empty_conversation_gives_empty_result() {
    let result = load_native_certs(&Vec::new());
    assert_eq!(result, CertificateResult::new());
    assert_eq!(result, CertificateResult::default());
}

#[test]
fn empty_key_store_gives_empty_result() {
    let mut replies = opened();
    replies.extend(closed());
    let result = load_native_certs(&replies);
    assert!(result.certs.is_empty());
    assert!(result.errors.is_empty());
}
