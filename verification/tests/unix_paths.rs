use rustls_native_certs::certificate::Certificate;
use rustls_native_certs::error::{ErrorKind, LoadError};
use rustls_native_certs::pem::PemFile;
use rustls_native_certs::unix::{load_native_certs, CertDir, CertPaths};

const ISRG_ROOT_X2: &str = "\
-----BEGIN CERTIFICATE-----\n\
MIICGzCCAaGgAwIBAgIQQdKd0XLq7qeAwSxs6S+HUjAKBggqhkjOPQQDAzBPMQsw\n\
CQYDVQQGEwJVUzEpMCcGA1UEChMgSW50ZXJuZXQgU2VjdXJpdHkgUmVzZWFyY2gg\n\
R3JvdXAxFTATBgNVBAMTDElTUkcgUm9vdCBYMjAeFw0yMDA5MDQwMDAwMDBaFw00\n\
MDA5MTcxNjAwMDBaME8xCzAJBgNVBAYTAlVTMSkwJwYDVQQKEyBJbnRlcm5ldCBT\n\
ZWN1cml0eSBSZXNlYXJjaCBHcm91cDEVMBMGA1UEAxMMSVNSRyBSb290IFgyMHYw\n\
EAYHKoZIzj0CAQYFK4EEACIDYgAEzZvVn4CDCuwJSvMWSj5cz3es3mcFDR0HttwW\n\
+1qLFNvicWDEukWVEYmO6gbf9yoWHKS5xcUy4APgHoIYOIvXRdgKam7mAHf7AlF9\n\
ItgKbppbd9/w+kHsOdx1ymgHDB/qo0IwQDAOBgNVHQ8BAf8EBAMCAQYwDwYDVR0T\n\
AQH/BAUwAwEB/zAdBgNVHQ4EFgQUfEKWrt5LSDv6kviejM9ti6lyN5UwCgYIKoZI\n\
zj0EAwMDaAAwZQIwe3lORlCEwkSHRhtFcP9Ymd70/aTSVaYgLXTWNLxBo1BfASdW\n\
tL4ndQavEi51mI38AjEAi/V3bNTIZargCyzuFJ0nN6T5U6VR5CmD1/iQMVtCnwr1\n\
/q4AaOeMSQ+2b1tbFfLn\n\
-----END CERTIFICATE-----\n";

const AMAZON_ROOT_CA_3: &str = "\
-----BEGIN CERTIFICATE-----\n\
MIIBtjCCAVugAwIBAgITBmyf1XSXNmY/Owua2eiedgPySjAKBggqhkjOPQQDAjA5\n\
MQswCQYDVQQGEwJVUzEPMA0GA1UEChMGQW1hem9uMRkwFwYDVQQDExBBbWF6b24g\n\
Um9vdCBDQSAzMB4XDTE1MDUyNjAwMDAwMFoXDTQwMDUyNjAwMDAwMFowOTELMAkG\n\
A1UEBhMCVVMxDzANBgNVBAoTBkFtYXpvbjEZMBcGA1UEAxMQQW1hem9uIFJvb3Qg\n\
Q0EgMzBZMBMGByqGSM49AgEGCCqGSM49AwEHA0IABCmXp8ZBf8ANm+gBG1bG8lKl\n\
ui2yEujSLtf6ycXYqm0fc4E7O5hrOXwzpcVOho6AF2hiRVd9RFgdszflZwjrZt6j\n\
QjBAMA8GA1UdEwEB/wQFMAMBAf8wDgYDVR0PAQH/BAQDAgGGMB0GA1UdDgQWBBSr\n\
ttvXBp43rDCGB5Fwx5zEGbF4wDAKBggqhkjOPQQDAgNJADBGAiEA4IWSoxe3jfkr\n\
BqWTrBqYaGFy+uGh0PsceGCmQ5nFuMQCIQCcAu/xlJyzlvnrxir4tiz+OpAUFteM\n\
YyRIHN8wfdVoOw==\n\
-----END CERTIFICATE-----\n";

fn base64_value(c: u8) -> Option<u32> {
    match c {
        b'A'..=b'Z' => Some((c - b'A') as u32),
        b'a'..=b'z' => Some((c - b'a') as u32 + 26),
        b'0'..=b'9' => Some((c - b'0') as u32 + 52),
        b'+' => Some(62),
        b'/' => Some(63),
        _ => None,
    }
}

/// The bytes between the BEGIN and END lines of one PEM section.
fn der_of(pem: &str) -> Vec<u8> {
    let mut out = Vec::new();
    let mut acc: u32 = 0;
    let mut bits = 0;
    for line in pem.lines().filter(|line| !line.starts_with("-----")) {
        for c in line.bytes() {
            if let Some(v) = base64_value(c) {
                acc = (acc << 6) | v;
                bits += 6;
                if bits >= 8 {
                    bits -= 8;
                    out.push((acc >> bits) as u8);
                    acc &= (1 << bits) - 1;
                }
            }
        }
    }
    out
}

fn file(path: &str, text: &str) -> PemFile {
    PemFile { path: path.to_string(), contents: Ok(text.as_bytes().to_vec()) }
}

fn unreadable(path: &str, kind: ErrorKind) -> PemFile {
    PemFile {
        path: path.to_string(),
        contents: Err(LoadError::new(kind, path.to_string(), "cannot read".to_string())),
    }
}

fn dir(files: Vec<PemFile>) -> CertDir {
    CertDir { path: "/etc/ssl/certs".to_string(), files: Ok(files) }
}

#[test]
fn nothing_found_gives_nothing() {
    let paths = CertPaths { file: None, dir: None };
    assert_eq!(paths.load(), Ok(None));
    assert_eq!(load_native_certs(&paths), Ok(Vec::new()));
}

#[test]
fn bundle_alone_is_loaded() {
    let bundle = format!("{}{}", ISRG_ROOT_X2, AMAZON_ROOT_CA_3);
    let paths = CertPaths { file: Some(file("/etc/ssl/cert.pem", &bundle)), dir: None };
    let expected = vec![Certificate(der_of(ISRG_ROOT_X2)), Certificate(der_of(AMAZON_ROOT_CA_3))];
    assert_eq!(paths.load(), Ok(Some(expected.clone())));
    assert_eq!(load_native_certs(&paths), Ok(expected));
}

#[test]
fn directory_alone_is_loaded_file_by_file() {
    let paths = CertPaths {
        file: None,
        dir: Some(dir(vec![
            file("/etc/ssl/certs/a.pem", AMAZON_ROOT_CA_3),
            file("/etc/ssl/certs/README", "no certificate here\n"),
            file("/etc/ssl/certs/b.pem", ISRG_ROOT_X2),
        ])),
    };
    assert_eq!(
        load_native_certs(&paths),
        Ok(vec![Certificate(der_of(AMAZON_ROOT_CA_3)), Certificate(der_of(ISRG_ROOT_X2))])
    );
}

#[test]
fn bundle_comes_before_the_directory() {
    let paths = CertPaths {
        file: Some(file("/etc/ssl/cert.pem", ISRG_ROOT_X2)),
        dir: Some(dir(vec![
            file("/etc/ssl/certs/a.pem", AMAZON_ROOT_CA_3),
            file("/etc/ssl/certs/b.pem", ISRG_ROOT_X2),
        ])),
    };
    assert_eq!(
        load_native_certs(&paths),
        Ok(vec![
            Certificate(der_of(ISRG_ROOT_X2)),
            Certificate(der_of(AMAZON_ROOT_CA_3)),
            Certificate(der_of(ISRG_ROOT_X2)),
        ])
    );
}

#[test]
fn empty_directory_gives_an_empty_list() {
    let paths = CertPaths { file: None, dir: Some(dir(Vec::new())) };
    assert_eq!(paths.load(), Ok(Some(Vec::new())));
}

#[test]
fn unreadable_bundle_fails_the_load() {
    let paths = CertPaths {
        file: Some(unreadable("/etc/ssl/cert.pem", ErrorKind::PermissionDenied)),
        dir: Some(dir(vec![file("/etc/ssl/certs/a.pem", AMAZON_ROOT_CA_3)])),
    };
    let error = load_native_certs(&paths).unwrap_err();
    assert_eq!(error.kind(), ErrorKind::PermissionDenied);
    assert_eq!(error.context, "/etc/ssl/cert.pem");
}

#[test]
fn unlistable_directory_fails_the_load() {
    let paths = CertPaths {
        file: Some(file("/etc/ssl/cert.pem", ISRG_ROOT_X2)),
        dir: Some(CertDir {
            path: "/etc/ssl/certs".to_string(),
            files: Err(LoadError::new(
                ErrorKind::NotFound,
                "/etc/ssl/certs".to_string(),
                "no such directory".to_string(),
            )),
        }),
    };
    assert_eq!(
        load_native_certs(&paths),
        Err(LoadError::new(
            ErrorKind::NotFound,
            "/etc/ssl/certs".to_string(),
            "no such directory".to_string()
        ))
    );
}

#[test]
fn first_failing_file_of_the_directory_is_reported() {
    let paths = CertPaths {
        file: None,
        dir: Some(dir(vec![
            file("/etc/ssl/certs/a.pem", AMAZON_ROOT_CA_3),
            unreadable("/etc/ssl/certs/b.pem", ErrorKind::Other),
            file("/etc/ssl/certs/c.pem", "-----BEGIN CERTIFICATE-----\nMIIB\n"),
        ])),
    };
    let error = load_native_certs(&paths).unwrap_err();
    assert_eq!(error.kind(), ErrorKind::Other);
    assert_eq!(error.context, "/etc/ssl/certs/b.pem");
}

#[test]
fn undecodable_file_of_the_directory_is_passed_over() {
    let paths = CertPaths {
        file: Some(file("/etc/ssl/cert.pem", ISRG_ROOT_X2)),
        dir: Some(dir(vec![
            file("/etc/ssl/certs/c.pem", "-----BEGIN CERTIFICATE-----\nMIIB\n"),
            file("/etc/ssl/certs/a.pem", AMAZON_ROOT_CA_3),
        ])),
    };
    assert_eq!(
        paths.load(),
        Ok(Some(vec![Certificate(der_of(ISRG_ROOT_X2)), Certificate(der_of(AMAZON_ROOT_CA_3))]))
    );
}
