[package]
name = "rustls-native-certs"
version = "0.1.0"
edition = "2021"
publish = false

[dependencies]
rustls-pemfile = "=2.2.0"
rustls-pki-types = { version = "=1.15.1", features = ["std"] }
rustls-webpki = { version = "=0.103.16", default-features = false, features = ["std"] }
rustls = { version = "=0.23.46", default-features = false, features = ["std"] }
jni = "=0.21.1"
libloading = "=0.8.9"
openssl-probe = "=0.1.6"
schannel = "=0.1.30"
security-framework = "=2.11.1"
windows-sys = { version = "=0.61.2", features = ["Win32_Foundation", "Win32_Security_Cryptography", "Win32_System_SystemInformation"] }
