use coinamics_ws::credentials::{credentials, read_certificate, read_private_key, StartupError};
use coinamics_ws::datetime::tick_time_text;
use coinamics_ws::text::i64_decimal;
use openssl::asn1::Asn1Time;
use openssl::hash::MessageDigest;
use openssl::pkey::PKey;
use openssl::rsa::Rsa;
use openssl::x509::{X509Builder, X509NameBuilder};

fn self_signed() -> (Vec<u8>, Vec<u8>) {
    let rsa = Rsa::generate(2048).unwrap();
    let key = PKey::from_rsa(rsa).unwrap();
    let mut name = X509NameBuilder::new().unwrap();
    name.append_entry_by_text("CN", "localhost").unwrap();
    let name = name.build();
    let mut b = X509Builder::new().unwrap();
    b.set_version(2).unwrap();
    b.set_subject_name(&name).unwrap();
    b.set_issuer_name(&name).unwrap();
    b.set_pubkey(&key).unwrap();
    b.set_not_before(&Asn1Time::days_from_now(0).unwrap()).unwrap();
    b.set_not_after(&Asn1Time::days_from_now(1).unwrap()).unwrap();
    b.sign(&key, MessageDigest::sha256()).unwrap();
    (b.build().to_pem().unwrap(), key.private_key_to_pem_pkcs8().unwrap())
}

#[test]
fn garbage_certificate_cannot_be_extracted() {
    assert_eq!(read_certificate(b"not a certificate").err(), Some(StartupError::CannotExtractCrt));
}

#[test]
fn garbage_key_cannot_be_extracted() {
    assert_eq!(read_private_key(b"").err(), Some(StartupError::CannotExtractKey));
}

#[test]
fn generated_credentials_are_read() {
    let (crt_pem, key_pem) = self_signed();
    let crt = read_certificate(&crt_pem);
    assert!(crt.is_ok());
    let key = read_private_key(&key_pem);
    assert!(key.is_ok());
    let (crt, _key) = credentials(crt, Some(key)).unwrap();
    assert_eq!(crt.to_pem().unwrap(), crt_pem);
}

#[test]
fn first_failure_is_reported() {
    let (crt_pem, _) = self_signed();
    assert_eq!(credentials(Err(StartupError::CannotReadCrt), None).err(), Some(StartupError::CannotReadCrt));
    assert_eq!(
        credentials(read_certificate(b"x"), Some(read_private_key(b"y"))).err(),
        Some(StartupError::CannotExtractCrt)
    );
    assert_eq!(
        credentials(read_certificate(&crt_pem), Some(read_private_key(b"y"))).err(),
        Some(StartupError::CannotExtractKey)
    );
    assert_eq!(
        credentials(read_certificate(&crt_pem), Some(Err(StartupError::CannotReadKey))).err(),
        Some(StartupError::CannotReadKey)
    );
    assert_eq!(credentials(read_certificate(&crt_pem), None).err(), Some(StartupError::CannotReadKey));
}

#[test]
fn decimal_matches_display() {
    for i in [0i64, 7, 10, 99, 100, 1508430840000, -1, -1000, i64::MAX, i64::MIN] {
        assert_eq!(i64_decimal(i), i.to_string());
    }
}

#[test]
fn tick_time_uses_whole_seconds() {
    assert_eq!(tick_time_text(0), Some("1970-01-01 00:00:00".to_string()));
    assert_eq!(tick_time_text(1508430840999), Some("2017-10-19 16:34:00".to_string()));
    assert_eq!(tick_time_text(-1500), Some("1969-12-31 23:59:59".to_string()));
    assert_eq!(tick_time_text(i64::MAX), None);
}
