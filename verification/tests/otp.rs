use plaxo_otp::otp::OtpGenerator;
use plaxo_otp::types::AppError;

#[test]
fn test_generate_code() {
    let generator = OtpGenerator::new();
    let secret = "JBSWY3DPEHPK3PXP";

    let code = generator.generate_code(secret).unwrap();
    assert_eq!(code.len(), 6);
    assert!(code.chars().all(|c| c.is_ascii_digit()));
}

#[test]
fn test_clean_secret() {
    let generator = OtpGenerator::new();

    assert_eq!(generator.clean_secret("JBSWY3DP EHPK3PXP"), "JBSWY3DPEHPK3PXP");
    assert_eq!(generator.clean_secret("jbswy3dp-ehpk3pxp"), "JBSWY3DPEHPK3PXP");
    assert_eq!(generator.clean_secret("JBSWY3DPEHPK3PXP="), "JBSWY3DPEHPK3PXP");
}

#[test]
fn test_validate_secret() {
    let generator = OtpGenerator::new();

    assert!(generator.validate_secret("JBSWY3DPEHPK3PXP").is_ok());
    assert!(generator.validate_secret("").is_err());
    assert!(generator.validate_secret("INVALID@SECRET").is_err());
}

#[test]
fn rfc6238_sha1_vectors() {
    // RFC 6238 appendix B secret "12345678901234567890", base32-encoded; the
    // 6-digit codes are the last six digits of the published 8-digit ones.
    let generator = OtpGenerator::new();
    let secret = "GEZDGNBVGY3TQOJQGEZDGNBVGY3TQOJQ";
    assert_eq!(generator.generate_code_at(secret, 59).unwrap(), "287082");
    assert_eq!(generator.generate_code_at(secret, 1111111109).unwrap(), "081804");
    assert_eq!(generator.generate_code_at(secret, 1234567890).unwrap(), "005924");
    assert_eq!(generator.generate_code_at(secret, 20000000000).unwrap(), "353130");
}

#[test]
fn codes_ignore_separators_and_case() {
    let generator = OtpGenerator::new();
    let a = generator.generate_code_at("GEZDGNBVGY3TQOJQGEZDGNBVGY3TQOJQ", 59).unwrap();
    let b = generator.generate_code_at("gezd-gnbv gy3t-qojq gezd-gnbv gy3t-qojq==", 59).unwrap();
    assert_eq!(a, b);
}

#[test]
fn empty_secret_has_no_code() {
    let generator = OtpGenerator::new();
    match generator.generate_code_at(" - = ", 59) {
        Err(AppError::InvalidSecret(m)) => assert_eq!(m, "Empty secret"),
        other => panic!("unexpected: {:?}", other),
    }
}

#[test]
fn non_base32_secret_has_no_code() {
    let generator = OtpGenerator::new();
    match generator.generate_code_at("ABC1", 59) {
        Err(AppError::InvalidSecret(m)) => {
            assert_eq!(m, "Invalid Base32 secret: Could not decode base32 secret.")
        }
        other => panic!("unexpected: {:?}", other),
    }
}

#[test]
fn validation_messages() {
    let generator = OtpGenerator::new();
    match generator.validate_secret("   ") {
        Err(AppError::InvalidSecret(m)) => assert_eq!(m, "Chave secreta vazia"),
        other => panic!("unexpected: {:?}", other),
    }
    match generator.validate_secret("ABCDEFGH") {
        Err(AppError::InvalidSecret(m)) => {
            assert_eq!(m, "Chave secreta muito curta (mínimo 16 caracteres)")
        }
        other => panic!("unexpected: {:?}", other),
    }
    match generator.validate_secret("ABCDEFGHIJKLMNO1@") {
        Err(AppError::InvalidSecret(m)) => {
            assert_eq!(m, "Caracteres inválidos na chave: ['1', '@']. Use apenas A-Z e 2-7")
        }
        other => panic!("unexpected: {:?}", other),
    }
}

#[test]
fn error_messages_match_their_kind() {
    assert_eq!(AppError::AppNotFound.message(), "App not found");
    assert_eq!(AppError::NoMasterPassword.message(), "Master password not set");
    assert_eq!(AppError::Io("disk".to_string()).message(), "IO error: disk");
    assert_eq!(AppError::InvalidSecret("x".to_string()).message(), "Invalid secret key: x");
}

#[test]
fn validated_secrets_always_produce_codes() {
    let generator = OtpGenerator::new();
    for secret in ["JBSWY3DPEHPK3PXP", "jbsw y3dp-ehpk 3pxp", "GEZDGNBVGY3TQOJQ===="] {
        assert!(generator.validate_secret(secret).is_ok());
        for t in [0u64, 59, 1_700_000_000] {
            let code = generator.generate_code_at(secret, t).unwrap();
            assert_eq!(code.len(), 6);
        }
    }
}

#[test]
fn cleaning_an_ascii_secret_twice_changes_nothing() {
    let generator = OtpGenerator::new();
    for secret in ["jbsw y3dp-ehpk 3pxp", "abc-def=", "ABCDEFGHIJKLMNO1@", "  ", "gezd gnbv"] {
        let once = generator.clean_secret(secret);
        assert_eq!(generator.clean_secret(&once), once);
        assert_eq!(
            generator.validate_secret(secret).is_ok(),
            generator.validate_secret(&once).is_ok()
        );
    }
}

#[test]
fn current_code_errors_name_their_cause() {
    let generator = OtpGenerator::new();
    match generator.generate_code("= -") {
        Err(AppError::InvalidSecret(m)) => assert_eq!(m, "Empty secret"),
        other => panic!("unexpected: {:?}", other),
    }
    match generator.generate_code("ABC1") {
        Err(AppError::InvalidSecret(m)) => assert!(m.starts_with("Invalid Base32 secret: ")),
        other => panic!("unexpected: {:?}", other),
    }
    assert!(generator.generate_code("jbsw y3dp ehpk 3pxp").is_ok());
}
