use hello_actix::error::AuthError;

#[test]
fn every_failure_has_its_text() {
    assert_eq!(AuthError::RandomnessError.message(), "Failed to generate random bytes");
    assert_eq!(AuthError::InvalidKeyLength.message(), "Invalid master key length");
    assert_eq!(AuthError::EncryptionFailed.message(), "Encryption failed");
    assert_eq!(AuthError::DecryptionFailed.message(), "Decryption failed");
    assert_eq!(AuthError::PersistenceError.message(), "Persistence failed");
}
