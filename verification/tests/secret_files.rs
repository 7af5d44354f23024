use sha2::Digest;
use steersman_core::secret_files::{machine_identifier, machine_key, seal_secret, secret_present};
use steersman_core::integration_domain::IntegrationCommandError;

#[test]
fn machine_key_binds_the_identifier_and_salt() {
    let k = machine_key("machine-1");
    let mut h = sha2::Sha256::new();
    h.update(b"machine-1");
    h.update(b"autolycus-integrations-encrypted-file-store-v1");
    assert_eq!(k, h.finalize().to_vec());
    assert_ne!(machine_key("machine-2"), k);
}

#[test]
fn sealed_secret_reads_back_and_tampering_is_detected() {
    let key = machine_key("m");
    let nonce_source = [7u8; 16];
    let stored = seal_secret(&key, &nonce_source, "s3cr3t").unwrap();
    assert_eq!(stored.len(), 12 + 6 + 16);
    assert_eq!(&stored[..12], &[7u8; 12]);
    assert_eq!(secret_present(&key, &stored), Ok(true));
    let mut bad = stored.clone();
    let last = bad.len() - 1;
    bad[last] ^= 1;
    assert_eq!(secret_present(&key, &bad), Err(IntegrationCommandError::SecretStoreUnavailable));
    assert_eq!(
        secret_present(&machine_key("other"), &stored),
        Err(IntegrationCommandError::SecretStoreUnavailable)
    );
    assert_eq!(secret_present(&key, &vec![1u8; 12]), Err(IntegrationCommandError::SecretStoreUnavailable));
}

#[test]
fn machine_identifier_precedence() {
    assert_eq!(machine_identifier(Some("G".into()), Some("f".into()), None, None), "G");
    assert_eq!(machine_identifier(None, Some(" abc\n".into()), Some("C".into()), None), "abc");
    assert_eq!(machine_identifier(None, None, Some("C".into()), Some("H".into())), "C");
    assert_eq!(machine_identifier(None, None, None, Some("H".into())), "H");
    assert_eq!(machine_identifier(None, None, None, None), "unknown-machine");
}
