use aes_gcm::aead::{Aead, KeyInit};
use base64::Engine;
use rust_pin_service::application::env::{
    def_alg, AppEnv, CipherConf, DatasourceConf, GrpcConf, RegistryConf,
};
use rust_pin_service::application::AppContext;
use rust_pin_service::cipher::aes::Aes256Cipher;
use rust_pin_service::cipher::utils::{ensure_key_len_for_aes256, generate_nonce};
use rust_pin_service::cipher::{Algorithm, Cipher, CipherError};

fn env_with(key: &str, alg: Algorithm) -> AppEnv {
    AppEnv {
        cipher: CipherConf { key: key.to_string(), alg, alg_str: "aes256".to_string() },
        grpc: GrpcConf { port: 50051 },
        registry: RegistryConf {
            hostname: "registry".to_string(),
            ip_address: "10.0.0.7".to_string(),
            port: 8761,
            retry_attempts: 3,
            data_center_info_name: "MyOwn".to_string(),
        },
        app_name: "pin-vault".to_string(),
        datasource: DatasourceConf {
            hostname: "db".to_string(),
            port: 27017,
            username: None,
            password: None,
            database_name: "vault".to_string(),
            min_pool_size: None,
            max_pool_size: None,
            max_idle_time: None,
        },
    }
}

fn cipher_with(key: &str) -> Aes256Cipher {
    Aes256Cipher::new(&env_with(key, Algorithm::Aes256Gcm))
}

#[test]
fn short_key_is_padded_with_zero_characters() {
    let key = ensure_key_len_for_aes256("short".to_string());
    assert_eq!(&key[..], "short000000000000000000000000000".as_bytes());
    assert_eq!(key.len(), 32);
    assert_eq!(&key[..5], b"short");
    assert!(key[5..].iter().all(|b| *b == b'0'));
}

#[test]
fn empty_key_is_all_zero_characters() {
    assert_eq!(ensure_key_len_for_aes256(String::new()), [b'0'; 32]);
}

#[test]
fn long_key_is_cut_after_32_bytes() {
    let key = ensure_key_len_for_aes256("0123456789abcdefghijklmnopqrstuvwxyz".to_string());
    assert_eq!(&key[..], "0123456789abcdefghijklmnopqrstuv".as_bytes());
}

#[test]
fn key_of_32_bytes_passes_through() {
    let secret = "ABCDEFGHIJKLMNOPQRSTUVWXYZ012345";
    assert_eq!(&ensure_key_len_for_aes256(secret.to_string())[..], secret.as_bytes());
}

#[test]
fn key_is_derived_from_bytes_not_characters() {
    let key = ensure_key_len_for_aes256("é".repeat(20));
    assert_eq!(&key[..], &"é".repeat(20).as_bytes()[..32]);
    let key = ensure_key_len_for_aes256("é".to_string());
    assert_eq!(&key[..2], "é".as_bytes());
    assert!(key[2..].iter().all(|b| *b == b'0'));
}

#[test]
fn default_algorithm_is_aes256() {
    assert_eq!(def_alg(), Algorithm::Aes256Gcm);
}

#[test]
fn decrypt_inverts_encrypt() {
    let cipher = cipher_with("secret");
    for plain in [&b""[..], b"1", b"1234567890123456", &[0u8, 255, 7, 9][..]] {
        let sealed = cipher.encrypt(plain).unwrap();
        assert_eq!(sealed.len(), 12 + plain.len() + 16);
        assert_eq!(cipher.decrypt(&sealed), Ok(plain.to_vec()));
    }
}

#[test]
fn text_decrypt_inverts_text_encrypt() {
    let cipher = cipher_with("secret");
    for plain in ["", "1234567890123456", "pin ünïcode ✓"] {
        let sealed = cipher.enc_encrypt(plain.to_string()).unwrap();
        assert_ne!(sealed, plain);
        assert_eq!(cipher.enc_decrypt(sealed), Ok(plain.to_string()));
    }
}

#[test]
fn nonce_is_fresh_for_each_encryption() {
    let cipher = cipher_with("secret");
    let first = cipher.encrypt(b"1234567890123456").unwrap();
    let second = cipher.encrypt(b"1234567890123456").unwrap();
    assert_ne!(first[..12], second[..12]);
    assert_ne!(first, second);
    assert_ne!(generate_nonce(), generate_nonce());
}

#[test]
fn encrypted_form_is_nonce_then_aes_gcm_ciphertext() {
    let cipher = cipher_with("short");
    let nonce = [7u8; 12];
    let sealed = cipher.encrypt_with_nonce(&nonce, b"4711").unwrap();
    assert_eq!(sealed[..12], nonce);
    let reference = aes_gcm::Aes256Gcm::new_from_slice(b"short000000000000000000000000000").unwrap();
    let expected = reference.encrypt(aes_gcm::Nonce::from_slice(&nonce), &b"4711"[..]).unwrap();
    assert_eq!(sealed[12..], expected[..]);
    assert_eq!(reference.decrypt(aes_gcm::Nonce::from_slice(&nonce), &sealed[12..]).unwrap(), b"4711");
}

#[test]
fn text_form_is_standard_base64() {
    let cipher = cipher_with("short");
    let sealed = cipher.enc_encrypt("4711".to_string()).unwrap();
    let bytes = base64::engine::general_purpose::STANDARD.decode(&sealed).unwrap();
    assert_eq!(bytes.len(), 12 + 4 + 16);
    assert_eq!(cipher.decrypt(&bytes), Ok(b"4711".to_vec()));
    let again = base64::engine::general_purpose::STANDARD.encode(cipher.encrypt(b"0815").unwrap());
    assert_eq!(cipher.enc_decrypt(again), Ok("0815".to_string()));
}

#[test]
fn decrypt_under_another_key_fails() {
    let sealed = cipher_with("one").encrypt(b"1234").unwrap();
    assert_eq!(cipher_with("two").decrypt(&sealed), Err(CipherError::AuthenticationFailed));
    assert_eq!(cipher_with("one").decrypt(&sealed), Ok(b"1234".to_vec()));
}

#[test]
fn tampered_ciphertext_fails_authentication() {
    let cipher = cipher_with("secret");
    let mut sealed = cipher.encrypt(b"1234567890123456").unwrap();
    let last = sealed.len() - 1;
    sealed[last] ^= 1;
    assert_eq!(cipher.decrypt(&sealed), Err(CipherError::AuthenticationFailed));
    let mut sealed = cipher.encrypt(b"1234567890123456").unwrap();
    sealed[0] ^= 1;
    assert_eq!(cipher.decrypt(&sealed), Err(CipherError::AuthenticationFailed));
}

#[test]
fn input_shorter_than_a_nonce_is_rejected() {
    let cipher = cipher_with("secret");
    assert_eq!(cipher.decrypt(b""), Err(CipherError::MissingNonce));
    assert_eq!(cipher.decrypt(&[0u8; 11]), Err(CipherError::MissingNonce));
    assert_eq!(cipher.decrypt(&[0u8; 12]), Err(CipherError::AuthenticationFailed));
    assert_eq!(cipher.enc_decrypt(String::new()), Err(CipherError::MissingNonce));
}

#[test]
fn malformed_base64_is_rejected() {
    let cipher = cipher_with("secret");
    assert_eq!(cipher.enc_decrypt("not base64!".to_string()), Err(CipherError::MalformedEncoding));
    assert_eq!(cipher.enc_decrypt("QUJD=".to_string()), Err(CipherError::MalformedEncoding));
}

#[test]
fn decrypted_bytes_that_are_not_text_are_rejected() {
    let cipher = cipher_with("secret");
    let sealed = cipher.encrypt(&[0xff, 0xfe]).unwrap();
    let text = base64::engine::general_purpose::STANDARD.encode(sealed);
    assert_eq!(cipher.enc_decrypt(text), Err(CipherError::NotText));
}

#[test]
fn results_of_decrypting_map_to_errors() {
    assert_eq!(Aes256Cipher::plaintext_of(Some(vec![1, 2])), Ok(vec![1, 2]));
    assert_eq!(Aes256Cipher::plaintext_of(None), Err(CipherError::AuthenticationFailed));
    assert_eq!(Aes256Cipher::text_of(b"0815".to_vec()), Ok("0815".to_string()));
    assert_eq!(Aes256Cipher::text_of(vec![0xc3]), Err(CipherError::NotText));
}

#[test]
fn plaintext_length_limits() {
    assert!(Aes256Cipher::can_seal_text(0));
    assert!(Aes256Cipher::can_seal_text(16));
    assert!(Aes256Cipher::can_seal_text(1 << 36));
    assert!(!Aes256Cipher::can_seal_text((1 << 36) + 1));
    assert!(!Aes256Cipher::can_seal_text(usize::MAX));
}

#[test]
fn context_has_a_cipher_only_for_aes256() {
    let context = AppContext::new(&env_with("short", Algorithm::Aes256Gcm));
    let cipher = context.cipher.unwrap();
    let sealed = cipher.encrypt(b"1").unwrap();
    assert_eq!(cipher_with("short").decrypt(&sealed), Ok(b"1".to_vec()));
    assert_eq!(context.env.app_name, "pin-vault");
    assert_eq!(context.env.registry.retry_attempts, 3);
    assert!(AppContext::new(&env_with("short", Algorithm::Aes128Gcm)).cipher.is_none());
}
