use appdb::crypto::{
    decode_hex, decrypt_bytes, decrypt_optional_string, decrypt_string, encode_hex,
    encrypt_bytes, encrypt_optional_string, encrypt_string, on_backup_read, on_secret_read,
    load_or_generate_key, sanitize_path_component, secret_store_failure, CryptoContext,
    CryptoError, CryptoTag, KeyBackupStore, KeyProvider, SecretStore, SensitiveFieldMetadata,
    SensitiveFieldTag, StaticKeyProvider, StoredKey, KEY_LEN,
};
use appdb::crypto_registry::{
    auto_init_arrive, auto_init_finish, clear_crypto_context_registry, default_crypto_config,
    register_crypto_context, register_crypto_context_for, register_model_crypto_fields,
    reset_default_crypto_config, resolve_crypto_context, resolve_crypto_context_for,
    resolve_crypto_context_with, set_default_crypto_account, set_default_crypto_config,
    set_default_crypto_service, AutoCryptoInitAction, AutoCryptoInitState, CryptoRuntime,
};
use std::cell::RefCell;
use std::sync::Mutex;

#[derive(Debug)]
struct MemorySecretStore {
    value: Mutex<Option<String>>,
}

impl MemorySecretStore {
    fn empty() -> Self {
        Self {
            value: Mutex::new(None),
        }
    }
}

impl SecretStore for MemorySecretStore {
    fn read_secret(&self) -> Result<String, CryptoError> {
        self.value
            .lock()
            .unwrap_or_else(|poisoned| poisoned.into_inner())
            .clone()
            .ok_or(CryptoError::SecretNotFound)
    }

    fn write_secret(&self, value: &str) -> Result<(), CryptoError> {
        *self
            .value
            .lock()
            .unwrap_or_else(|poisoned| poisoned.into_inner()) = Some(value.to_owned());
        Ok(())
    }
}

#[derive(Debug)]
struct MemoryBackupStore {
    value: Mutex<Option<Vec<u8>>>,
}

impl MemoryBackupStore {
    fn empty() -> Self {
        Self {
            value: Mutex::new(None),
        }
    }
}

impl KeyBackupStore for MemoryBackupStore {
    fn read_key(&self) -> Result<Vec<u8>, CryptoError> {
        self.value
            .lock()
            .unwrap_or_else(|poisoned| poisoned.into_inner())
            .clone()
            .ok_or(CryptoError::SecretNotFound)
    }

    fn write_key(&self, value: &[u8]) -> Result<(), CryptoError> {
        *self
            .value
            .lock()
            .unwrap_or_else(|poisoned| poisoned.into_inner()) = Some(value.to_vec());
        Ok(())
    }
}

fn persists_generated_key() {
    let store = MemorySecretStore::empty();

    let first = load_or_generate_key(&store, None::<&MemoryBackupStore>)
        .expect("provider should generate key");
    let second = load_or_generate_key(&store, None::<&MemoryBackupStore>)
        .expect("provider should reuse key");

    assert_eq!(first.len(), KEY_LEN);
    assert_eq!(first, second);
}

fn restores_missing_secret_from_backup() {
    let store = MemorySecretStore::empty();
    let backup = MemoryBackupStore::empty();
    backup
        .write_key(&[7_u8; KEY_LEN])
        .expect("backup write should succeed");

    let key = load_or_generate_key(&store, Some(&backup))
        .expect("provider should restore key from backup");

    assert_eq!(key, vec![7_u8; KEY_LEN]);
    assert_eq!(
        store.read_secret().expect("store should be rewritten"),
        encode_hex(&key)
    );
}

fn mirrors_existing_secret_into_backup() {
    let store = MemorySecretStore::empty();
    let backup = MemoryBackupStore::empty();
    let key = vec![9_u8; KEY_LEN];
    store
        .write_secret(&encode_hex(&key))
        .expect("store write should succeed");

    let loaded = load_or_generate_key(&store, Some(&backup))
        .expect("provider should load existing store secret");

    assert_eq!(loaded, key);
    assert_eq!(
        backup.read_key().expect("backup should be populated"),
        loaded
    );
}

struct ModelAField;
struct ModelBField;

impl SensitiveFieldTag for ModelAField {
    fn model_tag() -> &'static str {
        "model-a"
    }

    fn field_tag() -> &'static str {
        "secret"
    }
}

impl SensitiveFieldTag for ModelBField {
    fn model_tag() -> &'static str {
        "model-b"
    }

    fn field_tag() -> &'static str {
        "secret"
    }
}

fn no_key_store(_service: &str, _account: &str) -> Result<CryptoContext, CryptoError> {
    Err(CryptoError::SecretNotFound)
}

fn registry_is_model_and_field_scoped() {
    let mut runtime = CryptoRuntime::new();
    clear_crypto_context_registry(&mut runtime);
    let a = CryptoContext::new(&[1_u8; KEY_LEN]).expect("context should build");
    let b = CryptoContext::new(&[2_u8; KEY_LEN]).expect("context should build");

    register_crypto_context_for::<ModelAField>(&mut runtime, a.clone());
    register_crypto_context_for::<ModelBField>(&mut runtime, b.clone());

    let resolved_a = resolve_crypto_context_for::<ModelAField, _>(&mut runtime, &no_key_store)
        .expect("model a mapping should resolve");
    let resolved_b = resolve_crypto_context_for::<ModelBField, _>(&mut runtime, &no_key_store)
        .expect("model b mapping should resolve");

    let ciphertext = encrypt_string("value", &resolved_a).expect("encrypt should work");
    let err = decrypt_string(&ciphertext, &resolved_b).expect_err("wrong context should fail");

    assert_eq!(resolved_a.key(), a.key());
    assert_eq!(resolved_b.key(), b.key());
    assert!(matches!(err, CryptoError::Decrypt));
    clear_crypto_context_registry(&mut runtime);
}

#[test]
fn crypto_keyring_provider_persists_generated_key() {
    persists_generated_key();
}

#[test]
fn crypto_keyring_provider_restores_missing_secret_from_backup() {
    restores_missing_secret_from_backup();
}

#[test]
fn crypto_keyring_provider_mirrors_existing_secret_into_backup() {
    mirrors_existing_secret_into_backup();
}

#[test]
fn crypto_crypto_context_registry_is_model_and_field_scoped() {
    registry_is_model_and_field_scoped();
}

#[test]
fn crypto_tests_keyring_provider_persists_generated_key() {
    persists_generated_key();
}

#[test]
fn crypto_tests_keyring_provider_restores_missing_secret_from_backup() {
    restores_missing_secret_from_backup();
}

#[test]
fn crypto_tests_keyring_provider_mirrors_existing_secret_into_backup() {
    mirrors_existing_secret_into_backup();
}

#[test]
fn crypto_tests_crypto_context_registry_is_model_and_field_scoped() {
    registry_is_model_and_field_scoped();
}

#[test]
fn context_requires_a_32_byte_key() {
    assert!(matches!(
        CryptoContext::new(&[0_u8; 31]),
        Err(CryptoError::InvalidKeyLength)
    ));
    assert!(matches!(
        CryptoContext::new(&[0_u8; 33]),
        Err(CryptoError::InvalidKeyLength)
    ));
    let ctx = CryptoContext::new(&[5_u8; 32]).expect("32 bytes build a context");
    assert_eq!(ctx.key(), [5_u8; 32]);
}

#[test]
fn context_from_static_provider_uses_its_key() {
    let provider = StaticKeyProvider::new(vec![3_u8; 32]);
    assert_eq!(provider.load_key().expect("static key"), vec![3_u8; 32]);
    let ctx = CryptoContext::from_provider(&provider).expect("context builds");
    assert_eq!(ctx.key(), [3_u8; 32]);
    let short = StaticKeyProvider::new(vec![3_u8; 4]);
    assert!(matches!(
        CryptoContext::from_provider(&short),
        Err(CryptoError::InvalidKeyLength)
    ));
}

#[test]
fn encryption_round_trips_and_prefixes_a_nonce() {
    let ctx = CryptoContext::new(&[11_u8; 32]).expect("context");
    let sealed = encrypt_bytes(b"hello world", &ctx).expect("encrypt");
    assert_eq!(sealed.len(), 12 + 11 + 16);
    assert_eq!(decrypt_bytes(&sealed, &ctx).expect("decrypt"), b"hello world".to_vec());
    let text = encrypt_string("héllo", &ctx).expect("encrypt string");
    assert_eq!(decrypt_string(&text, &ctx).expect("decrypt string"), "héllo");
}

#[test]
fn encryption_uses_fresh_nonces() {
    let ctx = CryptoContext::new(&[11_u8; 32]).expect("context");
    let first = encrypt_string("same", &ctx).expect("encrypt");
    let second = encrypt_string("same", &ctx).expect("encrypt");
    assert_ne!(first, second);
}

#[test]
fn decrypting_short_or_tampered_input_fails() {
    let ctx = CryptoContext::new(&[11_u8; 32]).expect("context");
    assert!(matches!(
        decrypt_bytes(&[0_u8; 11], &ctx),
        Err(CryptoError::CiphertextTooShort)
    ));
    let mut sealed = encrypt_bytes(b"data", &ctx).expect("encrypt");
    let last = sealed.len() - 1;
    sealed[last] ^= 1;
    assert!(matches!(decrypt_bytes(&sealed, &ctx), Err(CryptoError::Decrypt)));
}

#[test]
fn decrypting_non_utf8_plaintext_is_invalid_utf8() {
    let ctx = CryptoContext::new(&[11_u8; 32]).expect("context");
    let sealed = encrypt_bytes(&[0xff, 0xfe], &ctx).expect("encrypt");
    assert!(matches!(
        decrypt_string(&sealed, &ctx),
        Err(CryptoError::InvalidUtf8(_))
    ));
}

#[test]
fn optional_strings_preserve_none() {
    let ctx = CryptoContext::new(&[11_u8; 32]).expect("context");
    assert_eq!(encrypt_optional_string(&None, &ctx).expect("none"), None);
    assert_eq!(decrypt_optional_string(&None, &ctx).expect("none"), None);
    let sealed = encrypt_optional_string(&Some("x".to_owned()), &ctx)
        .expect("encrypt")
        .expect("some");
    assert_eq!(
        decrypt_optional_string(&Some(sealed), &ctx).expect("decrypt"),
        Some("x".to_owned())
    );
}

#[test]
fn hex_encoding_round_trips_keys() {
    let key: Vec<u8> = (0..32).map(|i| (i * 8) as u8).collect();
    let text = encode_hex(&key);
    assert_eq!(text.len(), 64);
    assert!(text.starts_with("0008101820"));
    assert_eq!(decode_hex(&text).expect("decode"), key);
    assert_eq!(decode_hex(&text.to_uppercase()).expect("decode upper"), key);
    assert_eq!(encode_hex(&[0xab, 0x01]), "ab01");
}

#[test]
fn decode_hex_rejects_bad_stored_keys() {
    assert!(matches!(decode_hex("abcd"), Err(CryptoError::InvalidStoredKey)));
    let bad = "g".repeat(64);
    assert!(matches!(decode_hex(&bad), Err(CryptoError::InvalidStoredKey)));
}

#[test]
fn stored_secret_that_is_not_hex_fails_to_load() {
    let store = MemorySecretStore::empty();
    store.write_secret("not hex").expect("write");
    assert!(matches!(
        load_or_generate_key(&store, None::<&MemoryBackupStore>),
        Err(CryptoError::InvalidStoredKey)
    ));
}

#[test]
fn backup_key_of_wrong_length_fails_to_load() {
    let store = MemorySecretStore::empty();
    let backup = MemoryBackupStore::empty();
    backup.write_key(&[1_u8; 3]).expect("write");
    assert!(matches!(
        load_or_generate_key(&store, Some(&backup)),
        Err(CryptoError::InvalidKeyLength)
    ));
    assert!(matches!(
        on_backup_read(Ok(vec![1_u8; 3])),
        StoredKey::Failed(CryptoError::InvalidKeyLength)
    ));
    assert!(matches!(on_backup_read(Ok(vec![1_u8; 32])), StoredKey::Key(k) if k == vec![1_u8; 32]));
    assert!(matches!(on_backup_read(Err(CryptoError::SecretNotFound)), StoredKey::Missing));
    assert!(matches!(
        on_backup_read(Err(CryptoError::ProtectedBackup("io".to_owned()))),
        StoredKey::Failed(CryptoError::ProtectedBackup(m)) if m == "io"
    ));
}

#[test]
fn generated_key_is_written_to_store_and_backup() {
    let store = MemorySecretStore::empty();
    let backup = MemoryBackupStore::empty();
    let key = load_or_generate_key(&store, Some(&backup)).expect("generate");
    assert_eq!(store.read_secret().expect("stored"), encode_hex(&key));
    assert_eq!(backup.read_key().expect("backed up"), key);
}

#[test]
fn path_components_are_sanitized() {
    assert_eq!(sanitize_path_component("my app/svc:1"), "my_app_svc_1");
    assert_eq!(sanitize_path_component("ok-name_2"), "ok-name_2");
}

#[test]
fn secret_store_failures_map_to_crypto_errors() {
    assert!(matches!(
        secret_store_failure(true, "x".to_owned()),
        CryptoError::SecretNotFound
    ));
    match secret_store_failure(false, "denied".to_owned()) {
        CryptoError::SecretStore(m) => assert_eq!(m, "denied"),
        other => panic!("unexpected {}", other.to_string()),
    }
}

#[test]
fn crypto_errors_display_their_messages() {
    assert_eq!(CryptoError::Decrypt.to_string(), "decryption failed");
    assert_eq!(
        CryptoError::InvalidKeyLength.to_string(),
        "crypto key must be exactly 32 bytes"
    );
    assert_eq!(
        CryptoError::ResolverNotFound {
            model_tag: "m",
            field_tag: "f"
        }
        .to_string(),
        "no crypto resolver mapping registered for model tag `m` and field tag `f`"
    );
}

#[test]
fn default_config_can_be_set_and_reset() {
    let mut runtime = CryptoRuntime::new();
    let config = default_crypto_config(&runtime);
    assert_eq!(config.service, "appdb");
    assert_eq!(config.account, "master-sensitive");
    set_default_crypto_service(&mut runtime, "svc".to_owned());
    assert_eq!(default_crypto_config(&runtime).service, "svc");
    assert_eq!(default_crypto_config(&runtime).account, "master-sensitive");
    set_default_crypto_account(&mut runtime, "acct".to_owned());
    assert_eq!(default_crypto_config(&runtime).account, "acct");
    set_default_crypto_config(&mut runtime, "a".to_owned(), "b".to_owned());
    let config = default_crypto_config(&runtime);
    assert_eq!((config.service.as_str(), config.account.as_str()), ("a", "b"));
    reset_default_crypto_config(&mut runtime);
    let config = default_crypto_config(&runtime);
    assert_eq!(config.service, "appdb");
    assert_eq!(config.account, "master-sensitive");
}

#[test]
fn unregistered_tag_is_resolver_not_found() {
    let mut runtime = CryptoRuntime::new();
    let tag = CryptoTag::new("m", "f");
    match resolve_crypto_context(&runtime, tag) {
        Err(CryptoError::ResolverNotFound {
            model_tag,
            field_tag,
        }) => assert_eq!((model_tag, field_tag), ("m", "f")),
        _ => panic!("expected resolver not found"),
    }
    let ctx = CryptoContext::new(&[4_u8; 32]).expect("context");
    register_crypto_context(&mut runtime, tag, ctx);
    assert_eq!(
        resolve_crypto_context(&runtime, tag).expect("registered").key(),
        [4_u8; 32]
    );
    let other = CryptoContext::new(&[6_u8; 32]).expect("context");
    register_crypto_context(&mut runtime, tag, other);
    assert_eq!(
        resolve_crypto_context(&runtime, tag).expect("replaced").key(),
        [6_u8; 32]
    );
}

const FIELDS: [SensitiveFieldMetadata; 2] = [
    SensitiveFieldMetadata {
        model_tag: "profile",
        field_tag: "secret",
        service: None,
        account: None,
        secure_fields: &[],
    },
    SensitiveFieldMetadata {
        model_tag: "profile",
        field_tag: "note",
        service: Some("custom-svc"),
        account: None,
        secure_fields: &[],
    },
];

#[test]
fn model_fields_register_on_first_resolve_with_key_locations() {
    let mut runtime = CryptoRuntime::new();
    let seen = RefCell::new(Vec::new());
    let load = |service: &str, account: &str| {
        seen.borrow_mut().push((service.to_owned(), account.to_owned()));
        CryptoContext::new(&[9_u8; 32])
    };
    let tag = CryptoTag::new("profile", "note");
    let ctx = resolve_crypto_context_with(&mut runtime, tag, &FIELDS, &load).expect("resolves");
    assert_eq!(ctx.key(), [9_u8; 32]);
    assert_eq!(
        *seen.borrow(),
        vec![
            ("appdb".to_owned(), "master-sensitive".to_owned()),
            ("custom-svc".to_owned(), "master-sensitive".to_owned()),
        ]
    );
    resolve_crypto_context_with(&mut runtime, CryptoTag::new("profile", "secret"), &FIELDS, &load)
        .expect("already registered");
    assert_eq!(seen.borrow().len(), 2);
}

#[test]
fn failed_registration_is_retried() {
    let mut runtime = CryptoRuntime::new();
    let tag = CryptoTag::new("profile", "secret");
    let err = resolve_crypto_context_with(&mut runtime, tag, &FIELDS, &no_key_store)
        .expect_err("loading fails");
    assert!(matches!(err, CryptoError::SecretNotFound));
    let ok = |_s: &str, _a: &str| CryptoContext::new(&[1_u8; 32]);
    assert!(resolve_crypto_context_with(&mut runtime, tag, &FIELDS, &ok).is_ok());
}

#[test]
fn registering_fields_keeps_existing_contexts() {
    let mut runtime = CryptoRuntime::new();
    let tag = CryptoTag::new("profile", "secret");
    register_crypto_context(&mut runtime, tag, CryptoContext::new(&[2_u8; 32]).expect("ctx"));
    let load = |_s: &str, _a: &str| CryptoContext::new(&[3_u8; 32]);
    register_model_crypto_fields(&mut runtime, &FIELDS, &load).expect("registers");
    assert_eq!(resolve_crypto_context(&runtime, tag).expect("kept").key(), [2_u8; 32]);
    assert_eq!(
        resolve_crypto_context(&runtime, CryptoTag::new("profile", "note"))
            .expect("added")
            .key(),
        [3_u8; 32]
    );
}

#[test]
fn auto_init_state_machine_runs_registration_once() {
    assert_eq!(
        auto_init_arrive(AutoCryptoInitState::Pending),
        (AutoCryptoInitState::Running, AutoCryptoInitAction::Run)
    );
    assert_eq!(
        auto_init_arrive(AutoCryptoInitState::Running),
        (AutoCryptoInitState::Running, AutoCryptoInitAction::Wait)
    );
    assert_eq!(auto_init_finish(true), AutoCryptoInitState::Ready);
    assert_eq!(auto_init_finish(false), AutoCryptoInitState::Pending);
    assert_eq!(
        auto_init_arrive(auto_init_finish(true)),
        (AutoCryptoInitState::Ready, AutoCryptoInitAction::Proceed)
    );
}

#[test]
fn secret_store_answers_decide_the_key_source() {
    let text = encode_hex(&[0x5a_u8; 32]);
    assert!(matches!(on_secret_read(Ok(text)), StoredKey::Key(k) if k == vec![0x5a_u8; 32]));
    assert!(matches!(
        on_secret_read(Ok("zz".to_owned())),
        StoredKey::Failed(CryptoError::InvalidStoredKey)
    ));
    assert!(matches!(on_secret_read(Err(CryptoError::SecretNotFound)), StoredKey::Missing));
    assert!(matches!(
        on_secret_read(Err(CryptoError::SecretStore("locked".to_owned()))),
        StoredKey::Failed(CryptoError::SecretStore(m)) if m == "locked"
    ));
}
