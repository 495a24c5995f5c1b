use base64::engine::general_purpose::STANDARD;
use base64::Engine;
use feed::crypto::{CipherFault, KdfFault};
use feed::envelope::{
    checked_salt, checked_wrapping, create_key_envelope, derive_kek, kdf_config_with_salt,
    kdf_result, key_envelope, key_envelope_with, new_kdf_config, opened_key, random_bytes,
    random_result, read_key_envelope, sealed_bytes, unlock_keys, unwrap_key, validate_password,
    wrap_key, wrap_key_with_nonce, EnvelopeRead, KdfConfig, KeyEnvelope, WrappedKey,
};
use feed::database::Database;
use feed::secret::SecretBytes;

fn hex(text: &str) -> Vec<u8> {
    let mut bytes = Vec::new();
    let mut i = 0;
    while i < text.len() {
        bytes.push(u8::from_str_radix(&text[i..i + 2], 16).unwrap());
        i += 2;
    }
    bytes
}

fn cheap_config(salt: &str) -> KdfConfig {
    KdfConfig {
        algorithm: "argon2id".to_string(),
        salt: salt.to_string(),
        memory_kib: 256,
        iterations: 2,
        parallelism: 1,
    }
}

fn error_of<T>(result: Result<T, String>) -> String {
    match result {
        Ok(_) => panic!("expected an error"),
        Err(text) => text,
    }
}

fn cheap_envelope(password: &str, data: &[u8; 32], identities: &[u8; 32]) -> KeyEnvelope {
    let config = cheap_config("c29tZXNhbHQ=");
    let kek = derive_kek(password, &config).unwrap_or_else(|text| panic!("{}", text));
    let data = wrap_key(kek.as_array(), data, b"FEED:data-key:v1").unwrap();
    let identities = wrap_key(kek.as_array(), identities, b"FEED:identities-key:v1").unwrap();
    key_envelope(config, data, identities)
}

#[test]
fn password_length_counts_characters() {
    let short = "La password deve contenere almeno 12 caratteri.".to_string();
    assert_eq!(validate_password(""), Err(short.clone()));
    assert_eq!(validate_password("12345678901"), Err(short.clone()));
    assert_eq!(validate_password("123456789012"), Ok(()));
    assert_eq!(validate_password("èèèèèèèèèèè"), Err(short));
    assert_eq!(validate_password("èèèèèèèèèèèè"), Ok(()));
}

#[test]
fn random_bytes_differ() {
    let a = random_bytes::<32>().unwrap_or_else(|text| panic!("{}", text));
    let b = random_bytes::<32>().unwrap_or_else(|text| panic!("{}", text));
    assert_ne!(a.as_array(), b.as_array());
    assert_ne!(a.as_array(), &[0u8; 32]);
}

#[test]
fn random_failure_is_told() {
    let failed = random_result(SecretBytes::<4>::zeroed(), Err("boh".to_string()));
    assert_eq!(
        error_of(failed),
        "Impossibile ottenere casualità sicura dal sistema: boh"
    );
    let filled = random_result(SecretBytes::new([1, 2, 3]), Ok(()));
    assert!(matches!(filled, Ok(bytes) if bytes.as_array() == &[1, 2, 3]));
}

#[test]
fn derives_the_reference_key() {
    let kek = derive_kek("password", &cheap_config("c29tZXNhbHQ="));
    let expected = hex("9dfeb910e80bad0311fee20f9c0e2b12c17987b4cac90c2ef54d5b3021c68bfe");
    assert!(matches!(kek, Ok(key) if key.as_array().to_vec() == expected));
}

#[test]
fn derivation_depends_on_password_and_salt() {
    let a = derive_kek("password", &cheap_config("c29tZXNhbHQ=")).ok().unwrap();
    let b = derive_kek("passwore", &cheap_config("c29tZXNhbHQ=")).ok().unwrap();
    let c = derive_kek("password", &cheap_config("c29tZXNhbHU=")).ok().unwrap();
    assert_ne!(a.as_array(), b.as_array());
    assert_ne!(a.as_array(), c.as_array());
}

#[test]
fn derivation_errors() {
    let mut config = cheap_config("c29tZXNhbHQ=");
    config.algorithm = "argon2i".to_string();
    assert_eq!(
        error_of(derive_kek("password", &config)),
        "Formato chiavi FEED non supportato."
    );
    assert_eq!(
        error_of(derive_kek("password", &cheap_config("c29tZXNhbHQ"))),
        "Archivio FEED danneggiato: salt non valido."
    );
    assert_eq!(
        error_of(derive_kek("password", &cheap_config("AAAAAAAAAA=="))),
        "Archivio FEED danneggiato: salt troppo corto."
    );
}

#[test]
fn parameter_errors_have_the_words_of_argon2() {
    let cases: [(u32, u32, u32, &str); 8] = [
        (7, 1, 1, "memory cost is too small"),
        (15, 1, 2, "memory cost is too small"),
        (8, 0, 1, "time cost is too small"),
        (8, 1, 0, "not enough threads"),
        (u32::MAX, 1, 0x100_0000, "too many threads"),
        (8, 1, 0x2000_0000, "too many threads"),
        (8, 0, 0x2000_0000, "time cost is too small"),
        (8, 1, u32::MAX, "memory cost is too small"),
    ];
    for (memory_kib, iterations, parallelism, fault) in cases {
        let mut config = cheap_config("c29tZXNhbHQ=");
        config.memory_kib = memory_kib;
        config.iterations = iterations;
        config.parallelism = parallelism;
        assert_eq!(
            error_of(derive_kek("password", &config)),
            format!("Parametri Argon2 non validi: {}", fault)
        );
    }
}

#[test]
fn salt_and_derivation_verdicts() {
    assert_eq!(checked_salt("argon2id", Some(vec![1; 8])), Ok(vec![1; 8]));
    assert_eq!(
        checked_salt("Argon2id", None),
        Err("Formato chiavi FEED non supportato.".to_string())
    );
    let refused = kdf_result(
        SecretBytes::new([9; 32]),
        Err(KdfFault::Hash("password is too long".to_string())),
    );
    assert_eq!(
        error_of(refused),
        "Impossibile derivare la chiave di protezione: password is too long"
    );
    let derived = kdf_result(SecretBytes::new([9; 32]), Ok(()));
    assert!(matches!(derived, Ok(key) if key.as_array() == &[9; 32]));
}

#[test]
fn new_configuration() {
    let config = kdf_config_with_salt(&[0; 16]);
    assert_eq!(config.algorithm, "argon2id");
    assert_eq!(config.salt, "AAAAAAAAAAAAAAAAAAAAAA==");
    assert_eq!(config.memory_kib, 65536);
    assert_eq!(config.iterations, 3);
    assert_eq!(config.parallelism, 1);
    let a = new_kdf_config().unwrap();
    let b = new_kdf_config().unwrap();
    assert_ne!(a.salt, b.salt);
    assert_eq!(STANDARD.decode(a.salt).unwrap().len(), 16);
}

#[test]
fn wraps_to_the_reference_ciphertext() {
    let wrapped = wrap_key_with_nonce(&[0; 32], &[0; 32], b"FEED:data-key:v1", &[0; 12]).unwrap();
    assert_eq!(wrapped.nonce, "AAAAAAAAAAAAAAAA");
    let sealed = STANDARD.decode(wrapped.ciphertext).unwrap();
    assert_eq!(sealed.len(), 48);
    assert_eq!(sealed[..16].to_vec(), hex("cea7403d4d606b6e074ec5d3baf39d18"));
}

#[test]
fn unwrapping_gives_back_what_was_wrapped() {
    let wrapped = wrap_key(&[7; 32], &[42; 32], b"label").unwrap();
    let key = unwrap_key(&[7; 32], &wrapped, b"label");
    assert!(matches!(key, Ok(key) if key.as_array() == &[42; 32]));
}

#[test]
fn wrapping_twice_differs() {
    let a = wrap_key(&[7; 32], &[42; 32], b"label").unwrap();
    let b = wrap_key(&[7; 32], &[42; 32], b"label").unwrap();
    assert_ne!(a.nonce, b.nonce);
    assert_ne!(a.ciphertext, b.ciphertext);
}

#[test]
fn unwrapping_errors() {
    let wrong = "Password non valida o archivio FEED danneggiato.";
    let wrapped = wrap_key(&[7; 32], &[42; 32], b"label").unwrap();
    assert_eq!(error_of(unwrap_key(&[8; 32], &wrapped, b"label")), wrong);
    assert_eq!(error_of(unwrap_key(&[7; 32], &wrapped, b"lable")), wrong);

    let mut sealed = STANDARD.decode(&wrapped.ciphertext).unwrap();
    sealed[0] ^= 1;
    let tampered = WrappedKey { nonce: wrapped.nonce.clone(), ciphertext: STANDARD.encode(sealed) };
    assert_eq!(error_of(unwrap_key(&[7; 32], &tampered, b"label")), wrong);

    let empty = WrappedKey { nonce: wrapped.nonce.clone(), ciphertext: String::new() };
    assert_eq!(error_of(unwrap_key(&[7; 32], &empty, b"label")), wrong);

    let bad_nonce = "Archivio FEED danneggiato: nonce non valido.";
    for nonce in ["?", "", "AAAA", "AAAAAAAAAAAAAAAAAAAA"] {
        let broken =
            WrappedKey { nonce: nonce.to_string(), ciphertext: wrapped.ciphertext.clone() };
        assert_eq!(error_of(unwrap_key(&[7; 32], &broken, b"label")), bad_nonce);
    }

    let broken = WrappedKey { nonce: wrapped.nonce.clone(), ciphertext: "*".to_string() };
    assert_eq!(
        error_of(unwrap_key(&[7; 32], &broken, b"label")),
        "Archivio FEED danneggiato: chiave protetta non valida."
    );
}

#[test]
fn wrapping_verdicts() {
    assert_eq!(
        error_of(opened_key(Ok(vec![1; 31]))),
        "Archivio FEED danneggiato: lunghezza chiave non valida."
    );
    assert_eq!(
        error_of(opened_key(Err(CipherFault::Message))),
        "Password non valida o archivio FEED danneggiato."
    );
    assert_eq!(
        error_of(opened_key(Err(CipherFault::Key))),
        "Impossibile inizializzare la protezione delle chiavi."
    );
    assert!(matches!(opened_key(Ok(vec![1; 32])), Ok(key) if key.as_array() == &[1; 32]));
    assert_eq!(sealed_bytes(Ok(vec![5])), Ok(vec![5]));
    assert_eq!(
        sealed_bytes(Err(CipherFault::Key)),
        Err("Impossibile inizializzare la protezione delle chiavi.".to_string())
    );
    assert_eq!(
        sealed_bytes(Err(CipherFault::Message)),
        Err("Impossibile proteggere le chiavi dell'archivio.".to_string())
    );
    let checked = checked_wrapping(Some(vec![3; 12]), Some(vec![]));
    assert!(matches!(checked, Ok((nonce, rest)) if nonce.as_array() == &[3; 12] && rest.is_empty()));
    assert_eq!(
        error_of(checked_wrapping(Some(vec![3; 13]), None)),
        "Archivio FEED danneggiato: nonce non valido."
    );
}

#[test]
fn a_new_envelope_is_unlocked_by_its_password() {
    let envelope = create_key_envelope("correct horse battery", &[1; 32], &[2; 32]).unwrap();
    assert_eq!(envelope.version, 1);
    assert_eq!(envelope.kdf.memory_kib, 65536);
    let keys = unlock_keys("correct horse battery", &envelope);
    match keys {
        Ok(keys) => {
            assert_eq!(keys.key_of(Database::Data), &[1; 32]);
            assert_eq!(keys.key_of(Database::Identities), &[2; 32]);
        }
        Err(text) => panic!("{}", text),
    }
}

#[test]
fn an_envelope_holds_the_given_draws() {
    let envelope =
        key_envelope_with("correct horse battery", &[1; 32], &[2; 32], &[3; 16], &[4; 12], &[5; 12])
            .unwrap();
    assert_eq!(envelope.version, 1);
    assert_eq!(STANDARD.decode(&envelope.kdf.salt).unwrap(), vec![3; 16]);
    assert_eq!(STANDARD.decode(&envelope.data_key.nonce).unwrap(), vec![4; 12]);
    assert_eq!(STANDARD.decode(&envelope.identities_key.nonce).unwrap(), vec![5; 12]);
    assert_eq!(STANDARD.decode(&envelope.data_key.ciphertext).unwrap().len(), 48);
    let kek = derive_kek("correct horse battery", &envelope.kdf).ok().unwrap();
    let data =
        wrap_key_with_nonce(kek.as_array(), &[1; 32], b"FEED:data-key:v1", &[4; 12]).unwrap();
    assert_eq!(envelope.data_key.ciphertext, data.ciphertext);
    let identities =
        wrap_key_with_nonce(kek.as_array(), &[2; 32], b"FEED:identities-key:v1", &[5; 12])
            .unwrap();
    assert_eq!(envelope.identities_key.ciphertext, identities.ciphertext);
}

#[test]
fn texts_of_an_envelope_have_fixed_lengths() {
    let envelope = create_key_envelope("correct horse battery", &[1; 32], &[2; 32]).unwrap();
    assert_eq!(envelope.kdf.salt.chars().count(), 24);
    for wrapped in [&envelope.data_key, &envelope.identities_key] {
        assert_eq!(wrapped.nonce.chars().count(), 16);
        assert_eq!(wrapped.ciphertext.chars().count(), 64);
    }
    assert_ne!(envelope.data_key.nonce, envelope.identities_key.nonce);
}

#[test]
fn another_password_unlocks_nothing() {
    let envelope = cheap_envelope("correct horse battery", &[1; 32], &[2; 32]);
    assert!(unlock_keys("correct horse battery", &envelope).is_ok());
    assert_eq!(
        error_of(unlock_keys("correct horse batterz", &envelope)),
        "Password non valida o archivio FEED danneggiato."
    );
}

#[test]
fn swapped_keys_unlock_nothing() {
    let envelope = cheap_envelope("correct horse battery", &[1; 32], &[2; 32]);
    let swapped = key_envelope(envelope.kdf, envelope.identities_key, envelope.data_key);
    assert_eq!(
        error_of(unlock_keys("correct horse battery", &swapped)),
        "Password non valida o archivio FEED danneggiato."
    );
}

#[test]
fn reading_an_envelope() {
    let unreadable = EnvelopeRead::Unreadable("no such file".to_string());
    assert_eq!(
        error_of(read_key_envelope(unreadable)),
        "Impossibile leggere le chiavi dell'archivio: no such file"
    );
    let malformed = EnvelopeRead::Malformed("EOF".to_string());
    assert_eq!(
        error_of(read_key_envelope(malformed)),
        "Archivio FEED danneggiato: envelope non valido (EOF)."
    );
    for (version, digits) in [(0, "0"), (2, "2"), (10, "10"), (4294967295, "4294967295")] {
        let mut envelope = cheap_envelope("correct horse battery", &[1; 32], &[2; 32]);
        envelope.version = version;
        assert_eq!(
            error_of(read_key_envelope(EnvelopeRead::Parsed(envelope))),
            format!("Versione archivio FEED non supportata: {}.", digits)
        );
    }
    let envelope = cheap_envelope("correct horse battery", &[1; 32], &[2; 32]);
    let salt = envelope.kdf.salt.clone();
    let read = read_key_envelope(EnvelopeRead::Parsed(envelope)).unwrap();
    assert_eq!(read.kdf.salt, salt);
}
