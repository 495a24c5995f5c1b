use feed::database::{
    create_data_schema, create_identity_schema, database_file, database_schema,
    database_statement, open_cipher_database, raw_key_pragma, Database, DatabaseStep,
};
use feed::files::{
    cleanup_store_files, file_name, restrict_file_permissions, store_exists, write_key_envelope,
    EnvelopeStep, FilesPresent, PermissionStep, StoreFile, OWNER_ONLY_MODE,
};
use feed::steps::Next;

fn text_of<S>(next: Next<S>) -> String {
    match next {
        Next::Failed(text) => text,
        _ => panic!("expected a failure"),
    }
}

fn present(data: bool, identities: bool, keys: bool) -> FilesPresent {
    FilesPresent { data, identities, keys }
}

#[test]
fn pragma_of_a_key() {
    let mut key = [0u8; 32];
    key[0] = 0x0f;
    key[1] = 0xa9;
    key[31] = 0xff;
    let expected = format!("PRAGMA key = \"x'0FA9{}FF'\";", "00".repeat(29));
    assert_eq!(raw_key_pragma(&key).as_str(), expected);
}

#[test]
fn different_keys_have_different_pragmas() {
    let mut key = [0u8; 32];
    let first = raw_key_pragma(&key);
    key[5] = 16;
    let second = raw_key_pragma(&key);
    key[5] = 1;
    let third = raw_key_pragma(&key);
    assert_ne!(first.as_str(), second.as_str());
    assert_ne!(second.as_str(), third.as_str());
}

#[test]
fn database_opens_in_order() {
    let mut steps = vec![DatabaseStep::Connect];
    loop {
        let step = steps[steps.len() - 1];
        match open_cipher_database(step, Ok(())) {
            Next::Run(next) => steps.push(next),
            Next::Finished => break,
            Next::Failed(text) => panic!("{}", text),
        }
    }
    assert_eq!(
        steps,
        vec![
            DatabaseStep::Connect,
            DatabaseStep::SetKey,
            DatabaseStep::Configure,
            DatabaseStep::Probe
        ]
    );
}

#[test]
fn database_failures() {
    let cases = [
        (DatabaseStep::Connect, "Impossibile aprire il database cifrato: x"),
        (DatabaseStep::SetKey, "Impossibile impostare la chiave SQLCipher: x"),
        (DatabaseStep::Configure, "Impossibile configurare SQLCipher: x"),
        (DatabaseStep::Probe, "Database FEED non leggibile o chiave non valida."),
    ];
    for (step, text) in cases {
        assert_eq!(text_of(open_cipher_database(step, Err("x".to_string()))), text);
    }
    assert_eq!(
        create_data_schema(Err("x".to_string())),
        Err("Impossibile inizializzare il database dati: x".to_string())
    );
    assert_eq!(
        create_identity_schema(Err("x".to_string())),
        Err("Impossibile inizializzare il database identità: x".to_string())
    );
    assert_eq!(create_data_schema(Ok(())), Ok(()));
    assert_eq!(create_identity_schema(Ok(())), Ok(()));
}

#[test]
fn database_statements() {
    let key = [0xab; 32];
    assert!(database_statement(DatabaseStep::Connect, &key).is_none());
    let statement = database_statement(DatabaseStep::SetKey, &key).unwrap();
    assert_eq!(statement.as_str(), format!("PRAGMA key = \"x'{}'\";", "AB".repeat(32)));
    let statement = database_statement(DatabaseStep::Configure, &key).unwrap();
    let settings: Vec<&str> = statement.as_str().lines().map(|line| line.trim()).collect();
    assert_eq!(
        settings,
        vec![
            "PRAGMA cipher_memory_security = ON;",
            "PRAGMA foreign_keys = ON;",
            "PRAGMA secure_delete = ON;",
            "PRAGMA temp_store = MEMORY;",
            "PRAGMA synchronous = FULL;"
        ]
    );
    let statement = database_statement(DatabaseStep::Probe, &key).unwrap();
    assert_eq!(statement.as_str(), "SELECT count(*) FROM sqlite_master");
}

#[test]
fn databases_are_apart() {
    assert_eq!(database_file(Database::Data), StoreFile::Data);
    assert_eq!(database_file(Database::Identities), StoreFile::Identities);
    let data = database_schema(Database::Data);
    let identities = database_schema(Database::Identities);
    assert!(data.contains("CREATE TABLE IF NOT EXISTS responses ("));
    assert!(data.contains("CHECK(rotation IN (0, 90, 180, 270))"));
    assert!(!data.contains("display_name"));
    assert!(identities.contains("display_name TEXT NOT NULL"));
    assert!(identities.contains("UNIQUE(class_uuid, roster_number)"));
    assert!(!identities.contains("questionnaire"));
    for schema in [data, identities] {
        assert!(schema.starts_with("BEGIN;"));
        assert!(schema.ends_with("COMMIT;"));
        assert!(schema.contains("VALUES ('schema_version', '1')"));
    }
}

#[test]
fn names_of_files() {
    assert_eq!(file_name(StoreFile::Data), "feed.db");
    assert_eq!(file_name(StoreFile::Identities), "identities.db");
    assert_eq!(file_name(StoreFile::Keys), "keys.json");
    assert_eq!(file_name(StoreFile::KeysTemp), "keys.json.tmp");
}

#[test]
fn existence_of_an_archive() {
    let incomplete = "Archivio FEED incompleto: alcuni file risultano mancanti. \
                      Non crearne uno nuovo sopra questi dati.";
    for data in [false, true] {
        for identities in [false, true] {
            for keys in [false, true] {
                let exists = store_exists(Ok(present(data, identities, keys)));
                if data && identities && keys {
                    assert_eq!(exists, Ok(true));
                } else if !data && !identities && !keys {
                    assert_eq!(exists, Ok(false));
                } else {
                    assert_eq!(exists, Err(incomplete.to_string()));
                }
            }
        }
    }
    assert_eq!(
        store_exists(Err("x".to_string())),
        Err("Impossibile determinare la cartella dati: x".to_string())
    );
}

#[test]
fn leftovers_of_an_archive() {
    assert_eq!(
        cleanup_store_files(true),
        vec![StoreFile::Data, StoreFile::Identities, StoreFile::Keys, StoreFile::KeysTemp]
    );
    assert_eq!(
        cleanup_store_files(false),
        vec![StoreFile::Data, StoreFile::Identities, StoreFile::Keys]
    );
}

#[test]
fn permissions_are_read_then_set() {
    assert_eq!(OWNER_ONLY_MODE, 0o600);
    assert!(matches!(
        restrict_file_permissions(true, None),
        Next::Run(PermissionStep::Read)
    ));
    assert!(matches!(
        restrict_file_permissions(true, Some((PermissionStep::Read, Ok(())))),
        Next::Run(PermissionStep::SetMode)
    ));
    assert!(matches!(
        restrict_file_permissions(true, Some((PermissionStep::SetMode, Ok(())))),
        Next::Finished
    ));
    assert!(matches!(restrict_file_permissions(false, None), Next::Finished));
    let failed = restrict_file_permissions(true, Some((PermissionStep::Read, Err("x".to_string()))));
    assert_eq!(text_of(failed), "Impossibile leggere i permessi dell'archivio: x");
    let failed =
        restrict_file_permissions(true, Some((PermissionStep::SetMode, Err("x".to_string()))));
    assert_eq!(text_of(failed), "Impossibile proteggere i permessi dell'archivio: x");
}

#[test]
fn envelope_is_named_last() {
    let mut steps = vec![EnvelopeStep::Locate];
    loop {
        let step = steps[steps.len() - 1];
        match write_key_envelope(step, Ok(())) {
            Next::Run(next) => steps.push(next),
            Next::Finished => break,
            Next::Failed(text) => panic!("{}", text),
        }
    }
    assert_eq!(
        steps,
        vec![
            EnvelopeStep::Locate,
            EnvelopeStep::Serialize,
            EnvelopeStep::WriteTemp,
            EnvelopeStep::RestrictTemp,
            EnvelopeStep::Rename
        ]
    );
}

#[test]
fn envelope_failures() {
    let cases = [
        (EnvelopeStep::Locate, "Percorso dell'archivio FEED non valido."),
        (EnvelopeStep::Serialize, "Impossibile serializzare le chiavi dell'archivio: x"),
        (EnvelopeStep::WriteTemp, "Impossibile salvare le chiavi dell'archivio: x"),
        (EnvelopeStep::RestrictTemp, "x"),
        (EnvelopeStep::Rename, "Impossibile finalizzare le chiavi dell'archivio: x"),
    ];
    for (step, text) in cases {
        assert_eq!(text_of(write_key_envelope(step, Err("x".to_string()))), text);
    }
}
