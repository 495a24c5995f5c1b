use feed::database::Database;
use feed::envelope::{key_envelope_with, read_key_envelope, unlock_keys, EnvelopeRead};
use feed::files::{store_exists, FilesPresent};
use feed::secret::{wipe_password, SecretBuffer, SecretBytes, SecretText};
use feed::steps::Next;
use feed::store::{
    advance_creation, advance_opening, create_new_store, create_store, lock_store, make_secrets,
    open_existing_store, secrets_of, secrets_with, store_unlocked, unlock_store, CreateNext,
    CreateStep, OpenStep, StepOutcome, StoreState,
};

const PASSWORD: &str = "correct horse battery";

fn found(data: bool, identities: bool, keys: bool) -> StepOutcome {
    StepOutcome::Found(FilesPresent { data, identities, keys })
}

fn failed() -> StepOutcome {
    StepOutcome::Failed("x".to_string())
}

fn creation_steps() -> Vec<CreateStep> {
    vec![
        CreateStep::LocateDir,
        CreateStep::MakeDir,
        CreateStep::LocateFiles,
        CreateStep::ProbeFiles,
        CreateStep::MakeSecrets,
        CreateStep::Open(Database::Data),
        CreateStep::Open(Database::Identities),
        CreateStep::MakeTables(Database::Data),
        CreateStep::MakeTables(Database::Identities),
        CreateStep::Restrict(Database::Data),
        CreateStep::Restrict(Database::Identities),
        CreateStep::WriteEnvelope,
    ]
}

#[test]
fn an_archive_is_made_in_order() {
    let mut steps = Vec::new();
    let mut next = create_new_store(PASSWORD);
    loop {
        match next {
            CreateNext::Run(step) => {
                steps.push(step);
                let outcome = if step == CreateStep::ProbeFiles {
                    found(false, false, false)
                } else {
                    StepOutcome::Done
                };
                next = advance_creation(step, outcome);
            }
            CreateNext::Created => break,
            CreateNext::Failed { text, .. } => panic!("{}", text),
        }
    }
    assert_eq!(steps, creation_steps());
}

#[test]
fn a_short_password_makes_and_opens_nothing() {
    let refused = "La password deve contenere almeno 12 caratteri.";
    assert!(matches!(
        create_new_store("short"),
        CreateNext::Failed { text, cleanup: false } if text == refused
    ));
    assert!(matches!(open_existing_store("short"), Next::Failed(text) if text == refused));
}

#[test]
fn an_existing_archive_is_never_removed() {
    for data in [false, true] {
        for identities in [false, true] {
            for keys in [false, true] {
                let next =
                    advance_creation(CreateStep::ProbeFiles, found(data, identities, keys));
                if data || identities || keys {
                    assert!(matches!(
                        next,
                        CreateNext::Failed { text, cleanup: false }
                            if text == "Un archivio FEED esiste già su questo dispositivo."
                    ));
                } else {
                    assert!(matches!(next, CreateNext::Run(CreateStep::MakeSecrets)));
                }
            }
        }
    }
}

#[test]
fn leftovers_are_removed_after_the_first_file() {
    for (i, step) in creation_steps().into_iter().enumerate() {
        match advance_creation(step, failed()) {
            CreateNext::Failed { text, cleanup } => {
                assert_eq!(cleanup, i >= 5);
                let expected = match step {
                    CreateStep::LocateDir | CreateStep::LocateFiles => {
                        "Impossibile determinare la cartella dati: x"
                    }
                    CreateStep::MakeDir => "Impossibile creare la cartella dati: x",
                    _ => "x",
                };
                assert_eq!(text, expected);
            }
            _ => panic!("expected a failure"),
        }
    }
}

#[test]
fn an_outcome_of_another_kind_changes_nothing() {
    assert!(matches!(
        advance_creation(CreateStep::ProbeFiles, StepOutcome::Done),
        CreateNext::Run(CreateStep::ProbeFiles)
    ));
    assert!(matches!(
        advance_creation(CreateStep::WriteEnvelope, found(false, false, false)),
        CreateNext::Run(CreateStep::WriteEnvelope)
    ));
    assert!(matches!(
        advance_opening(OpenStep::ProbeFiles, StepOutcome::Done),
        Next::Run(OpenStep::ProbeFiles)
    ));
    assert!(matches!(
        advance_opening(OpenStep::UnlockKeys, found(true, true, true)),
        Next::Run(OpenStep::UnlockKeys)
    ));
}

#[test]
fn an_archive_is_opened_in_order() {
    let mut steps = Vec::new();
    let mut next = open_existing_store(PASSWORD);
    loop {
        match next {
            Next::Run(step) => {
                steps.push(step);
                let outcome = if step == OpenStep::ProbeFiles {
                    found(true, true, true)
                } else {
                    StepOutcome::Done
                };
                next = advance_opening(step, outcome);
            }
            Next::Finished => break,
            Next::Failed(text) => panic!("{}", text),
        }
    }
    assert_eq!(
        steps,
        vec![
            OpenStep::LocateFiles,
            OpenStep::ProbeFiles,
            OpenStep::ReadEnvelope,
            OpenStep::UnlockKeys,
            OpenStep::Open(Database::Data),
            OpenStep::Open(Database::Identities)
        ]
    );
}

#[test]
fn an_incomplete_archive_is_not_opened() {
    let missing = "Archivio FEED non inizializzato o incompleto su questo dispositivo.";
    for files in [(false, true, true), (true, false, true), (true, true, false)] {
        let next = advance_opening(OpenStep::ProbeFiles, found(files.0, files.1, files.2));
        assert!(matches!(next, Next::Failed(text) if text == missing));
    }
    assert!(matches!(
        advance_opening(OpenStep::LocateFiles, failed()),
        Next::Failed(text) if text == "Impossibile determinare la cartella dati: x"
    ));
    assert!(matches!(
        advance_opening(OpenStep::UnlockKeys, failed()),
        Next::Failed(text) if text == "x"
    ));
}

#[test]
fn new_secrets_are_unlocked_again() {
    let secrets = make_secrets(PASSWORD).unwrap_or_else(|text| panic!("{}", text));
    let data = *secrets.keys.key_of(Database::Data);
    let identities = *secrets.keys.key_of(Database::Identities);
    assert_ne!(data, identities);
    let envelope = read_key_envelope(EnvelopeRead::Parsed(secrets.envelope)).unwrap();
    let keys = unlock_keys(PASSWORD, &envelope).unwrap_or_else(|text| panic!("{}", text));
    assert_eq!(keys.key_of(Database::Data), &data);
    assert_eq!(keys.key_of(Database::Identities), &identities);
}

#[test]
fn keys_are_the_draws_under_any_password() {
    for password in [PASSWORD, "another long password"] {
        let data = SecretBytes::new([6; 32]);
        let identities = SecretBytes::new([7; 32]);
        let secrets =
            secrets_of(password, data, identities).unwrap_or_else(|text| panic!("{}", text));
        assert_eq!(secrets.keys.key_of(Database::Data), &[6; 32]);
        assert_eq!(secrets.keys.key_of(Database::Identities), &[7; 32]);
    }
}

#[test]
fn secrets_hold_the_given_draws() {
    let data = SecretBytes::new([6; 32]);
    let identities = SecretBytes::new([7; 32]);
    let secrets = secrets_with(PASSWORD, data, identities, &[3; 16], &[4; 12], &[5; 12])
        .unwrap_or_else(|text| panic!("{}", text));
    assert_eq!(secrets.keys.key_of(Database::Data), &[6; 32]);
    assert_eq!(secrets.keys.key_of(Database::Identities), &[7; 32]);

    let expected =
        key_envelope_with(PASSWORD, &[6; 32], &[7; 32], &[3; 16], &[4; 12], &[5; 12]).unwrap();
    let envelope = secrets.envelope;
    assert_eq!(envelope.kdf.salt, "AwMDAwMDAwMDAwMDAwMDAw==");
    assert_eq!(envelope.data_key.nonce, "BAQEBAQEBAQEBAQE");
    assert_eq!(envelope.identities_key.nonce, "BQUFBQUFBQUFBQUF");
    assert_eq!(envelope.data_key.ciphertext, expected.data_key.ciphertext);
    assert_eq!(envelope.identities_key.ciphertext, expected.identities_key.ciphertext);
}

#[test]
fn making_an_archive_leaves_one() {
    for failing in [None, Some(CreateStep::Restrict(Database::Data))] {
        let mut files = FilesPresent { data: false, identities: false, keys: false };
        assert_eq!(store_exists(Ok(files)), Ok(false));

        let mut next = create_new_store(PASSWORD);
        let made = loop {
            match next {
                CreateNext::Run(step) => {
                    let outcome = if failing == Some(step) {
                        failed()
                    } else if step == CreateStep::ProbeFiles {
                        StepOutcome::Found(files)
                    } else {
                        match step {
                            CreateStep::MakeTables(Database::Data) => files.data = true,
                            CreateStep::MakeTables(Database::Identities) => files.identities = true,
                            CreateStep::WriteEnvelope => files.keys = true,
                            _ => {}
                        }
                        StepOutcome::Done
                    };
                    next = advance_creation(step, outcome);
                }
                CreateNext::Created => break Ok(7),
                CreateNext::Failed { text, cleanup } => {
                    assert!(cleanup);
                    files = FilesPresent { data: false, identities: false, keys: false };
                    break Err(text);
                }
            }
        };

        let mut state: StoreState<u8> = StoreState::default();
        let mut password = PASSWORD.to_string();
        let answer = create_store(&mut state, false, &mut password, made);
        assert_eq!(answer.is_ok(), failing.is_none());
        assert_eq!(store_exists(Ok(files)), Ok(failing.is_none()));
        assert_eq!(store_unlocked(&state, false), Ok(failing.is_none()));
    }
}

#[test]
fn unlocking_and_locking() {
    let mut state: StoreState<u8> = StoreState::default();
    assert_eq!(store_unlocked(&state, false), Ok(false));

    let mut password = PASSWORD.to_string();
    let answer = create_store(&mut state, false, &mut password, Ok(7));
    assert_eq!(answer, Ok(()));
    assert_eq!(password, "");
    assert_eq!(store_unlocked(&state, false), Ok(true));

    assert_eq!(lock_store(&mut state, false), Ok(()));
    assert_eq!(store_unlocked(&state, false), Ok(false));

    let mut password = PASSWORD.to_string();
    let answer = unlock_store(&mut state, false, &mut password, Err("x".to_string()));
    assert_eq!(answer, Err("x".to_string()));
    assert_eq!(password, "");
    assert_eq!(store_unlocked(&state, false), Ok(false));

    let mut password = PASSWORD.to_string();
    assert_eq!(unlock_store(&mut state, false, &mut password, Ok(8)), Ok(()));
    assert_eq!(store_unlocked(&state, false), Ok(true));
}

#[test]
fn a_poisoned_state_stays_as_it_is() {
    let unavailable = "Stato del database non disponibile.".to_string();
    let mut state: StoreState<u8> = StoreState::default();
    let mut password = PASSWORD.to_string();
    assert_eq!(
        create_store(&mut state, true, &mut password, Ok(7)),
        Err(unavailable.clone())
    );
    assert_eq!(password, "");
    assert_eq!(
        create_store(&mut state, true, &mut password, Err("x".to_string())),
        Err("x".to_string())
    );
    assert_eq!(store_unlocked(&state, true), Err(unavailable.clone()));
    assert_eq!(store_unlocked(&state, false), Ok(false));
    assert_eq!(unlock_store(&mut state, false, &mut password, Ok(8)), Ok(()));
    assert_eq!(lock_store(&mut state, true), Err(unavailable));
    assert_eq!(store_unlocked(&state, false), Ok(true));
}

#[test]
fn secrets_hold_what_they_are_given() {
    let mut password = "segreto".to_string();
    wipe_password(&mut password);
    assert_eq!(password, "");
    let mut bytes = SecretBytes::<3>::zeroed();
    bytes.set(1, 9);
    assert_eq!(bytes.as_array(), &[0, 9, 0]);
    assert_eq!(SecretBuffer::new(vec![1, 2]).as_slice(), &[1, 2]);
    let mut text = SecretText::with_capacity(4);
    text.push('a');
    text.push_str("bc");
    assert_eq!(text.as_str(), "abc");
    assert_eq!(SecretText::from_text("è").as_str(), "è");
}
