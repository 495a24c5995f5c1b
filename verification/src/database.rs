//! The encrypted databases: how each is opened, and the tables each starts with.

use vstd::prelude::*;

use crate::crypto::KEY_LEN;
use crate::files::StoreFile;
use crate::messages::{
    NO_DATA_SCHEMA, NO_IDENTITY_SCHEMA, UNCONFIGURED_DATABASE, UNOPENED_DATABASE,
    UNREADABLE_DATABASE, UNSET_KEY,
};
use crate::secret::SecretText;
use crate::steps::{good, lemma_run, planned, run, Next, NextView, Outcome};
use crate::text::{joined, result_view};

verus! {

/// What comes before the digits of a raw key.
pub const RAW_KEY_START: &'static str = "PRAGMA key = \"x'";

/// What comes after the digits of a raw key.
pub const RAW_KEY_END: &'static str = "'\";";

/// The settings of every connection.
pub const CONFIGURATION: &'static str = "PRAGMA cipher_memory_security = ON;
             PRAGMA foreign_keys = ON;
             PRAGMA secure_delete = ON;
             PRAGMA temp_store = MEMORY;
             PRAGMA synchronous = FULL;";

/// A query that only a connection with the right key answers.
pub const READABILITY_QUERY: &'static str = "SELECT count(*) FROM sqlite_master";

/// The tables of the data database.
pub const DATA_SCHEMA: &'static str = "BEGIN;
             CREATE TABLE IF NOT EXISTS meta (
               key TEXT PRIMARY KEY,
               value TEXT NOT NULL
             );
             INSERT OR IGNORE INTO meta(key, value) VALUES ('schema_version', '1');

             CREATE TABLE IF NOT EXISTS questionnaires (
               questionnaire_uuid TEXT PRIMARY KEY,
               code TEXT,
               title TEXT NOT NULL,
               test_type TEXT NOT NULL,
               legend_json TEXT NOT NULL,
               created_at TEXT NOT NULL DEFAULT CURRENT_TIMESTAMP,
               updated_at TEXT NOT NULL DEFAULT CURRENT_TIMESTAMP
             );

             CREATE TABLE IF NOT EXISTS sessions (
               session_uuid TEXT PRIMARY KEY,
               questionnaire_uuid TEXT NOT NULL,
               class_uuid TEXT NOT NULL,
               questionnaire_snapshot_json TEXT NOT NULL,
               started_at TEXT NOT NULL DEFAULT CURRENT_TIMESTAMP,
               completed_at TEXT,
               FOREIGN KEY(questionnaire_uuid)
                 REFERENCES questionnaires(questionnaire_uuid)
             );

             CREATE TABLE IF NOT EXISTS responses (
               session_uuid TEXT NOT NULL,
               student_uuid TEXT NOT NULL,
               rotation INTEGER NOT NULL CHECK(rotation IN (0, 90, 180, 270)),
               observation TEXT,
               source TEXT NOT NULL DEFAULT 'marker',
               manual_override INTEGER NOT NULL DEFAULT 0
                 CHECK(manual_override IN (0, 1)),
               updated_at TEXT NOT NULL DEFAULT CURRENT_TIMESTAMP,
               PRIMARY KEY(session_uuid, student_uuid),
               FOREIGN KEY(session_uuid)
                 REFERENCES sessions(session_uuid) ON DELETE CASCADE
             );

             CREATE INDEX IF NOT EXISTS idx_responses_student
               ON responses(student_uuid);
             CREATE INDEX IF NOT EXISTS idx_sessions_class
               ON sessions(class_uuid, started_at);
             COMMIT;";

/// The tables of the identities database.
pub const IDENTITY_SCHEMA: &'static str = "BEGIN;
             CREATE TABLE IF NOT EXISTS meta (
               key TEXT PRIMARY KEY,
               value TEXT NOT NULL
             );
             INSERT OR IGNORE INTO meta(key, value) VALUES ('schema_version', '1');

             CREATE TABLE IF NOT EXISTS classes (
               class_uuid TEXT PRIMARY KEY,
               label TEXT NOT NULL,
               school_year TEXT,
               created_at TEXT NOT NULL DEFAULT CURRENT_TIMESTAMP
             );

             CREATE TABLE IF NOT EXISTS students (
               student_uuid TEXT PRIMARY KEY,
               class_uuid TEXT NOT NULL,
               roster_number INTEGER NOT NULL CHECK(roster_number > 0),
               display_name TEXT NOT NULL,
               active INTEGER NOT NULL DEFAULT 1 CHECK(active IN (0, 1)),
               created_at TEXT NOT NULL DEFAULT CURRENT_TIMESTAMP,
               FOREIGN KEY(class_uuid)
                 REFERENCES classes(class_uuid) ON DELETE CASCADE,
               UNIQUE(class_uuid, roster_number)
             );

             CREATE INDEX IF NOT EXISTS idx_students_class
               ON students(class_uuid, roster_number);
             COMMIT;";

/// A database of the archive.
#[derive(Debug, Clone, Copy, PartialEq, Eq, Structural)]
pub enum Database {
    /// Questionnaires, sessions and answers, under pseudonyms.
    Data,
    /// Classes and names.
    Identities,
}

/// The file of a database.
pub open spec fn file_of(database: Database) -> StoreFile {
    match database {
        Database::Data => StoreFile::Data,
        Database::Identities => StoreFile::Identities,
    }
}

/// The file of a database.
pub fn database_file(database: Database) -> (r: StoreFile)
    ensures
        r == file_of(database),
        database is Data <==> r is Data,
        database is Identities <==> r is Identities,
{
    match database {
        Database::Data => StoreFile::Data,
        Database::Identities => StoreFile::Identities,
    }
}

/// The statements that make the tables of a database.
pub open spec fn schema_of(database: Database) -> Seq<char> {
    match database {
        Database::Data => DATA_SCHEMA@,
        Database::Identities => IDENTITY_SCHEMA@,
    }
}

/// The statements that make the tables of a database.
pub fn database_schema(database: Database) -> (r: &'static str)
    ensures
        r@ == schema_of(database),
        database is Data ==> r@ == DATA_SCHEMA@,
        database is Identities ==> r@ == IDENTITY_SCHEMA@,
{
    match database {
        Database::Data => DATA_SCHEMA,
        Database::Identities => IDENTITY_SCHEMA,
    }
}

/// `part` occurs in `text`.
pub open spec fn holds(text: Seq<char>, part: Seq<char>) -> bool {
    exists|i: int|
        0 <= i <= text.len() - part.len() && #[trigger] text.subrange(i, i + part.len()) == part
}

/// A part that stands at some place occurs.
proof fn lemma_holds(text: Seq<char>, i: int, part: Seq<char>)
    requires
        0 <= i <= text.len() - part.len(),
        forall|k: int| 0 <= k < part.len() ==> text[i + k] == #[trigger] part[k],
    ensures
        holds(text, part),
{
    assert(text.subrange(i, i + part.len()) =~= part);
}

/// The statements that are run on the data database make its four tables and its two indexes, and
/// put these constraints on the tables.
pub proof fn lemma_data_tables()
    ensures
        holds(schema_of(Database::Data), "BEGIN;"@),
        holds(schema_of(Database::Data), "CREATE TABLE IF NOT EXISTS meta ("@),
        holds(schema_of(Database::Data), "CREATE TABLE IF NOT EXISTS questionnaires ("@),
        holds(schema_of(Database::Data), "CREATE TABLE IF NOT EXISTS sessions ("@),
        holds(schema_of(Database::Data), "REFERENCES questionnaires(questionnaire_uuid)"@),
        holds(schema_of(Database::Data), "CREATE TABLE IF NOT EXISTS responses ("@),
        holds(schema_of(Database::Data), "CHECK(rotation IN (0, 90, 180, 270))"@),
        holds(schema_of(Database::Data), "CHECK(manual_override IN (0, 1))"@),
        holds(schema_of(Database::Data), "PRIMARY KEY(session_uuid, student_uuid)"@),
        holds(schema_of(Database::Data), "REFERENCES sessions(session_uuid) ON DELETE CASCADE"@),
        holds(schema_of(Database::Data), "CREATE INDEX IF NOT EXISTS idx_responses_student"@),
        holds(schema_of(Database::Data), "CREATE INDEX IF NOT EXISTS idx_sessions_class"@),
        holds(schema_of(Database::Data), "COMMIT;"@),
{
    reveal_strlit(
        "BEGIN;
             CREATE TABLE IF NOT EXISTS meta (
               key TEXT PRIMARY KEY,
               value TEXT NOT NULL
             );
             INSERT OR IGNORE INTO meta(key, value) VALUES ('schema_version', '1');

             CREATE TABLE IF NOT EXISTS questionnaires (
               questionnaire_uuid TEXT PRIMARY KEY,
               code TEXT,
               title TEXT NOT NULL,
               test_type TEXT NOT NULL,
               legend_json TEXT NOT NULL,
               created_at TEXT NOT NULL DEFAULT CURRENT_TIMESTAMP,
               updated_at TEXT NOT NULL DEFAULT CURRENT_TIMESTAMP
             );

             CREATE TABLE IF NOT EXISTS sessions (
               session_uuid TEXT PRIMARY KEY,
               questionnaire_uuid TEXT NOT NULL,
               class_uuid TEXT NOT NULL,
               questionnaire_snapshot_json TEXT NOT NULL,
               started_at TEXT NOT NULL DEFAULT CURRENT_TIMESTAMP,
               completed_at TEXT,
               FOREIGN KEY(questionnaire_uuid)
                 REFERENCES questionnaires(questionnaire_uuid)
             );

             CREATE TABLE IF NOT EXISTS responses (
               session_uuid TEXT NOT NULL,
               student_uuid TEXT NOT NULL,
               rotation INTEGER NOT NULL CHECK(rotation IN (0, 90, 180, 270)),
               observation TEXT,
               source TEXT NOT NULL DEFAULT 'marker',
               manual_override INTEGER NOT NULL DEFAULT 0
                 CHECK(manual_override IN (0, 1)),
               updated_at TEXT NOT NULL DEFAULT CURRENT_TIMESTAMP,
               PRIMARY KEY(session_uuid, student_uuid),
               FOREIGN KEY(session_uuid)
                 REFERENCES sessions(session_uuid) ON DELETE CASCADE
             );

             CREATE INDEX IF NOT EXISTS idx_responses_student
               ON responses(student_uuid);
             CREATE INDEX IF NOT EXISTS idx_sessions_class
               ON sessions(class_uuid, started_at);
             COMMIT;",
    );
    reveal_strlit("BEGIN;");
    lemma_holds(DATA_SCHEMA@, 0, "BEGIN;"@);
    reveal_strlit("CREATE TABLE IF NOT EXISTS meta (");
    lemma_holds(DATA_SCHEMA@, 20, "CREATE TABLE IF NOT EXISTS meta ("@);
    reveal_strlit("CREATE TABLE IF NOT EXISTS questionnaires (");
    lemma_holds(DATA_SCHEMA@, 240, "CREATE TABLE IF NOT EXISTS questionnaires ("@);
    reveal_strlit("CREATE TABLE IF NOT EXISTS sessions (");
    lemma_holds(DATA_SCHEMA@, 643, "CREATE TABLE IF NOT EXISTS sessions ("@);
    reveal_strlit("REFERENCES questionnaires(questionnaire_uuid)");
    lemma_holds(DATA_SCHEMA@, 1040, "REFERENCES questionnaires(questionnaire_uuid)"@);
    reveal_strlit("CREATE TABLE IF NOT EXISTS responses (");
    lemma_holds(DATA_SCHEMA@, 1116, "CREATE TABLE IF NOT EXISTS responses ("@);
    reveal_strlit("CHECK(rotation IN (0, 90, 180, 270))");
    lemma_holds(DATA_SCHEMA@, 1282, "CHECK(rotation IN (0, 90, 180, 270))"@);
    reveal_strlit("CHECK(manual_override IN (0, 1))");
    lemma_holds(DATA_SCHEMA@, 1482, "CHECK(manual_override IN (0, 1))"@);
    reveal_strlit("PRIMARY KEY(session_uuid, student_uuid)");
    lemma_holds(DATA_SCHEMA@, 1598, "PRIMARY KEY(session_uuid, student_uuid)"@);
    reveal_strlit("REFERENCES sessions(session_uuid) ON DELETE CASCADE");
    lemma_holds(DATA_SCHEMA@, 1697, "REFERENCES sessions(session_uuid) ON DELETE CASCADE"@);
    reveal_strlit("CREATE INDEX IF NOT EXISTS idx_responses_student");
    lemma_holds(DATA_SCHEMA@, 1779, "CREATE INDEX IF NOT EXISTS idx_responses_student"@);
    reveal_strlit("CREATE INDEX IF NOT EXISTS idx_sessions_class");
    lemma_holds(DATA_SCHEMA@, 1884, "CREATE INDEX IF NOT EXISTS idx_sessions_class"@);
    reveal_strlit("COMMIT;");
    lemma_holds(DATA_SCHEMA@, 1995, "COMMIT;"@);
}

/// The statements that are run on the identities database make its three tables and its index, and
/// put these constraints on the tables.
pub proof fn lemma_identity_tables()
    ensures
        holds(schema_of(Database::Identities), "BEGIN;"@),
        holds(schema_of(Database::Identities), "CREATE TABLE IF NOT EXISTS meta ("@),
        holds(schema_of(Database::Identities), "CREATE TABLE IF NOT EXISTS classes ("@),
        holds(schema_of(Database::Identities), "CREATE TABLE IF NOT EXISTS students ("@),
        holds(schema_of(Database::Identities), "CHECK(roster_number > 0)"@),
        holds(schema_of(Database::Identities), "CHECK(active IN (0, 1))"@),
        holds(schema_of(Database::Identities), "REFERENCES classes(class_uuid) ON DELETE CASCADE"@),
        holds(schema_of(Database::Identities), "UNIQUE(class_uuid, roster_number)"@),
        holds(schema_of(Database::Identities), "CREATE INDEX IF NOT EXISTS idx_students_class"@),
        holds(schema_of(Database::Identities), "COMMIT;"@),
{
    reveal_strlit(
        "BEGIN;
             CREATE TABLE IF NOT EXISTS meta (
               key TEXT PRIMARY KEY,
               value TEXT NOT NULL
             );
             INSERT OR IGNORE INTO meta(key, value) VALUES ('schema_version', '1');

             CREATE TABLE IF NOT EXISTS classes (
               class_uuid TEXT PRIMARY KEY,
               label TEXT NOT NULL,
               school_year TEXT,
               created_at TEXT NOT NULL DEFAULT CURRENT_TIMESTAMP
             );

             CREATE TABLE IF NOT EXISTS students (
               student_uuid TEXT PRIMARY KEY,
               class_uuid TEXT NOT NULL,
               roster_number INTEGER NOT NULL CHECK(roster_number > 0),
               display_name TEXT NOT NULL,
               active INTEGER NOT NULL DEFAULT 1 CHECK(active IN (0, 1)),
               created_at TEXT NOT NULL DEFAULT CURRENT_TIMESTAMP,
               FOREIGN KEY(class_uuid)
                 REFERENCES classes(class_uuid) ON DELETE CASCADE,
               UNIQUE(class_uuid, roster_number)
             );

             CREATE INDEX IF NOT EXISTS idx_students_class
               ON students(class_uuid, roster_number);
             COMMIT;",
    );
    reveal_strlit("BEGIN;");
    lemma_holds(IDENTITY_SCHEMA@, 0, "BEGIN;"@);
    reveal_strlit("CREATE TABLE IF NOT EXISTS meta (");
    lemma_holds(IDENTITY_SCHEMA@, 20, "CREATE TABLE IF NOT EXISTS meta ("@);
    reveal_strlit("CREATE TABLE IF NOT EXISTS classes (");
    lemma_holds(IDENTITY_SCHEMA@, 240, "CREATE TABLE IF NOT EXISTS classes ("@);
    reveal_strlit("CREATE TABLE IF NOT EXISTS students (");
    lemma_holds(IDENTITY_SCHEMA@, 486, "CREATE TABLE IF NOT EXISTS students ("@);
    reveal_strlit("CHECK(roster_number > 0)");
    lemma_holds(IDENTITY_SCHEMA@, 657, "CHECK(roster_number > 0)"@);
    reveal_strlit("CHECK(active IN (0, 1))");
    lemma_holds(IDENTITY_SCHEMA@, 775, "CHECK(active IN (0, 1))"@);
    reveal_strlit("REFERENCES classes(class_uuid) ON DELETE CASCADE");
    lemma_holds(IDENTITY_SCHEMA@, 923, "REFERENCES classes(class_uuid) ON DELETE CASCADE"@);
    reveal_strlit("UNIQUE(class_uuid, roster_number)");
    lemma_holds(IDENTITY_SCHEMA@, 988, "UNIQUE(class_uuid, roster_number)"@);
    reveal_strlit("CREATE INDEX IF NOT EXISTS idx_students_class");
    lemma_holds(IDENTITY_SCHEMA@, 1052, "CREATE INDEX IF NOT EXISTS idx_students_class"@);
    reveal_strlit("COMMIT;");
    lemma_holds(IDENTITY_SCHEMA@, 1166, "COMMIT;"@);
}

/// Every connection is set up with these five settings.
pub proof fn lemma_configuration()
    ensures
        holds(CONFIGURATION@, "PRAGMA cipher_memory_security = ON;"@),
        holds(CONFIGURATION@, "PRAGMA foreign_keys = ON;"@),
        holds(CONFIGURATION@, "PRAGMA secure_delete = ON;"@),
        holds(CONFIGURATION@, "PRAGMA temp_store = MEMORY;"@),
        holds(CONFIGURATION@, "PRAGMA synchronous = FULL;"@),
{
    reveal_strlit(
        "PRAGMA cipher_memory_security = ON;
             PRAGMA foreign_keys = ON;
             PRAGMA secure_delete = ON;
             PRAGMA temp_store = MEMORY;
             PRAGMA synchronous = FULL;",
    );
    reveal_strlit("PRAGMA cipher_memory_security = ON;");
    lemma_holds(CONFIGURATION@, 0, "PRAGMA cipher_memory_security = ON;"@);
    reveal_strlit("PRAGMA foreign_keys = ON;");
    lemma_holds(CONFIGURATION@, 49, "PRAGMA foreign_keys = ON;"@);
    reveal_strlit("PRAGMA secure_delete = ON;");
    lemma_holds(CONFIGURATION@, 88, "PRAGMA secure_delete = ON;"@);
    reveal_strlit("PRAGMA temp_store = MEMORY;");
    lemma_holds(CONFIGURATION@, 128, "PRAGMA temp_store = MEMORY;"@);
    reveal_strlit("PRAGMA synchronous = FULL;");
    lemma_holds(CONFIGURATION@, 169, "PRAGMA synchronous = FULL;"@);
}

/// The hexadecimal digit of a number below sixteen.
pub open spec fn hex_digit(n: int) -> char {
    if n < 10 {
        (48 + n) as char
    } else {
        (55 + n) as char
    }
}

/// Two upper case hexadecimal digits for each byte.
pub open spec fn hex_digits(bytes: Seq<u8>) -> Seq<char> {
    Seq::new(
        2 * bytes.len(),
        |i: int|
            if i % 2 == 0 {
                hex_digit(bytes[i / 2] as int / 16)
            } else {
                hex_digit(bytes[i / 2] as int % 16)
            },
    )
}

/// The statement that hands a raw key to SQLCipher.
pub open spec fn raw_key_statement(key: Seq<u8>) -> Seq<char> {
    RAW_KEY_START@ + hex_digits(key) + RAW_KEY_END@
}

/// The number that a hexadecimal digit is read as, or sixteen if it is none.
pub open spec fn hex_value(c: char) -> int {
    if '0' <= c <= '9' {
        c as int - '0' as int
    } else if 'A' <= c <= 'F' {
        c as int - 'A' as int + 10
    } else {
        16
    }
}

/// The sixteen digits are read as the numbers from zero to fifteen, in their order, and no other
/// character is a digit.
pub proof fn lemma_hex_value(c: char)
    ensures
        0 <= hex_value(c) <= 16,
        hex_value(c) < 16 ==> "0123456789ABCDEF"@[hex_value(c)] == c,
        hex_value(c) < 16 <==> "0123456789ABCDEF"@.contains(c),
{
    reveal_strlit("0123456789ABCDEF");
    let digits = "0123456789ABCDEF"@;
    if hex_value(c) < 16 {
        assert(digits[hex_value(c)] == c);
    }
    if digits.contains(c) {
        let i = choose|i: int| 0 <= i < digits.len() && digits[i] == c;
        assert(0 <= i < 16);
    }
}

/// The statement that hands a key over names the key: between its fixed start and end stand two
/// hexadecimal digits for each byte, and read two by two they are the bytes of the key, in their
/// order.
pub proof fn lemma_raw_key_is_read_back(key: Seq<u8>)
    ensures
        raw_key_statement(key).len() == 16 + 2 * key.len() + 3,
        raw_key_statement(key).take(16) == "PRAGMA key = \"x'"@,
        raw_key_statement(key).skip(16 + 2 * key.len() as int) == "'\";"@,
        forall|i: int|
            0 <= i < key.len() ==> {
                &&& hex_value(#[trigger] raw_key_statement(key)[16 + 2 * i]) < 16
                &&& hex_value(raw_key_statement(key)[16 + 2 * i + 1]) < 16
                &&& hex_value(raw_key_statement(key)[16 + 2 * i]) * 16 + hex_value(
                    raw_key_statement(key)[16 + 2 * i + 1],
                ) == #[trigger] key[i]
            },
{
    reveal_strlit("PRAGMA key = \"x'");
    reveal_strlit("'\";");
    let s = raw_key_statement(key);
    assert(RAW_KEY_START@.len() == 16);
    assert(s.take(16) =~= RAW_KEY_START@);
    assert(s.skip(16 + 2 * key.len() as int) =~= RAW_KEY_END@);
    assert forall|i: int| 0 <= i < key.len() implies {
        &&& hex_value(#[trigger] s[16 + 2 * i]) < 16
        &&& hex_value(s[16 + 2 * i + 1]) < 16
        &&& hex_value(s[16 + 2 * i]) * 16 + hex_value(s[16 + 2 * i + 1]) == #[trigger] key[i]
    } by {
        assert((2 * i) / 2 == i && (2 * i + 1) / 2 == i);
        assert(s[16 + 2 * i] == hex_digits(key)[2 * i]);
        assert(s[16 + 2 * i + 1] == hex_digits(key)[2 * i + 1]);
    }
}

/// Different keys have different statements.
pub proof fn lemma_raw_key_statement_injective(a: Seq<u8>, b: Seq<u8>)
    requires
        raw_key_statement(a) == raw_key_statement(b),
    ensures
        a == b,
{
    let start = RAW_KEY_START@.len() as int;
    assert(raw_key_statement(a).len() == start + 2 * a.len() + RAW_KEY_END@.len());
    assert(raw_key_statement(b).len() == start + 2 * b.len() + RAW_KEY_END@.len());
    assert forall|i: int| 0 <= i < a.len() implies a[i] == b[i] by {
        assert(raw_key_statement(a)[start + 2 * i] == hex_digits(a)[2 * i]);
        assert(raw_key_statement(b)[start + 2 * i] == hex_digits(b)[2 * i]);
        assert(raw_key_statement(a)[start + (2 * i + 1)] == hex_digits(a)[2 * i + 1]);
        assert(raw_key_statement(b)[start + (2 * i + 1)] == hex_digits(b)[2 * i + 1]);
        assert((2 * i) / 2 == i && (2 * i + 1) / 2 == i);
    }
    assert(a =~= b);
}

/// The hexadecimal digit of a number below sixteen.
fn digit(n: u8) -> (r: char)
    requires
        n < 16,
    ensures
        r == hex_digit(n as int),
{
    if n < 10 {
        (48 + n) as char
    } else {
        (55 + n) as char
    }
}

/// The statement that hands a raw key to SQLCipher.
pub fn raw_key_pragma(key: &[u8; KEY_LEN]) -> (r: SecretText)
    ensures
        r@ == raw_key_statement(key@),
{
    let mut statement = SecretText::with_capacity(2 * KEY_LEN + 19);
    statement.push_str(RAW_KEY_START);
    let mut i: usize = 0;
    while i < KEY_LEN
        invariant
            i <= KEY_LEN,
            key@.len() == KEY_LEN,
            statement@ == RAW_KEY_START@ + hex_digits(key@.take(i as int)),
        decreases KEY_LEN - i,
    {
        let byte = key[i];
        statement.push(digit(byte / 16));
        statement.push(digit(byte % 16));
        proof {
            let before = hex_digits(key@.take(i as int));
            let after = hex_digits(key@.take(i + 1));
            assert(after =~= before.push(hex_digit(byte as int / 16)).push(
                hex_digit(byte as int % 16),
            ));
        }
        i += 1;
    }
    assert(key@.take(KEY_LEN as int) =~= key@);
    statement.push_str(RAW_KEY_END);
    statement
}

/// A step of opening an encrypted database.
#[derive(Debug, Clone, Copy, PartialEq, Eq, Structural)]
pub enum DatabaseStep {
    /// Open the file.
    Connect,
    /// Hand the key over.
    SetKey,
    /// Set the connection up.
    Configure,
    /// Read something, which fails under a wrong key.
    Probe,
}

/// The steps of opening an encrypted database, in their order.
pub open spec fn database_plan() -> Seq<DatabaseStep> {
    seq![
        DatabaseStep::Connect,
        DatabaseStep::SetKey,
        DatabaseStep::Configure,
        DatabaseStep::Probe,
    ]
}

/// What is said of a step that failed.
pub open spec fn database_failure(step: DatabaseStep, reason: Seq<char>) -> Seq<char> {
    match step {
        DatabaseStep::Connect => UNOPENED_DATABASE@ + reason,
        DatabaseStep::SetKey => UNSET_KEY@ + reason,
        DatabaseStep::Configure => UNCONFIGURED_DATABASE@ + reason,
        DatabaseStep::Probe => UNREADABLE_DATABASE@,
    }
}

/// What follows a step of opening an encrypted database.
pub open spec fn database_next(step: DatabaseStep, outcome: Outcome) -> NextView<DatabaseStep> {
    match outcome {
        Err(reason) => NextView::Failed(database_failure(step, reason)),
        Ok(()) => match step {
            DatabaseStep::Connect => NextView::Run(DatabaseStep::SetKey),
            DatabaseStep::SetKey => NextView::Run(DatabaseStep::Configure),
            DatabaseStep::Configure => NextView::Run(DatabaseStep::Probe),
            DatabaseStep::Probe => NextView::Finished,
        },
    }
}

/// What follows a step of opening an encrypted database. The first step is `Connect`.
pub fn open_cipher_database(step: DatabaseStep, outcome: Result<(), String>) -> (r: Next<
    DatabaseStep,
>)
    ensures
        r@ == database_next(step, result_view(outcome)),
        match outcome {
            Err(reason) => r matches Next::Failed(text) && text@ == match step {
                DatabaseStep::Connect => UNOPENED_DATABASE@ + reason@,
                DatabaseStep::SetKey => UNSET_KEY@ + reason@,
                DatabaseStep::Configure => UNCONFIGURED_DATABASE@ + reason@,
                DatabaseStep::Probe => UNREADABLE_DATABASE@,
            },
            Ok(()) => {
                &&& r is Finished <==> step is Probe
                &&& r is Run <==> !(step is Probe)
            },
        },
{
    match outcome {
        Err(reason) => match step {
            DatabaseStep::Connect => Next::Failed(joined(UNOPENED_DATABASE, reason.as_str())),
            DatabaseStep::SetKey => Next::Failed(joined(UNSET_KEY, reason.as_str())),
            DatabaseStep::Configure => Next::Failed(
                joined(UNCONFIGURED_DATABASE, reason.as_str()),
            ),
            DatabaseStep::Probe => Next::Failed(UNREADABLE_DATABASE.to_owned()),
        },
        Ok(()) => match step {
            DatabaseStep::Connect => Next::Run(DatabaseStep::SetKey),
            DatabaseStep::SetKey => Next::Run(DatabaseStep::Configure),
            DatabaseStep::Configure => Next::Run(DatabaseStep::Probe),
            DatabaseStep::Probe => Next::Finished,
        },
    }
}

/// What a step hands to the connection, if anything.
pub fn database_statement(step: DatabaseStep, key: &[u8; KEY_LEN]) -> (r: Option<SecretText>)
    ensures
        match step {
            DatabaseStep::Connect => r is None,
            DatabaseStep::SetKey => r matches Some(s) && s@ == raw_key_statement(key@),
            DatabaseStep::Configure => r matches Some(s) && s@ == CONFIGURATION@,
            DatabaseStep::Probe => r matches Some(s) && s@ == READABILITY_QUERY@,
        },
{
    match step {
        DatabaseStep::Connect => None,
        DatabaseStep::SetKey => Some(raw_key_pragma(key)),
        DatabaseStep::Configure => Some(SecretText::from_text(CONFIGURATION)),
        DatabaseStep::Probe => Some(SecretText::from_text(READABILITY_QUERY)),
    }
}

/// A database counts as open just when it was opened, took its key, was set up and could be read,
/// in this order. Otherwise the first step that failed is the last one, and says why.
pub proof fn lemma_open_cipher_database(outcomes: Seq<Outcome>)
    ensures
        ({
            let end = run(
                |step, outcome| database_next(step, outcome),
                DatabaseStep::Connect,
                outcomes,
            );
            &&& end is Finished <==> good(outcomes, 4)
            &&& planned(
                database_plan(),
                |step, reason| database_failure(step, reason),
                outcomes,
                end,
            )
            &&& planned(
                seq![
                    DatabaseStep::Connect,
                    DatabaseStep::SetKey,
                    DatabaseStep::Configure,
                    DatabaseStep::Probe,
                ],
                |step, reason|
                    match step {
                        DatabaseStep::Connect => UNOPENED_DATABASE@ + reason,
                        DatabaseStep::SetKey => UNSET_KEY@ + reason,
                        DatabaseStep::Configure => UNCONFIGURED_DATABASE@ + reason,
                        DatabaseStep::Probe => UNREADABLE_DATABASE@,
                    },
                outcomes,
                end,
            )
        }),
{
    lemma_run(
        |step, outcome| database_next(step, outcome),
        database_plan(),
        |step, reason| database_failure(step, reason),
        outcomes,
    );
    lemma_run(
        |step, outcome| database_next(step, outcome),
        seq![
            DatabaseStep::Connect,
            DatabaseStep::SetKey,
            DatabaseStep::Configure,
            DatabaseStep::Probe,
        ],
        |step, reason|
            match step {
                DatabaseStep::Connect => UNOPENED_DATABASE@ + reason,
                DatabaseStep::SetKey => UNSET_KEY@ + reason,
                DatabaseStep::Configure => UNCONFIGURED_DATABASE@ + reason,
                DatabaseStep::Probe => UNREADABLE_DATABASE@,
            },
        outcomes,
    );
}

/// What became of the tables of the data database, given how running [`DATA_SCHEMA`] went.
pub fn create_data_schema(outcome: Result<(), String>) -> (r: Result<(), String>)
    ensures
        result_view(r) == match outcome {
            Ok(()) => Ok(()),
            Err(reason) => Err(NO_DATA_SCHEMA@ + reason@),
        },
{
    match outcome {
        Ok(()) => Ok(()),
        Err(reason) => Err(joined(NO_DATA_SCHEMA, reason.as_str())),
    }
}

/// What became of the tables of the identities database, given how running [`IDENTITY_SCHEMA`]
/// went.
pub fn create_identity_schema(outcome: Result<(), String>) -> (r: Result<(), String>)
    ensures
        result_view(r) == match outcome {
            Ok(()) => Ok(()),
            Err(reason) => Err(NO_IDENTITY_SCHEMA@ + reason@),
        },
{
    match outcome {
        Ok(()) => Ok(()),
        Err(reason) => Err(joined(NO_IDENTITY_SCHEMA, reason.as_str())),
    }
}

}
