//! The files of an archive: their names, which of them are there, and how the envelope is written.

use vstd::prelude::*;

use crate::messages::{
    INCOMPLETE_STORE, INVALID_PATH, UNFINISHED_ENVELOPE, UNLOCATED_DIR, UNREAD_PERMISSIONS,
    UNSAVED_ENVELOPE, UNSERIALIZED_ENVELOPE, UNSET_PERMISSIONS,
};
use crate::steps::{good, lemma_run, planned, run, Next, NextView, Outcome};
use crate::text::{joined, result_view};

verus! {

/// The directory of the archive, inside the data directory of the application.
pub const STORAGE_DIR_NAME: &'static str = "data";

/// The name of the data database.
pub const DATA_DB_NAME: &'static str = "feed.db";

/// The name of the identities database.
pub const IDENTITIES_DB_NAME: &'static str = "identities.db";

/// The name of the key envelope.
pub const KEY_ENVELOPE_NAME: &'static str = "keys.json";

/// The name of the key envelope while it is being written.
pub const KEY_ENVELOPE_TEMP_NAME: &'static str = "keys.json.tmp";

/// The mode of a file that only its owner reads and writes.
pub const OWNER_ONLY_MODE: u32 = 0o600;

/// A file in the directory of the archive.
#[derive(Debug, Clone, Copy, PartialEq, Eq, Structural)]
pub enum StoreFile {
    /// The data database.
    Data,
    /// The identities database.
    Identities,
    /// The key envelope.
    Keys,
    /// The key envelope while it is being written.
    KeysTemp,
}

/// Which of the three files of an archive are there.
#[derive(Debug, Clone, Copy, PartialEq, Eq, Structural)]
pub struct FilesPresent {
    pub data: bool,
    pub identities: bool,
    pub keys: bool,
}

impl FilesPresent {
    /// None of the files is there.
    pub open spec fn none(self) -> bool {
        !self.data && !self.identities && !self.keys
    }

    /// All of the files are there.
    pub open spec fn all(self) -> bool {
        self.data && self.identities && self.keys
    }
}

/// The name of a file.
pub open spec fn name_of(file: StoreFile) -> Seq<char> {
    match file {
        StoreFile::Data => DATA_DB_NAME@,
        StoreFile::Identities => IDENTITIES_DB_NAME@,
        StoreFile::Keys => KEY_ENVELOPE_NAME@,
        StoreFile::KeysTemp => KEY_ENVELOPE_TEMP_NAME@,
    }
}

/// The name of a file.
pub fn file_name(file: StoreFile) -> (r: &'static str)
    ensures
        r@ == name_of(file),
        file is Data ==> r@ == "feed.db"@,
        file is Identities ==> r@ == "identities.db"@,
        file is Keys ==> r@ == "keys.json"@,
        file is KeysTemp ==> r@ == "keys.json.tmp"@,
{
    match file {
        StoreFile::Data => DATA_DB_NAME,
        StoreFile::Identities => IDENTITIES_DB_NAME,
        StoreFile::Keys => KEY_ENVELOPE_NAME,
        StoreFile::KeysTemp => KEY_ENVELOPE_TEMP_NAME,
    }
}

/// Different files have different names: the two databases are apart, and writing the envelope
/// touches no other file.
pub proof fn lemma_file_names_distinct(a: StoreFile, b: StoreFile)
    requires
        name_of(a) == name_of(b),
    ensures
        a == b,
{
    reveal_strlit("feed.db");
    reveal_strlit("identities.db");
    reveal_strlit("keys.json");
    reveal_strlit("keys.json.tmp");
    assert(DATA_DB_NAME@[0] == 'f' && IDENTITIES_DB_NAME@[0] == 'i' && KEY_ENVELOPE_NAME@[0] == 'k'
        && KEY_ENVELOPE_TEMP_NAME@[0] == 'k');
    assert(KEY_ENVELOPE_NAME@.len() != KEY_ENVELOPE_TEMP_NAME@.len());
}

/// What is known of an archive, given which of its files are there, or why nobody could look.
pub open spec fn existence(found: Result<FilesPresent, Seq<char>>) -> Result<bool, Seq<char>> {
    match found {
        Err(reason) => Err(UNLOCATED_DIR@ + reason),
        Ok(files) => if files.none() {
            Ok(false)
        } else if files.all() {
            Ok(true)
        } else {
            Err(INCOMPLETE_STORE@)
        },
    }
}

/// Whether there is an archive, given which of its files are there, or why the directory could
/// not be determined. Some files without the others are an error.
pub fn store_exists(found: Result<FilesPresent, String>) -> (r: Result<bool, String>)
    ensures
        result_view(r) == existence(
            match found {
                Ok(files) => Ok(files),
                Err(reason) => Err(reason@),
            },
        ),
        match (found, r) {
            (Err(reason), Err(text)) => text@ == UNLOCATED_DIR@ + reason@,
            (Err(_), Ok(_)) => false,
            (Ok(files), Ok(true)) => files.data && files.identities && files.keys,
            (Ok(files), Ok(false)) => !files.data && !files.identities && !files.keys,
            (Ok(files), Err(text)) => {
                &&& text@
                    == "Archivio FEED incompleto: alcuni file risultano mancanti. Non crearne uno nuovo sopra questi dati."@
                &&& files.data || files.identities || files.keys
                &&& !files.data || !files.identities || !files.keys
            },
        },
{
    let files = match found {
        Ok(files) => files,
        Err(reason) => return Err(joined(UNLOCATED_DIR, reason.as_str())),
    };
    let mut count: u8 = 0;
    if files.data {
        count = count + 1;
    }
    if files.identities {
        count = count + 1;
    }
    if files.keys {
        count = count + 1;
    }
    match count {
        0 => Ok(false),
        3 => Ok(true),
        _ => Err(INCOMPLETE_STORE.to_owned()),
    }
}

/// There is an archive just when its three files are there, and none just when none of them is.
/// Anything between is told as an incomplete archive, and so is why nobody could look.
pub proof fn lemma_existence(files: FilesPresent, reason: Seq<char>)
    ensures
        existence(Ok(files)) == Ok::<bool, Seq<char>>(true) <==> {
            files.data && files.identities && files.keys
        },
        existence(Ok(files)) == Ok::<bool, Seq<char>>(false) <==> {
            !files.data && !files.identities && !files.keys
        },
        existence(Ok(files)) is Err ==> existence(Ok(files)) == Err::<bool, Seq<char>>(
            INCOMPLETE_STORE@,
        ),
        existence(Err(reason)) == Err::<bool, Seq<char>>(UNLOCATED_DIR@ + reason),
{
}

/// The files to remove when an archive could not be made. The envelope that was being written is
/// among them if it has a directory to be in.
pub open spec fn leftovers(has_parent: bool) -> Seq<StoreFile> {
    let files = seq![StoreFile::Data, StoreFile::Identities, StoreFile::Keys];
    if has_parent {
        files.push(StoreFile::KeysTemp)
    } else {
        files
    }
}

/// The files to remove when an archive could not be made, in their order.
pub fn cleanup_store_files(has_parent: bool) -> (r: Vec<StoreFile>)
    ensures
        r@ == leftovers(has_parent),
        forall|file: StoreFile| #[trigger]
            r@.contains(file) <==> has_parent || file != StoreFile::KeysTemp,
        r@.no_duplicates(),
{
    let mut files = Vec::new();
    files.push(StoreFile::Data);
    files.push(StoreFile::Identities);
    files.push(StoreFile::Keys);
    if has_parent {
        files.push(StoreFile::KeysTemp);
    }
    proof {
        lemma_leftovers(has_parent);
    }
    files
}

/// What is removed is every file that an archive may have left, each once: the two databases, the
/// envelope, and the envelope that was being written if it has a directory to be in.
pub proof fn lemma_leftovers(has_parent: bool)
    ensures
        forall|file: StoreFile| #[trigger]
            leftovers(has_parent).contains(file) <==> has_parent || file != StoreFile::KeysTemp,
        leftovers(has_parent).no_duplicates(),
{
    let files = leftovers(has_parent);
    assert(files[0] == StoreFile::Data && files[1] == StoreFile::Identities && files[2]
        == StoreFile::Keys);
    if has_parent {
        assert(files[3] == StoreFile::KeysTemp);
    }
}

/// A step of restricting a file to its owner.
#[derive(Debug, Clone, Copy, PartialEq, Eq, Structural)]
pub enum PermissionStep {
    /// Read the permissions of the file.
    Read,
    /// Give it the mode [`OWNER_ONLY_MODE`].
    SetMode,
}

/// What follows in restricting a file to its owner. `done` is the step that was run, if any, and
/// how it went. Where files have no mode there is nothing to do.
pub open spec fn permission_next(unix: bool, done: Option<(PermissionStep, Outcome)>) -> NextView<
    PermissionStep,
> {
    if !unix {
        NextView::Finished
    } else {
        match done {
            None => NextView::Run(PermissionStep::Read),
            Some((PermissionStep::Read, Ok(()))) => NextView::Run(PermissionStep::SetMode),
            Some((PermissionStep::Read, Err(reason))) => NextView::Failed(
                UNREAD_PERMISSIONS@ + reason,
            ),
            Some((PermissionStep::SetMode, Ok(()))) => NextView::Finished,
            Some((PermissionStep::SetMode, Err(reason))) => NextView::Failed(
                UNSET_PERMISSIONS@ + reason,
            ),
        }
    }
}

/// What follows in restricting a file to its owner. `done` is the step that was run, if any, and
/// how it went.
pub fn restrict_file_permissions(
    unix: bool,
    done: Option<(PermissionStep, Result<(), String>)>,
) -> (r: Next<PermissionStep>)
    ensures
        r@ == permission_next(
            unix,
            match done {
                Some((step, outcome)) => Some((step, result_view(outcome))),
                None => None,
            },
        ),
{
    if !unix {
        return Next::Finished;
    }
    match done {
        None => Next::Run(PermissionStep::Read),
        Some((PermissionStep::Read, Ok(()))) => Next::Run(PermissionStep::SetMode),
        Some((PermissionStep::Read, Err(reason))) => Next::Failed(
            joined(UNREAD_PERMISSIONS, reason.as_str()),
        ),
        Some((PermissionStep::SetMode, Ok(()))) => Next::Finished,
        Some((PermissionStep::SetMode, Err(reason))) => Next::Failed(
            joined(UNSET_PERMISSIONS, reason.as_str()),
        ),
    }
}

/// Where files have modes, a file counts as restricted just when its permissions were read and
/// then set; otherwise the first step that failed is the last one, and says why. Where they have
/// none there is nothing to do.
pub proof fn lemma_restrict_file_permissions(outcomes: Seq<Outcome>)
    ensures
        forall|done: Option<(PermissionStep, Outcome)>| #[trigger]
            permission_next(false, done) is Finished,
        planned(
            seq![PermissionStep::Read, PermissionStep::SetMode],
            |step, reason|
                match step {
                    PermissionStep::Read => UNREAD_PERMISSIONS@ + reason,
                    PermissionStep::SetMode => UNSET_PERMISSIONS@ + reason,
                },
            outcomes,
            run(
                |step, outcome| permission_next(true, Some((step, outcome))),
                PermissionStep::Read,
                outcomes,
            ),
        ),
        permission_next(true, None) == NextView::Run(PermissionStep::Read),
        run(
            |step, outcome| permission_next(true, Some((step, outcome))),
            PermissionStep::Read,
            outcomes,
        ) is Finished <==> good(outcomes, 2),
{
    lemma_run(
        |step, outcome| permission_next(true, Some((step, outcome))),
        seq![PermissionStep::Read, PermissionStep::SetMode],
        |step, reason|
            match step {
                PermissionStep::Read => UNREAD_PERMISSIONS@ + reason,
                PermissionStep::SetMode => UNSET_PERMISSIONS@ + reason,
            },
        outcomes,
    );
}

/// A step of writing the key envelope.
#[derive(Debug, Clone, Copy, PartialEq, Eq, Structural)]
pub enum EnvelopeStep {
    /// Find the directory that the envelope goes to.
    Locate,
    /// Turn the envelope into bytes.
    Serialize,
    /// Write the bytes to [`StoreFile::KeysTemp`].
    WriteTemp,
    /// Restrict that file to its owner.
    RestrictTemp,
    /// Give that file the name of [`StoreFile::Keys`].
    Rename,
}

/// The steps of writing the key envelope, in their order.
pub open spec fn envelope_plan() -> Seq<EnvelopeStep> {
    seq![
        EnvelopeStep::Locate,
        EnvelopeStep::Serialize,
        EnvelopeStep::WriteTemp,
        EnvelopeStep::RestrictTemp,
        EnvelopeStep::Rename,
    ]
}

/// What is said of a step that failed.
pub open spec fn envelope_failure(step: EnvelopeStep, reason: Seq<char>) -> Seq<char> {
    match step {
        EnvelopeStep::Locate => INVALID_PATH@,
        EnvelopeStep::Serialize => UNSERIALIZED_ENVELOPE@ + reason,
        EnvelopeStep::WriteTemp => UNSAVED_ENVELOPE@ + reason,
        EnvelopeStep::RestrictTemp => reason,
        EnvelopeStep::Rename => UNFINISHED_ENVELOPE@ + reason,
    }
}

/// What follows a step of writing the key envelope.
pub open spec fn envelope_next(step: EnvelopeStep, outcome: Outcome) -> NextView<EnvelopeStep> {
    match outcome {
        Err(reason) => NextView::Failed(envelope_failure(step, reason)),
        Ok(()) => match step {
            EnvelopeStep::Locate => NextView::Run(EnvelopeStep::Serialize),
            EnvelopeStep::Serialize => NextView::Run(EnvelopeStep::WriteTemp),
            EnvelopeStep::WriteTemp => NextView::Run(EnvelopeStep::RestrictTemp),
            EnvelopeStep::RestrictTemp => NextView::Run(EnvelopeStep::Rename),
            EnvelopeStep::Rename => NextView::Finished,
        },
    }
}

/// What follows a step of writing the key envelope. The first step is `Locate`.
pub fn write_key_envelope(step: EnvelopeStep, outcome: Result<(), String>) -> (r: Next<
    EnvelopeStep,
>)
    ensures
        r@ == envelope_next(step, result_view(outcome)),
        match outcome {
            Err(reason) => r matches Next::Failed(text) && text@ == match step {
                EnvelopeStep::Locate => INVALID_PATH@,
                EnvelopeStep::Serialize => UNSERIALIZED_ENVELOPE@ + reason@,
                EnvelopeStep::WriteTemp => UNSAVED_ENVELOPE@ + reason@,
                EnvelopeStep::RestrictTemp => reason@,
                EnvelopeStep::Rename => UNFINISHED_ENVELOPE@ + reason@,
            },
            Ok(()) => {
                &&& r is Finished <==> step is Rename
                &&& r is Run <==> !(step is Rename)
            },
        },
{
    match outcome {
        Err(reason) => match step {
            EnvelopeStep::Locate => Next::Failed(INVALID_PATH.to_owned()),
            EnvelopeStep::Serialize => Next::Failed(
                joined(UNSERIALIZED_ENVELOPE, reason.as_str()),
            ),
            EnvelopeStep::WriteTemp => Next::Failed(joined(UNSAVED_ENVELOPE, reason.as_str())),
            EnvelopeStep::RestrictTemp => Next::Failed(reason),
            EnvelopeStep::Rename => Next::Failed(joined(UNFINISHED_ENVELOPE, reason.as_str())),
        },
        Ok(()) => match step {
            EnvelopeStep::Locate => Next::Run(EnvelopeStep::Serialize),
            EnvelopeStep::Serialize => Next::Run(EnvelopeStep::WriteTemp),
            EnvelopeStep::WriteTemp => Next::Run(EnvelopeStep::RestrictTemp),
            EnvelopeStep::RestrictTemp => Next::Run(EnvelopeStep::Rename),
            EnvelopeStep::Rename => Next::Finished,
        },
    }
}

/// The envelope gets its name only after it was written whole and restricted to its owner. It
/// counts as written just when every step went well; otherwise the first step that failed says
/// why.
pub proof fn lemma_write_key_envelope(outcomes: Seq<Outcome>)
    ensures
        ({
            let end = run(
                |step, outcome| envelope_next(step, outcome),
                EnvelopeStep::Locate,
                outcomes,
            );
            &&& end == NextView::Run(EnvelopeStep::Rename) ==> good(outcomes, 4)
            &&& end is Finished <==> good(outcomes, 5)
            &&& planned(
                envelope_plan(),
                |step, reason| envelope_failure(step, reason),
                outcomes,
                end,
            )
            &&& planned(
                seq![
                    EnvelopeStep::Locate,
                    EnvelopeStep::Serialize,
                    EnvelopeStep::WriteTemp,
                    EnvelopeStep::RestrictTemp,
                    EnvelopeStep::Rename,
                ],
                |step, reason|
                    match step {
                        EnvelopeStep::Locate => INVALID_PATH@,
                        EnvelopeStep::Serialize => UNSERIALIZED_ENVELOPE@ + reason,
                        EnvelopeStep::WriteTemp => UNSAVED_ENVELOPE@ + reason,
                        EnvelopeStep::RestrictTemp => reason,
                        EnvelopeStep::Rename => UNFINISHED_ENVELOPE@ + reason,
                    },
                outcomes,
                end,
            )
        }),
{
    lemma_run(
        |step, outcome| envelope_next(step, outcome),
        envelope_plan(),
        |step, reason| envelope_failure(step, reason),
        outcomes,
    );
    lemma_run(
        |step, outcome| envelope_next(step, outcome),
        seq![
            EnvelopeStep::Locate,
            EnvelopeStep::Serialize,
            EnvelopeStep::WriteTemp,
            EnvelopeStep::RestrictTemp,
            EnvelopeStep::Rename,
        ],
        |step, reason|
            match step {
                EnvelopeStep::Locate => INVALID_PATH@,
                EnvelopeStep::Serialize => UNSERIALIZED_ENVELOPE@ + reason,
                EnvelopeStep::WriteTemp => UNSAVED_ENVELOPE@ + reason,
                EnvelopeStep::RestrictTemp => reason,
                EnvelopeStep::Rename => UNFINISHED_ENVELOPE@ + reason,
            },
        outcomes,
    );
}

}
