//! Making an archive, unlocking it and locking it again.

use vstd::prelude::*;
use vstd::utf8::encode_utf8;

use crate::crypto::{base64_decoded, Draws, KEY_LEN, MAX_HASH_INPUT_LEN, NONCE_LEN, SALT_LEN};
use crate::database::{hex_value, lemma_raw_key_is_read_back, raw_key_statement, Database};
use crate::envelope::{
    create_key_envelope, draw_bytes, draw_key_envelope, envelope_with, is_fresh_envelope,
    key_envelope_with, lemma_no_randomness, password_verdict, unlocked, validate_password,
    KeyEnvelope, KeyEnvelopeView, StoreKeys, StoreKeysView, MIN_PASSWORD_LEN,
};
use crate::files::{existence, FilesPresent};
use crate::messages::{
    EXISTING_STORE, MISSING_STORE, NO_RANDOMNESS, SHORT_PASSWORD, UNAVAILABLE_STATE, UNDERIVED_KEY,
    UNLOCATED_DIR, UNMADE_DIR,
};
use crate::secret::{wipe_password, SecretBytes};
use crate::steps::{Next, NextView};
use crate::text::{joined, result_view};

verus! {

/// The archive as the application holds it: unlocked, with the open databases `S`, or locked.
pub struct StoreState<S> {
    inner: Option<S>,
}

impl<S> View for StoreState<S> {
    type V = Option<S>;

    closed spec fn view(&self) -> Option<S> {
        self.inner
    }
}

impl<S> Default for StoreState<S> {
    /// A locked archive.
    fn default() -> (r: Self)
        ensures
            r@ is None,
    {
        StoreState { inner: None }
    }
}

/// What becomes of the state once an archive was opened, or was not. A state that is not
/// available stays as it is.
pub open spec fn settled<S>(state: Option<S>, poisoned: bool, opened: Result<S, String>) -> Option<
    S,
> {
    match opened {
        Ok(store) if !poisoned => Some(store),
        _ => state,
    }
}

/// What is answered once an archive was opened, or was not.
pub open spec fn settled_answer<S>(poisoned: bool, opened: Result<S, String>) -> Result<
    (),
    Seq<char>,
> {
    match opened {
        Err(text) => Err(text@),
        Ok(store) => state_answer(poisoned),
    }
}

/// What is answered of a state: nothing, or that it is not available.
pub open spec fn state_answer(poisoned: bool) -> Result<(), Seq<char>> {
    if poisoned {
        Err(UNAVAILABLE_STATE@)
    } else {
        Ok(())
    }
}

/// Keeps an archive that was opened, and wipes the password it was opened with.
fn settle<S>(
    state: &mut StoreState<S>,
    poisoned: bool,
    password: &mut String,
    opened: Result<S, String>,
) -> (r: Result<(), String>)
    ensures
        final(password)@ == Seq::<char>::empty(),
        final(state)@ == settled(old(state)@, poisoned, opened),
        result_view(r) == settled_answer(poisoned, opened),
{
    wipe_password(password);
    match opened {
        Err(text) => Err(text),
        Ok(store) => {
            if poisoned {
                return Err(UNAVAILABLE_STATE.to_owned());
            }
            state.inner = Some(store);
            Ok(())
        },
    }
}

/// Ends the making of an archive: `made` is what it came to. The archive is unlocked if it was
/// made and the state is available. The password is wiped in any case. `poisoned` says that the
/// state was left behind by a thread that panicked.
pub fn create_store<S>(
    state: &mut StoreState<S>,
    poisoned: bool,
    password: &mut String,
    made: Result<S, String>,
) -> (r: Result<(), String>)
    ensures
        final(password)@ == Seq::<char>::empty(),
        final(state)@ == settled(old(state)@, poisoned, made),
        result_view(r) == settled_answer(poisoned, made),
        match made {
            Err(reason) => {
                &&& final(state)@ == old(state)@
                &&& r matches Err(text) && text@ == reason@
            },
            Ok(store) => if poisoned {
                &&& final(state)@ == old(state)@
                &&& r matches Err(text) && text@ == UNAVAILABLE_STATE@
            } else {
                &&& final(state)@ == Some(store)
                &&& r is Ok
            },
        },
{
    settle(state, poisoned, password, made)
}

/// Ends the opening of an archive: `opened` is what it came to. The archive is unlocked if it was
/// opened and the state is available. The password is wiped in any case. `poisoned` says that the
/// state was left behind by a thread that panicked.
pub fn unlock_store<S>(
    state: &mut StoreState<S>,
    poisoned: bool,
    password: &mut String,
    opened: Result<S, String>,
) -> (r: Result<(), String>)
    ensures
        final(password)@ == Seq::<char>::empty(),
        final(state)@ == settled(old(state)@, poisoned, opened),
        result_view(r) == settled_answer(poisoned, opened),
        match opened {
            Err(reason) => {
                &&& final(state)@ == old(state)@
                &&& r matches Err(text) && text@ == reason@
            },
            Ok(store) => if poisoned {
                &&& final(state)@ == old(state)@
                &&& r matches Err(text) && text@ == UNAVAILABLE_STATE@
            } else {
                &&& final(state)@ == Some(store)
                &&& r is Ok
            },
        },
{
    settle(state, poisoned, password, opened)
}

/// The state of an archive that was locked.
pub open spec fn locked<S>(state: Option<S>, poisoned: bool) -> Option<S> {
    if poisoned {
        state
    } else {
        None
    }
}

/// Locks the archive, which closes its databases.
pub fn lock_store<S>(state: &mut StoreState<S>, poisoned: bool) -> (r: Result<(), String>)
    ensures
        final(state)@ == locked(old(state)@, poisoned),
        result_view(r) == state_answer(poisoned),
        !poisoned ==> final(state)@ is None && r is Ok,
        poisoned ==> final(state)@ == old(state)@ && (r matches Err(text) && text@
            == UNAVAILABLE_STATE@),
{
    if poisoned {
        return Err(UNAVAILABLE_STATE.to_owned());
    }
    state.inner = None;
    Ok(())
}

/// What is answered when asked whether the archive is unlocked.
pub open spec fn unlocked_answer<S>(state: Option<S>, poisoned: bool) -> Result<bool, Seq<char>> {
    if poisoned {
        Err(UNAVAILABLE_STATE@)
    } else {
        Ok(state is Some)
    }
}

/// Whether the archive is unlocked.
pub fn store_unlocked<S>(state: &StoreState<S>, poisoned: bool) -> (r: Result<bool, String>)
    ensures
        result_view(r) == unlocked_answer(state@, poisoned),
        !poisoned ==> (r matches Ok(open) && open == state@ is Some),
        poisoned ==> (r matches Err(text) && text@ == UNAVAILABLE_STATE@),
{
    if poisoned {
        return Err(UNAVAILABLE_STATE.to_owned());
    }
    Ok(state.inner.is_some())
}

/// An archive is unlocked once it was opened, and stays locked after it was locked, until it is
/// opened again. An attempt that failed changes nothing, and a state that is not available is
/// never changed.
pub proof fn lemma_lock_and_unlock<S>(state: Option<S>, store: S, text: String)
    ensures
        settled(state, false, Ok(store)) == Some(store),
        locked(settled(state, false, Ok(store)), false) is None,
        settled(locked(state, false), false, Err(text)) is None,
        settled(locked(state, false), false, Ok(store)) == Some(store),
        settled(state, false, Err(text)) == state,
        settled(state, true, Ok(store)) == state,
        settled(state, true, Err(text)) == state,
        locked(state, true) == state,
{
}

/// How a step went.
pub enum StepOutcome {
    /// It was done.
    Done,
    /// It failed, for this reason.
    Failed(String),
    /// It was to look for the files of the archive, and these are there.
    Found(FilesPresent),
}

/// What a [`StepOutcome`] stands for.
pub ghost enum StepOutcomeView {
    Done,
    Failed(Seq<char>),
    Found(FilesPresent),
}

impl View for StepOutcome {
    type V = StepOutcomeView;

    open spec fn view(&self) -> StepOutcomeView {
        match *self {
            StepOutcome::Done => StepOutcomeView::Done,
            StepOutcome::Failed(reason) => StepOutcomeView::Failed(reason@),
            StepOutcome::Found(files) => StepOutcomeView::Found(files),
        }
    }
}

/// A step of making an archive.
#[derive(Debug, Clone, Copy, PartialEq, Eq, Structural)]
pub enum CreateStep {
    /// Determine the directory of the archive.
    LocateDir,
    /// Make that directory.
    MakeDir,
    /// Determine the paths of the files.
    LocateFiles,
    /// Look which files are there.
    ProbeFiles,
    /// Make the keys and their envelope, with [`make_secrets`].
    MakeSecrets,
    /// Open a database with its key.
    Open(Database),
    /// Make the tables of a database.
    MakeTables(Database),
    /// Restrict a database to its owner.
    Restrict(Database),
    /// Write the key envelope.
    WriteEnvelope,
}

/// What is to be done next in making an archive.
pub enum CreateNext {
    /// Run this step, and say how it went.
    Run(CreateStep),
    /// Nothing: the archive is made.
    Created,
    /// Say `text`, after removing the leftovers if `cleanup` says so.
    Failed { text: String, cleanup: bool },
}

/// What a [`CreateNext`] stands for.
pub ghost enum CreateNextView {
    Run(CreateStep),
    Created,
    Failed { text: Seq<char>, cleanup: bool },
}

impl View for CreateNext {
    type V = CreateNextView;

    open spec fn view(&self) -> CreateNextView {
        match *self {
            CreateNext::Run(step) => CreateNextView::Run(step),
            CreateNext::Created => CreateNextView::Created,
            CreateNext::Failed { text, cleanup } => CreateNextView::Failed { text: text@, cleanup },
        }
    }
}

/// The place of a step among the steps of making an archive.
pub open spec fn create_position(step: CreateStep) -> int {
    match step {
        CreateStep::LocateDir => 0,
        CreateStep::MakeDir => 1,
        CreateStep::LocateFiles => 2,
        CreateStep::ProbeFiles => 3,
        CreateStep::MakeSecrets => 4,
        CreateStep::Open(Database::Data) => 5,
        CreateStep::Open(Database::Identities) => 6,
        CreateStep::MakeTables(Database::Data) => 7,
        CreateStep::MakeTables(Database::Identities) => 8,
        CreateStep::Restrict(Database::Data) => 9,
        CreateStep::Restrict(Database::Identities) => 10,
        CreateStep::WriteEnvelope => 11,
    }
}

/// The step may leave a file of the archive behind.
pub open spec fn leaves_files(step: CreateStep) -> bool {
    create_position(step) >= create_position(CreateStep::Open(Database::Data))
}

/// What follows a step that went well.
pub open spec fn after_create_step(step: CreateStep) -> CreateNextView {
    match step {
        CreateStep::LocateDir => CreateNextView::Run(CreateStep::MakeDir),
        CreateStep::MakeDir => CreateNextView::Run(CreateStep::LocateFiles),
        CreateStep::LocateFiles => CreateNextView::Run(CreateStep::ProbeFiles),
        CreateStep::ProbeFiles => CreateNextView::Run(CreateStep::MakeSecrets),
        CreateStep::MakeSecrets => CreateNextView::Run(CreateStep::Open(Database::Data)),
        CreateStep::Open(Database::Data) => CreateNextView::Run(
            CreateStep::Open(Database::Identities),
        ),
        CreateStep::Open(Database::Identities) => CreateNextView::Run(
            CreateStep::MakeTables(Database::Data),
        ),
        CreateStep::MakeTables(Database::Data) => CreateNextView::Run(
            CreateStep::MakeTables(Database::Identities),
        ),
        CreateStep::MakeTables(Database::Identities) => CreateNextView::Run(
            CreateStep::Restrict(Database::Data),
        ),
        CreateStep::Restrict(Database::Data) => CreateNextView::Run(
            CreateStep::Restrict(Database::Identities),
        ),
        CreateStep::Restrict(Database::Identities) => CreateNextView::Run(
            CreateStep::WriteEnvelope,
        ),
        CreateStep::WriteEnvelope => CreateNextView::Created,
    }
}

/// A step of making an archive went well: it was done, or it found no file of an archive.
pub open spec fn create_step_good(step: CreateStep, outcome: StepOutcomeView) -> bool {
    if step == CreateStep::ProbeFiles {
        outcome matches StepOutcomeView::Found(files) && files.none()
    } else {
        outcome is Done
    }
}

/// What is said of a step that failed.
pub open spec fn create_failure(step: CreateStep, reason: Seq<char>) -> Seq<char> {
    match step {
        CreateStep::LocateDir => UNLOCATED_DIR@ + reason,
        CreateStep::MakeDir => UNMADE_DIR@ + reason,
        CreateStep::LocateFiles => UNLOCATED_DIR@ + reason,
        _ => reason,
    }
}

/// What follows a step of making an archive. An outcome that the step cannot have leaves
/// everything as it is.
pub open spec fn create_next(step: CreateStep, outcome: StepOutcomeView) -> CreateNextView {
    if create_step_good(step, outcome) {
        after_create_step(step)
    } else {
        match outcome {
            StepOutcomeView::Failed(reason) => CreateNextView::Failed {
                text: create_failure(step, reason),
                cleanup: leaves_files(step),
            },
            StepOutcomeView::Found(files) if step == CreateStep::ProbeFiles => {
                CreateNextView::Failed { text: EXISTING_STORE@, cleanup: false }
            },
            _ => CreateNextView::Run(step),
        }
    }
}

/// How the making of an archive starts: with the password.
pub open spec fn create_start(password: Seq<char>) -> CreateNextView {
    match password_verdict(password) {
        Ok(()) => CreateNextView::Run(CreateStep::LocateDir),
        Err(text) => CreateNextView::Failed { text, cleanup: false },
    }
}

/// Starts to make an archive: refuses a password that is too short.
pub fn create_new_store(password: &str) -> (r: CreateNext)
    ensures
        r@ == create_start(password@),
        password@.len() >= 12 ==> r matches CreateNext::Run(CreateStep::LocateDir),
        password@.len() < 12 ==> (r matches CreateNext::Failed { text, cleanup: false } && text@
            == SHORT_PASSWORD@),
{
    match validate_password(password) {
        Ok(()) => CreateNext::Run(CreateStep::LocateDir),
        Err(text) => CreateNext::Failed { text, cleanup: false },
    }
}

/// What follows a step of making an archive.
pub fn advance_creation(step: CreateStep, outcome: StepOutcome) -> (r: CreateNext)
    ensures
        r@ == create_next(step, outcome@),
        match outcome {
            StepOutcome::Failed(reason) => {
                &&& r matches CreateNext::Failed { text, cleanup }
                &&& cleanup <==> step is Open || step is MakeTables || step is Restrict
                    || step is WriteEnvelope
                &&& text@ == match step {
                    CreateStep::LocateDir | CreateStep::LocateFiles => UNLOCATED_DIR@ + reason@,
                    CreateStep::MakeDir => UNMADE_DIR@ + reason@,
                    _ => reason@,
                }
            },
            StepOutcome::Done => r is Created <==> step is WriteEnvelope,
            StepOutcome::Found(files) => {
                &&& !(r is Created)
                &&& r is Failed <==> step is ProbeFiles && (files.data || files.identities
                    || files.keys)
            },
        },
{
    match outcome {
        StepOutcome::Done => match step {
            CreateStep::LocateDir => CreateNext::Run(CreateStep::MakeDir),
            CreateStep::MakeDir => CreateNext::Run(CreateStep::LocateFiles),
            CreateStep::LocateFiles => CreateNext::Run(CreateStep::ProbeFiles),
            CreateStep::ProbeFiles => CreateNext::Run(CreateStep::ProbeFiles),
            CreateStep::MakeSecrets => CreateNext::Run(CreateStep::Open(Database::Data)),
            CreateStep::Open(Database::Data) => CreateNext::Run(
                CreateStep::Open(Database::Identities),
            ),
            CreateStep::Open(Database::Identities) => CreateNext::Run(
                CreateStep::MakeTables(Database::Data),
            ),
            CreateStep::MakeTables(Database::Data) => CreateNext::Run(
                CreateStep::MakeTables(Database::Identities),
            ),
            CreateStep::MakeTables(Database::Identities) => CreateNext::Run(
                CreateStep::Restrict(Database::Data),
            ),
            CreateStep::Restrict(Database::Data) => CreateNext::Run(
                CreateStep::Restrict(Database::Identities),
            ),
            CreateStep::Restrict(Database::Identities) => CreateNext::Run(
                CreateStep::WriteEnvelope,
            ),
            CreateStep::WriteEnvelope => CreateNext::Created,
        },
        StepOutcome::Found(files) => match step {
            CreateStep::ProbeFiles => {
                if files.data || files.identities || files.keys {
                    CreateNext::Failed { text: EXISTING_STORE.to_owned(), cleanup: false }
                } else {
                    CreateNext::Run(CreateStep::MakeSecrets)
                }
            },
            _ => CreateNext::Run(step),
        },
        StepOutcome::Failed(reason) => match step {
            CreateStep::LocateDir | CreateStep::LocateFiles => CreateNext::Failed {
                text: joined(UNLOCATED_DIR, reason.as_str()),
                cleanup: false,
            },
            CreateStep::MakeDir => CreateNext::Failed {
                text: joined(UNMADE_DIR, reason.as_str()),
                cleanup: false,
            },
            CreateStep::ProbeFiles | CreateStep::MakeSecrets => CreateNext::Failed {
                text: reason,
                cleanup: false,
            },
            _ => CreateNext::Failed { text: reason, cleanup: true },
        },
    }
}

/// Where the making of an archive stands after some outcomes; outcomes after the end change
/// nothing.
pub open spec fn create_run(password: Seq<char>, outcomes: Seq<StepOutcomeView>) -> CreateNextView
    decreases outcomes.len(),
{
    if outcomes.len() == 0 {
        create_start(password)
    } else {
        match create_run(password, outcomes.drop_last()) {
            CreateNextView::Run(step) => create_next(step, outcomes.last()),
            end => end,
        }
    }
}

/// Among the outcomes is that of `step`, and it went well.
pub open spec fn create_passed(
    password: Seq<char>,
    outcomes: Seq<StepOutcomeView>,
    step: CreateStep,
) -> bool {
    exists|k: int|
        0 <= k < outcomes.len() && #[trigger] create_run(password, outcomes.take(k))
            == CreateNextView::Run(step) && create_step_good(step, outcomes[k])
}

/// At some point the run waited for a step that may leave a file behind.
pub open spec fn create_wrote(password: Seq<char>, outcomes: Seq<StepOutcomeView>) -> bool {
    exists|k: int, step: CreateStep|
        0 <= k < outcomes.len() && #[trigger] create_run(password, outcomes.take(k))
            == CreateNextView::Run(step) && #[trigger] leaves_files(step)
}

/// What was so of the outcomes but the last is so of all.
proof fn lemma_create_extend(password: Seq<char>, outcomes: Seq<StepOutcomeView>)
    requires
        outcomes.len() > 0,
    ensures
        forall|step: CreateStep|
            create_passed(password, outcomes.drop_last(), step) ==> #[trigger] create_passed(
                password,
                outcomes,
                step,
            ),
        create_wrote(password, outcomes.drop_last()) ==> create_wrote(password, outcomes),
        create_wrote(password, outcomes) ==> create_wrote(password, outcomes.drop_last()) || (
        create_run(password, outcomes.drop_last()) matches CreateNextView::Run(step)
            && leaves_files(step)),
{
    let before = outcomes.drop_last();
    assert(outcomes.take(before.len() as int) =~= before);
    assert forall|k: int| 0 <= k < before.len() implies #[trigger] outcomes.take(k) == before.take(
        k,
    ) by {
        assert(outcomes.take(k) =~= before.take(k));
    }
    assert forall|step: CreateStep|
        create_passed(password, before, step) implies #[trigger] create_passed(
        password,
        outcomes,
        step,
    ) by {
        let k = choose|k: int|
            0 <= k < before.len() && #[trigger] create_run(password, before.take(k))
                == CreateNextView::Run(step) && create_step_good(step, before[k]);
        assert(create_run(password, outcomes.take(k)) == CreateNextView::Run(step));
    }
    if create_wrote(password, before) {
        let (k, step) = choose|k: int, step: CreateStep|
            0 <= k < before.len() && #[trigger] create_run(password, before.take(k))
                == CreateNextView::Run(step) && #[trigger] leaves_files(step);
        assert(create_run(password, outcomes.take(k)) == CreateNextView::Run(step));
    }
    if create_wrote(password, outcomes) {
        let (k, step) = choose|k: int, step: CreateStep|
            0 <= k < outcomes.len() && #[trigger] create_run(password, outcomes.take(k))
                == CreateNextView::Run(step) && #[trigger] leaves_files(step);
        if k < before.len() {
            assert(create_run(password, before.take(k)) == CreateNextView::Run(step));
        }
    }
}

/// The making of an archive takes its steps in their order. It ends well just after every step
/// went well, the envelope last. The leftovers are removed just when a step that may leave some
/// was run, and only where there was no file of an archive before: no archive is ever removed,
/// and none is left half made.
pub proof fn lemma_create_new_store(password: Seq<char>, outcomes: Seq<StepOutcomeView>)
    ensures
        match create_run(password, outcomes) {
            CreateNextView::Run(step) => {
                &&& forall|earlier: CreateStep|
                    create_position(earlier) < create_position(step) ==> create_passed(
                        password,
                        outcomes,
                        earlier,
                    )
                &&& create_wrote(password, outcomes) ==> leaves_files(step)
            },
            CreateNextView::Created => forall|step: CreateStep|
                create_passed(password, outcomes, step),
            CreateNextView::Failed { cleanup, .. } => {
                &&& cleanup <==> create_wrote(password, outcomes)
                &&& cleanup ==> create_passed(password, outcomes, CreateStep::ProbeFiles)
            },
        },
        password.len() < MIN_PASSWORD_LEN ==> create_run(password, outcomes) == (
        CreateNextView::Failed { text: SHORT_PASSWORD@, cleanup: false }),
    decreases outcomes.len(),
{
    if outcomes.len() > 0 {
        let before = outcomes.drop_last();
        lemma_create_new_store(password, before);
        lemma_create_extend(password, outcomes);
        assert(outcomes.take(before.len() as int) =~= before);
        if let CreateNextView::Run(step) = create_run(password, before) {
            assert(create_run(password, outcomes.take(before.len() as int))
                == CreateNextView::Run(step));
            if create_step_good(step, outcomes.last()) {
                assert(create_passed(password, outcomes, step));
                assert forall|earlier: CreateStep|
                    create_position(earlier) <= create_position(step) implies create_passed(
                    password,
                    outcomes,
                    earlier,
                ) by {
                    if earlier != step {
                        assert(create_position(earlier) != create_position(step));
                        assert(create_passed(password, before, earlier));
                    }
                }
            }
            if leaves_files(step) {
                assert(create_passed(password, before, CreateStep::ProbeFiles));
                assert(create_wrote(password, outcomes));
            }
        }
    }
}

/// With a password that is long enough, the making of an archive starts, and as long as all goes
/// well it waits for these twelve steps one after another, and is done after the last. A step that
/// fails ends it with the reason of the step, after what could not be done if that was to find or
/// make a directory; what the databases have left is then removed. A file of an archive that is
/// found ends it too. An outcome that the step cannot have is passed over.
pub proof fn lemma_creation_goes_step_by_step(
    password: Seq<char>,
    outcomes: Seq<StepOutcomeView>,
    reason: Seq<char>,
    files: FilesPresent,
)
    requires
        password.len() >= 12,
        outcomes.len() <= 12,
        forall|i: int|
            0 <= i < outcomes.len() ==> #[trigger] outcomes[i] == if i == 3 {
                StepOutcomeView::Found(
                    FilesPresent { data: false, identities: false, keys: false },
                )
            } else {
                StepOutcomeView::Done
            },
    ensures
        outcomes.len() == 12 ==> create_run(password, outcomes) is Created,
        outcomes.len() < 12 ==> {
            let waiting = CreateNextView::Run(
                seq![
                    CreateStep::LocateDir,
                    CreateStep::MakeDir,
                    CreateStep::LocateFiles,
                    CreateStep::ProbeFiles,
                    CreateStep::MakeSecrets,
                    CreateStep::Open(Database::Data),
                    CreateStep::Open(Database::Identities),
                    CreateStep::MakeTables(Database::Data),
                    CreateStep::MakeTables(Database::Identities),
                    CreateStep::Restrict(Database::Data),
                    CreateStep::Restrict(Database::Identities),
                    CreateStep::WriteEnvelope,
                ][outcomes.len() as int],
            );
            let found = create_run(password, outcomes.push(StepOutcomeView::Found(files)));
            &&& create_run(password, outcomes) == waiting
            &&& create_run(password, outcomes.push(StepOutcomeView::Failed(reason))) == (
            CreateNextView::Failed {
                text: if outcomes.len() == 0 || outcomes.len() == 2 {
                    UNLOCATED_DIR@ + reason
                } else if outcomes.len() == 1 {
                    UNMADE_DIR@ + reason
                } else {
                    reason
                },
                cleanup: outcomes.len() >= 5,
            })
            &&& outcomes.len() != 3 ==> found == waiting
            &&& outcomes.len() == 3 && (files.data || files.identities || files.keys) ==> found == (
            CreateNextView::Failed { text: EXISTING_STORE@, cleanup: false })
            &&& outcomes.len() == 3 ==> create_run(password, outcomes.push(StepOutcomeView::Done))
                == waiting
        },
    decreases outcomes.len(),
{
    if outcomes.len() > 0 {
        lemma_creation_goes_step_by_step(password, outcomes.drop_last(), reason, files);
        assert(outcomes.drop_last().push(outcomes.last()) =~= outcomes);
    }
    assert(outcomes.push(StepOutcomeView::Failed(reason)).drop_last() =~= outcomes);
    assert(outcomes.push(StepOutcomeView::Found(files)).drop_last() =~= outcomes);
    assert(outcomes.push(StepOutcomeView::Done).drop_last() =~= outcomes);
}

/// Once the making of an archive has ended, nothing that is told changes how.
pub proof fn lemma_creation_ends_once(
    password: Seq<char>,
    outcomes: Seq<StepOutcomeView>,
    outcome: StepOutcomeView,
)
    requires
        !(create_run(password, outcomes) is Run),
    ensures
        create_run(password, outcomes.push(outcome)) == create_run(password, outcomes),
{
    assert(outcomes.push(outcome).drop_last() =~= outcomes);
}

/// `before` is what the run was told of the files of the archive whenever it looked.
pub open spec fn probe_told(
    password: Seq<char>,
    outcomes: Seq<StepOutcomeView>,
    before: FilesPresent,
) -> bool {
    forall|k: int|
        0 <= k < outcomes.len() && #[trigger] create_run(password, outcomes.take(k))
            == CreateNextView::Run(CreateStep::ProbeFiles) ==> (
        outcomes[k] matches StepOutcomeView::Found(files) ==> files == before)
}

/// The files of the archive once a run has ended, where `before` are those that were there when it
/// began: a database is there once its tables are made, the envelope once it is written, and none
/// of them after a clean-up that could remove them.
pub open spec fn files_after(
    password: Seq<char>,
    outcomes: Seq<StepOutcomeView>,
    before: FilesPresent,
) -> FilesPresent {
    match create_run(password, outcomes) {
        CreateNextView::Failed { cleanup: true, .. } => FilesPresent {
            data: false,
            identities: false,
            keys: false,
        },
        _ => FilesPresent {
            data: before.data || create_passed(
                password,
                outcomes,
                CreateStep::MakeTables(Database::Data),
            ),
            identities: before.identities || create_passed(
                password,
                outcomes,
                CreateStep::MakeTables(Database::Identities),
            ),
            keys: before.keys || create_passed(password, outcomes, CreateStep::WriteEnvelope),
        },
    }
}

/// Making an archive takes what is known of it from not there to there, and needs a password of
/// the right length. If it fails, the files are those that were there before.
pub proof fn lemma_creation_leaves_an_archive(
    password: Seq<char>,
    outcomes: Seq<StepOutcomeView>,
    before: FilesPresent,
)
    requires
        probe_told(password, outcomes, before),
    ensures
        match create_run(password, outcomes) {
            CreateNextView::Created => {
                &&& password.len() >= MIN_PASSWORD_LEN
                &&& existence(Ok(before)) == Ok::<bool, Seq<char>>(false)
                &&& existence(Ok(files_after(password, outcomes, before))) == Ok::<bool, Seq<char>>(
                    true,
                )
            },
            CreateNextView::Failed { .. } => files_after(password, outcomes, before) == before,
            CreateNextView::Run(_) => true,
        },
{
    lemma_create_new_store(password, outcomes);
    if create_passed(password, outcomes, CreateStep::ProbeFiles) {
        assert(before.none());
    }
    if !create_wrote(password, outcomes) {
        assert(leaves_files(CreateStep::MakeTables(Database::Data)));
        assert(leaves_files(CreateStep::MakeTables(Database::Identities)));
        assert(leaves_files(CreateStep::WriteEnvelope));
    }
}

/// What an answer of [`create_store`] means, where `made` is what the run came to: an archive if it
/// ended well, else its text. If no error is answered, the password was long enough, there was no
/// archive before, there is one now, and it is unlocked. If the archive was not made, the text is
/// answered, and the files and the state are as they were. A password that is too short is answered
/// with that.
pub proof fn lemma_create_store<S>(
    password: Seq<char>,
    outcomes: Seq<StepOutcomeView>,
    before: FilesPresent,
    state: Option<S>,
    poisoned: bool,
    made: Result<S, String>,
)
    requires
        probe_told(password, outcomes, before),
        match made {
            Ok(_) => create_run(password, outcomes) is Created,
            Err(text) => create_run(password, outcomes) matches CreateNextView::Failed {
                text: said,
                ..
            } && said == text@,
        },
    ensures
        settled_answer(poisoned, made) is Ok ==> {
            &&& password.len() >= MIN_PASSWORD_LEN
            &&& existence(Ok(before)) == Ok::<bool, Seq<char>>(false)
            &&& existence(Ok(files_after(password, outcomes, before))) == Ok::<bool, Seq<char>>(
                true,
            )
            &&& unlocked_answer(settled(state, poisoned, made), poisoned) == Ok::<bool, Seq<char>>(
                true,
            )
        },
        made matches Err(text) ==> {
            &&& settled_answer(poisoned, made) == Err::<(), Seq<char>>(text@)
            &&& files_after(password, outcomes, before) == before
            &&& settled(state, poisoned, made) == state
        },
        password.len() < MIN_PASSWORD_LEN ==> settled_answer(poisoned, made) == Err::<
            (),
            Seq<char>,
        >(SHORT_PASSWORD@),
{
    lemma_create_new_store(password, outcomes);
    lemma_creation_leaves_an_archive(password, outcomes, before);
}

/// The keys of a new archive, and the envelope that holds them.
pub struct StoreSecrets {
    pub keys: StoreKeys,
    pub envelope: KeyEnvelope,
}

/// The keys are those that were drawn, the first for the data database and the second for the
/// identities database, and a password unlocks them from the envelope.
pub open spec fn secrets_from(
    password: Seq<char>,
    data: Seq<u8>,
    identities: Seq<u8>,
    keys: StoreKeysView,
    envelope: KeyEnvelopeView,
) -> bool {
    &&& keys == StoreKeysView { data, identities }
    &&& is_fresh_envelope(password, keys, envelope)
    &&& unlocked(password, envelope) == Ok::<StoreKeysView, Seq<char>>(keys)
}

/// The databases of an archive are keyed with just what was drawn for them, each with its own
/// draw, whatever the password: two archives made of the same draws under any two passwords hand
/// the same keys to the same databases.
pub proof fn lemma_keys_are_the_draws(
    data: Seq<u8>,
    identities: Seq<u8>,
    password: Seq<char>,
    keys: StoreKeysView,
    envelope: KeyEnvelopeView,
    other_password: Seq<char>,
    other_keys: StoreKeysView,
    other_envelope: KeyEnvelopeView,
)
    requires
        secrets_from(password, data, identities, keys, envelope),
        secrets_from(other_password, data, identities, other_keys, other_envelope),
    ensures
        keys.key_of(Database::Data) == data,
        keys.key_of(Database::Identities) == identities,
        other_keys == keys,
        raw_key_statement(keys.key_of(Database::Data)) == raw_key_statement(data),
        raw_key_statement(keys.key_of(Database::Identities)) == raw_key_statement(identities),
        unlocked(password, envelope) == unlocked(other_password, other_envelope),
{
}

/// Where the keys of an archive are the first two things that the system gave, as [`make_secrets`]
/// has it, the statement that opens the data database names the first and no other key, and the one
/// that opens the identities database names the second.
pub proof fn lemma_each_database_has_its_own_draw(
    draws: Draws,
    keys: StoreKeysView,
    database: Database,
)
    requires
        draws@.len() >= 2,
        draws@[0] == Ok::<Seq<u8>, Seq<char>>(keys.data),
        draws@[1] == Ok::<Seq<u8>, Seq<char>>(keys.identities),
    ensures
        ({
            let draw = draws@[if database is Data {
                0int
            } else {
                1int
            }];
            let statement = raw_key_statement(keys.key_of(database));
            &&& draw == Ok::<Seq<u8>, Seq<char>>(keys.key_of(database))
            &&& forall|i: int|
                0 <= i < draw->Ok_0.len() ==> hex_value(#[trigger] statement[16 + 2 * i]) * 16
                    + hex_value(statement[16 + 2 * i + 1]) == #[trigger] draw->Ok_0[i]
        }),
{
    lemma_raw_key_is_read_back(keys.key_of(database));
}

/// The secrets of an archive whose keys were drawn: the first key is that of the data database,
/// the second that of the identities database. The salt and the nonces of the envelope are what the
/// system gave when it was asked three times.
pub fn secrets_of(
    password: &str,
    data: SecretBytes<KEY_LEN>,
    identities: SecretBytes<KEY_LEN>,
) -> (r: Result<StoreSecrets, String>)
    ensures
        r matches Ok(secrets) ==> {
            &&& secrets_from(password@, data@, identities@, secrets.keys@, secrets.envelope@)
            &&& secrets.keys.data@ == data@
            &&& secrets.keys.identities@ == identities@
            &&& base64_decoded(secrets.envelope@.kdf.salt) matches Some(salt)
            &&& base64_decoded(secrets.envelope@.data_key.nonce) matches Some(data_nonce)
            &&& base64_decoded(
                secrets.envelope@.identities_key.nonce,
            ) matches Some(identities_nonce)
            &&& secrets.envelope@ == envelope_with(
                password@,
                StoreKeysView { data: data@, identities: identities@ },
                salt,
                data_nonce,
                identities_nonce,
            )
            &&& exists|draws: Draws| #[trigger]
                draws@ == seq![
                    Ok::<Seq<u8>, Seq<char>>(salt),
                    Ok(data_nonce),
                    Ok(identities_nonce),
                ]
        },
        r matches Err(text) ==> {
            ||| NO_RANDOMNESS@.is_prefix_of(text@) && exists|draws: Draws, reason: Seq<char>|
                #[trigger]
                draws@.last() == Err::<Seq<u8>, Seq<char>>(reason) && 1 <= draws@.len() <= 3
                    && text@ == #[trigger] (NO_RANDOMNESS@ + reason)
            ||| {
                &&& encode_utf8(password@).len() > MAX_HASH_INPUT_LEN
                &&& text@ == UNDERIVED_KEY@ + "password is too long"@
            }
        },
        encode_utf8(password@).len() > MAX_HASH_INPUT_LEN ==> r is Err,
{
    match create_key_envelope(password, data.as_array(), identities.as_array()) {
        Ok(envelope) => Ok(StoreSecrets { keys: StoreKeys { data, identities }, envelope }),
        Err(text) => Err(text),
    }
}

/// The secrets of an archive of which everything was drawn: the two keys, the salt, and the nonce
/// of each key. This fails just on a password of more bytes than Argon2 takes.
pub fn secrets_with(
    password: &str,
    data: SecretBytes<KEY_LEN>,
    identities: SecretBytes<KEY_LEN>,
    salt: &[u8; SALT_LEN],
    data_nonce: &[u8; NONCE_LEN],
    identities_nonce: &[u8; NONCE_LEN],
) -> (r: Result<StoreSecrets, String>)
    ensures
        match r {
            Ok(secrets) => {
                &&& encode_utf8(password@).len() <= MAX_HASH_INPUT_LEN
                &&& secrets.envelope@ == envelope_with(
                    password@,
                    StoreKeysView { data: data@, identities: identities@ },
                    salt@,
                    data_nonce@,
                    identities_nonce@,
                )
                &&& secrets_from(
                    password@,
                    data@,
                    identities@,
                    secrets.keys@,
                    secrets.envelope@,
                )
                &&& secrets.keys.data@ == data@
                &&& secrets.keys.identities@ == identities@
            },
            Err(text) => {
                &&& encode_utf8(password@).len() > MAX_HASH_INPUT_LEN
                &&& text@ == UNDERIVED_KEY@ + "password is too long"@
            },
        },
{
    match key_envelope_with(
        password,
        data.as_array(),
        identities.as_array(),
        salt,
        data_nonce,
        identities_nonce,
    ) {
        Ok(envelope) => Ok(StoreSecrets { keys: StoreKeys { data, identities }, envelope }),
        Err(text) => Err(text),
    }
}

/// Draws two random keys, and makes the envelope that a password unlocks them from. The system is
/// asked five times: for the key of the data database, for that of the identities database, for the
/// salt, and for the nonce of each key. Each is what was given then, and nothing else was asked.
/// This fails just where the system gives no random bytes, and on a password of more bytes than
/// Argon2 takes.
pub fn make_secrets(password: &str) -> (r: Result<StoreSecrets, String>)
    ensures
        r matches Ok(secrets) ==> {
            &&& secrets_from(
                password@,
                secrets.keys@.data,
                secrets.keys@.identities,
                secrets.keys@,
                secrets.envelope@,
            )
            &&& base64_decoded(secrets.envelope@.kdf.salt) matches Some(salt)
            &&& base64_decoded(secrets.envelope@.data_key.nonce) matches Some(data_nonce)
            &&& base64_decoded(
                secrets.envelope@.identities_key.nonce,
            ) matches Some(identities_nonce)
            &&& secrets.envelope@ == envelope_with(
                password@,
                secrets.keys@,
                salt,
                data_nonce,
                identities_nonce,
            )
            &&& exists|draws: Draws| #[trigger]
                draws@ == seq![
                    Ok::<Seq<u8>, Seq<char>>(secrets.keys.data@),
                    Ok(secrets.keys.identities@),
                    Ok(salt),
                    Ok(data_nonce),
                    Ok(identities_nonce),
                ]
        },
        r matches Err(text) ==> {
            ||| NO_RANDOMNESS@.is_prefix_of(text@) && exists|draws: Draws, reason: Seq<char>|
                #[trigger]
                draws@.last() == Err::<Seq<u8>, Seq<char>>(reason) && 1 <= draws@.len() <= 5
                    && text@ == #[trigger] (NO_RANDOMNESS@ + reason)
            ||| {
                &&& encode_utf8(password@).len() > MAX_HASH_INPUT_LEN
                &&& text@ == UNDERIVED_KEY@ + "password is too long"@
            }
        },
        encode_utf8(password@).len() > MAX_HASH_INPUT_LEN ==> r is Err,
{
    let mut draws = Draws::none();
    proof {
        assert forall|reason: Seq<char>| NO_RANDOMNESS@.is_prefix_of(#[trigger] (NO_RANDOMNESS@
            + reason)) by {
            lemma_no_randomness(reason);
        }
    }
    let data = match draw_bytes::<KEY_LEN>(&mut draws) {
        Ok(key) => key,
        Err(text) => return Err(text),
    };
    let identities = match draw_bytes::<KEY_LEN>(&mut draws) {
        Ok(key) => key,
        Err(text) => return Err(text),
    };
    let ghost keys = draws@;
    let envelope = match draw_key_envelope(
        password,
        data.as_array(),
        identities.as_array(),
        &mut draws,
    ) {
        Ok(envelope) => envelope,
        Err(text) => return Err(text),
    };
    assert(draws@.subrange(0, 2)[0] == keys[0] && draws@.subrange(0, 2)[1] == keys[1]);
    assert(draws@ == seq![draws@[0], draws@[1], draws@[2], draws@[3], draws@[4]]);
    Ok(StoreSecrets { keys: StoreKeys { data, identities }, envelope })
}

/// A step of opening an archive.
#[derive(Debug, Clone, Copy, PartialEq, Eq, Structural)]
pub enum OpenStep {
    /// Determine the paths of the files.
    LocateFiles,
    /// Look which files are there.
    ProbeFiles,
    /// Read the key envelope, with `read_key_envelope`.
    ReadEnvelope,
    /// Unlock the keys, with `unlock_keys`.
    UnlockKeys,
    /// Open a database with its key.
    Open(Database),
}

/// The place of a step among the steps of opening an archive.
pub open spec fn open_position(step: OpenStep) -> int {
    match step {
        OpenStep::LocateFiles => 0,
        OpenStep::ProbeFiles => 1,
        OpenStep::ReadEnvelope => 2,
        OpenStep::UnlockKeys => 3,
        OpenStep::Open(Database::Data) => 4,
        OpenStep::Open(Database::Identities) => 5,
    }
}

/// What follows a step that went well.
pub open spec fn after_open_step(step: OpenStep) -> NextView<OpenStep> {
    match step {
        OpenStep::LocateFiles => NextView::Run(OpenStep::ProbeFiles),
        OpenStep::ProbeFiles => NextView::Run(OpenStep::ReadEnvelope),
        OpenStep::ReadEnvelope => NextView::Run(OpenStep::UnlockKeys),
        OpenStep::UnlockKeys => NextView::Run(OpenStep::Open(Database::Data)),
        OpenStep::Open(Database::Data) => NextView::Run(OpenStep::Open(Database::Identities)),
        OpenStep::Open(Database::Identities) => NextView::Finished,
    }
}

/// A step of opening an archive went well: it was done, or it found all files of an archive.
pub open spec fn open_step_good(step: OpenStep, outcome: StepOutcomeView) -> bool {
    if step == OpenStep::ProbeFiles {
        outcome matches StepOutcomeView::Found(files) && files.all()
    } else {
        outcome is Done
    }
}

/// What is said of a step that failed.
pub open spec fn open_failure(step: OpenStep, reason: Seq<char>) -> Seq<char> {
    match step {
        OpenStep::LocateFiles => UNLOCATED_DIR@ + reason,
        _ => reason,
    }
}

/// What follows a step of opening an archive. An outcome that the step cannot have leaves
/// everything as it is.
pub open spec fn open_next(step: OpenStep, outcome: StepOutcomeView) -> NextView<OpenStep> {
    if open_step_good(step, outcome) {
        after_open_step(step)
    } else {
        match outcome {
            StepOutcomeView::Failed(reason) => NextView::Failed(open_failure(step, reason)),
            StepOutcomeView::Found(files) if step == OpenStep::ProbeFiles => NextView::Failed(
                MISSING_STORE@,
            ),
            _ => NextView::Run(step),
        }
    }
}

/// How the opening of an archive starts: with the password.
pub open spec fn open_start(password: Seq<char>) -> NextView<OpenStep> {
    match password_verdict(password) {
        Ok(()) => NextView::Run(OpenStep::LocateFiles),
        Err(text) => NextView::Failed(text),
    }
}

/// Starts to open an archive: refuses a password that is too short.
pub fn open_existing_store(password: &str) -> (r: Next<OpenStep>)
    ensures
        r@ == open_start(password@),
        password@.len() >= 12 ==> r matches Next::Run(OpenStep::LocateFiles),
        password@.len() < 12 ==> (r matches Next::Failed(text) && text@ == SHORT_PASSWORD@),
{
    match validate_password(password) {
        Ok(()) => Next::Run(OpenStep::LocateFiles),
        Err(text) => Next::Failed(text),
    }
}

/// What follows a step of opening an archive.
pub fn advance_opening(step: OpenStep, outcome: StepOutcome) -> (r: Next<OpenStep>)
    ensures
        r@ == open_next(step, outcome@),
        match outcome {
            StepOutcome::Failed(reason) => {
                &&& r matches Next::Failed(text)
                &&& text@ == if step is LocateFiles {
                    UNLOCATED_DIR@ + reason@
                } else {
                    reason@
                }
            },
            StepOutcome::Done => r is Finished <==> step == OpenStep::Open(Database::Identities),
            StepOutcome::Found(files) => {
                &&& !(r is Finished)
                &&& r is Failed <==> step is ProbeFiles && !(files.data && files.identities
                    && files.keys)
            },
        },
{
    match outcome {
        StepOutcome::Done => match step {
            OpenStep::LocateFiles => Next::Run(OpenStep::ProbeFiles),
            OpenStep::ProbeFiles => Next::Run(OpenStep::ProbeFiles),
            OpenStep::ReadEnvelope => Next::Run(OpenStep::UnlockKeys),
            OpenStep::UnlockKeys => Next::Run(OpenStep::Open(Database::Data)),
            OpenStep::Open(Database::Data) => Next::Run(OpenStep::Open(Database::Identities)),
            OpenStep::Open(Database::Identities) => Next::Finished,
        },
        StepOutcome::Found(files) => match step {
            OpenStep::ProbeFiles => {
                if !files.data || !files.identities || !files.keys {
                    Next::Failed(MISSING_STORE.to_owned())
                } else {
                    Next::Run(OpenStep::ReadEnvelope)
                }
            },
            _ => Next::Run(step),
        },
        StepOutcome::Failed(reason) => match step {
            OpenStep::LocateFiles => Next::Failed(joined(UNLOCATED_DIR, reason.as_str())),
            _ => Next::Failed(reason),
        },
    }
}

/// Whether there is an archive decides what can be done: where there is none one can be made, a
/// whole one can be opened, and where some files are missing neither can be done.
pub proof fn lemma_existence_decides(files: FilesPresent)
    ensures
        existence(Ok(files)) == Ok::<bool, Seq<char>>(false) <==> create_step_good(
            CreateStep::ProbeFiles,
            StepOutcomeView::Found(files),
        ),
        existence(Ok(files)) == Ok::<bool, Seq<char>>(true) <==> open_step_good(
            OpenStep::ProbeFiles,
            StepOutcomeView::Found(files),
        ),
        existence(Ok(files)) is Err ==> {
            &&& create_next(CreateStep::ProbeFiles, StepOutcomeView::Found(files)) == (
            CreateNextView::Failed { text: EXISTING_STORE@, cleanup: false })
            &&& open_next(OpenStep::ProbeFiles, StepOutcomeView::Found(files)) == NextView::<
                OpenStep,
            >::Failed(MISSING_STORE@)
        },
{
}

/// Where the opening of an archive stands after some outcomes; outcomes after the end change
/// nothing.
pub open spec fn open_run(password: Seq<char>, outcomes: Seq<StepOutcomeView>) -> NextView<OpenStep>
    decreases outcomes.len(),
{
    if outcomes.len() == 0 {
        open_start(password)
    } else {
        match open_run(password, outcomes.drop_last()) {
            NextView::Run(step) => open_next(step, outcomes.last()),
            end => end,
        }
    }
}

/// Among the outcomes is that of `step`, and it went well.
pub open spec fn open_passed(
    password: Seq<char>,
    outcomes: Seq<StepOutcomeView>,
    step: OpenStep,
) -> bool {
    exists|k: int|
        0 <= k < outcomes.len() && #[trigger] open_run(password, outcomes.take(k)) == NextView::Run(
            step,
        ) && open_step_good(step, outcomes[k])
}

/// With a password that is long enough, the opening of an archive starts, and as long as all goes
/// well it waits for these six steps one after another, and is done after the last. A step that
/// fails ends it with the reason of the step, after what could not be done if that was to find the
/// directory. A file that is missing ends it too. An outcome that the step cannot have is passed
/// over.
pub proof fn lemma_opening_goes_step_by_step(
    password: Seq<char>,
    outcomes: Seq<StepOutcomeView>,
    reason: Seq<char>,
    files: FilesPresent,
)
    requires
        password.len() >= 12,
        outcomes.len() <= 6,
        forall|i: int|
            0 <= i < outcomes.len() ==> #[trigger] outcomes[i] == if i == 1 {
                StepOutcomeView::Found(FilesPresent { data: true, identities: true, keys: true })
            } else {
                StepOutcomeView::Done
            },
    ensures
        outcomes.len() == 6 ==> open_run(password, outcomes) is Finished,
        outcomes.len() < 6 ==> {
            let waiting = NextView::Run(
                seq![
                    OpenStep::LocateFiles,
                    OpenStep::ProbeFiles,
                    OpenStep::ReadEnvelope,
                    OpenStep::UnlockKeys,
                    OpenStep::Open(Database::Data),
                    OpenStep::Open(Database::Identities),
                ][outcomes.len() as int],
            );
            let found = open_run(password, outcomes.push(StepOutcomeView::Found(files)));
            &&& open_run(password, outcomes) == waiting
            &&& open_run(password, outcomes.push(StepOutcomeView::Failed(reason))) == NextView::<
                OpenStep,
            >::Failed(
                if outcomes.len() == 0 {
                    UNLOCATED_DIR@ + reason
                } else {
                    reason
                },
            )
            &&& outcomes.len() != 1 ==> found == waiting
            &&& outcomes.len() == 1 && (!files.data || !files.identities || !files.keys) ==> found
                == NextView::<OpenStep>::Failed(MISSING_STORE@)
            &&& outcomes.len() == 1 ==> open_run(password, outcomes.push(StepOutcomeView::Done))
                == waiting
        },
    decreases outcomes.len(),
{
    if outcomes.len() > 0 {
        lemma_opening_goes_step_by_step(password, outcomes.drop_last(), reason, files);
        assert(outcomes.drop_last().push(outcomes.last()) =~= outcomes);
    }
    assert(outcomes.push(StepOutcomeView::Failed(reason)).drop_last() =~= outcomes);
    assert(outcomes.push(StepOutcomeView::Found(files)).drop_last() =~= outcomes);
    assert(outcomes.push(StepOutcomeView::Done).drop_last() =~= outcomes);
}

/// Once the opening of an archive has ended, nothing that is told changes how.
pub proof fn lemma_opening_ends_once(
    password: Seq<char>,
    outcomes: Seq<StepOutcomeView>,
    outcome: StepOutcomeView,
)
    requires
        !(open_run(password, outcomes) is Run),
    ensures
        open_run(password, outcomes.push(outcome)) == open_run(password, outcomes),
{
    assert(outcomes.push(outcome).drop_last() =~= outcomes);
}

/// The opening of an archive takes its steps in their order, and ends well just after every step
/// went well: no database is opened before the password has unlocked its key.
pub proof fn lemma_open_existing_store(password: Seq<char>, outcomes: Seq<StepOutcomeView>)
    ensures
        match open_run(password, outcomes) {
            NextView::Run(step) => forall|earlier: OpenStep|
                open_position(earlier) < open_position(step) ==> open_passed(
                    password,
                    outcomes,
                    earlier,
                ),
            NextView::Finished => forall|step: OpenStep| open_passed(password, outcomes, step),
            NextView::Failed(_) => true,
        },
        password.len() < MIN_PASSWORD_LEN ==> open_run(password, outcomes) == NextView::<
            OpenStep,
        >::Failed(SHORT_PASSWORD@),
    decreases outcomes.len(),
{
    if outcomes.len() > 0 {
        let before = outcomes.drop_last();
        let last = before.len() as int;
        lemma_open_existing_store(password, before);
        assert(outcomes.take(last) =~= before);
        assert forall|step: OpenStep|
            open_passed(password, before, step) implies #[trigger] open_passed(
            password,
            outcomes,
            step,
        ) by {
            let k = choose|k: int|
                0 <= k < last && #[trigger] open_run(password, before.take(k)) == NextView::Run(
                    step,
                ) && open_step_good(step, before[k]);
            assert(outcomes.take(k) =~= before.take(k));
            assert(open_run(password, outcomes.take(k)) == NextView::Run(step));
        }
        if let NextView::Run(step) = open_run(password, before) {
            assert(open_run(password, outcomes.take(last)) == NextView::Run(step));
            if open_step_good(step, outcomes.last()) {
                assert(open_passed(password, outcomes, step));
                assert forall|earlier: OpenStep|
                    open_position(earlier) <= open_position(step) implies open_passed(
                    password,
                    outcomes,
                    earlier,
                ) by {
                    if earlier != step {
                        assert(open_position(earlier) != open_position(step));
                        assert(open_passed(password, before, earlier));
                    }
                }
            }
        }
    }
}

}
