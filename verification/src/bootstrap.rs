//! The first start: making the key file, an empty vault and a migrated database.
//!
//! Nothing that exists is overwritten, and a failure leaves nothing behind: what
//! was made is removed again. [`InitRun`] says what to do next; the files are
//! written around it.

use crate::error::DaemonError;
use vstd::prelude::*;

verus! {

/// How many random bytes one draw gives.
pub const NONCE_LEN: usize = 24;

/// How long a key is.
pub const KEY_LEN: usize = 32;

/// A key from two draws of random bytes: the first, and as much of the second as is
/// missing.
pub fn master_key(first: &[u8], second: &[u8]) -> (key: Vec<u8>)
    requires
        first@.len() == NONCE_LEN,
        second@.len() == NONCE_LEN,
    ensures
        key@ == first@ + second@.take(KEY_LEN - NONCE_LEN),
        key@.len() == KEY_LEN,
{
    let mut key: Vec<u8> = Vec::new();
    let mut i: usize = 0;
    while i < KEY_LEN
        invariant
            i <= KEY_LEN,
            first@.len() == NONCE_LEN,
            second@.len() == NONCE_LEN,
            key@ == (first@ + second@).take(i as int),
        decreases KEY_LEN - i,
    {
        if i < NONCE_LEN {
            key.push(first[i]);
        } else {
            key.push(second[i - NONCE_LEN]);
        }
        i = i + 1;
    }
    assert(key@ =~= first@ + second@.take(KEY_LEN - NONCE_LEN));
    key
}

/// The key in the contents of a key file: all of them, if they are as long as a key.
pub fn key_in(contents: Vec<u8>) -> (key: Result<Vec<u8>, DaemonError>)
    ensures
        key == if contents@.len() == KEY_LEN {
            Ok(contents)
        } else {
            Err(DaemonError::Boot)
        },
{
    if contents.len() == KEY_LEN {
        Ok(contents)
    } else {
        Err(DaemonError::Boot)
    }
}

/// A file of the first start.
#[derive(Clone, Copy, Debug, PartialEq, Eq, Structural)]
pub enum InitFile {
    Keyfile,
    Vault,
    Db,
}

/// What is to be done next.
#[derive(Clone, Copy, Debug, PartialEq, Eq, Structural)]
pub enum InitAction {
    /// Make the key file, for its owner alone, and fail if there is one.
    CreateKeyfile,
    /// Write the key into it.
    FillKeyfile,
    /// Write an empty vault under the key.
    WriteVault,
    /// Make the database.
    OpenDb,
    /// Migrate the database.
    Migrate,
    /// Remove a file if it is there.
    Remove(InitFile),
    /// Report success.
    Finish,
    /// Report the failure.
    Fail(DaemonError),
}

/// The mode of the key file.
pub const KEYFILE_MODE: u32 = 0o600;

/// A first start under way: the action whose outcome it waits for.
#[derive(Clone, Copy, Debug, PartialEq, Eq, Structural)]
pub struct InitRun {
    pub action: InitAction,
}

/// What follows on the outcome of an action. From the moment the key file was made,
/// a failure leads through the removal of all three files.
pub open spec fn after_action(action: InitAction, ok: bool) -> InitAction {
    match action {
        InitAction::CreateKeyfile => if ok {
            InitAction::FillKeyfile
        } else {
            InitAction::Fail(DaemonError::Boot)
        },
        InitAction::FillKeyfile => if ok {
            InitAction::WriteVault
        } else {
            InitAction::Remove(InitFile::Db)
        },
        InitAction::WriteVault => if ok {
            InitAction::OpenDb
        } else {
            InitAction::Remove(InitFile::Db)
        },
        InitAction::OpenDb => if ok {
            InitAction::Migrate
        } else {
            InitAction::Remove(InitFile::Db)
        },
        InitAction::Migrate => if ok {
            InitAction::Finish
        } else {
            InitAction::Remove(InitFile::Db)
        },
        InitAction::Remove(InitFile::Db) => InitAction::Remove(InitFile::Vault),
        InitAction::Remove(InitFile::Vault) => InitAction::Remove(InitFile::Keyfile),
        InitAction::Remove(InitFile::Keyfile) => InitAction::Fail(DaemonError::Boot),
        InitAction::Finish => InitAction::Finish,
        InitAction::Fail(e) => InitAction::Fail(e),
    }
}

/// Starts making the files, unless one of them exists already.
pub fn init(keyfile_exists: bool, vault_exists: bool, db_exists: bool) -> (run: InitRun)
    ensures
        run.action == if keyfile_exists || vault_exists || db_exists {
            InitAction::Fail(DaemonError::Boot)
        } else {
            InitAction::CreateKeyfile
        },
{
    if keyfile_exists || vault_exists || db_exists {
        InitRun { action: InitAction::Fail(DaemonError::Boot) }
    } else {
        InitRun { action: InitAction::CreateKeyfile }
    }
}

impl InitRun {
    /// Takes the outcome of the last action and moves to the next.
    pub fn advance(&mut self, ok: bool)
        ensures
            final(self).action == after_action(old(self).action, ok),
    {
        self.action =
            match self.action {
                InitAction::CreateKeyfile => if ok {
                    InitAction::FillKeyfile
                } else {
                    InitAction::Fail(DaemonError::Boot)
                },
                InitAction::FillKeyfile => if ok {
                    InitAction::WriteVault
                } else {
                    InitAction::Remove(InitFile::Db)
                },
                InitAction::WriteVault => if ok {
                    InitAction::OpenDb
                } else {
                    InitAction::Remove(InitFile::Db)
                },
                InitAction::OpenDb => if ok {
                    InitAction::Migrate
                } else {
                    InitAction::Remove(InitFile::Db)
                },
                InitAction::Migrate => if ok {
                    InitAction::Finish
                } else {
                    InitAction::Remove(InitFile::Db)
                },
                InitAction::Remove(InitFile::Db) => InitAction::Remove(InitFile::Vault),
                InitAction::Remove(InitFile::Vault) => InitAction::Remove(InitFile::Keyfile),
                InitAction::Remove(InitFile::Keyfile) => InitAction::Fail(DaemonError::Boot),
                InitAction::Finish => InitAction::Finish,
                InitAction::Fail(e) => InitAction::Fail(e),
            };
    }
}

/// The actions of a first start, from the first one on, with the outcome of each.
pub open spec fn actions(first: InitAction, outcomes: Seq<bool>) -> Seq<InitAction>
    decreases outcomes.len(),
{
    if outcomes.len() == 0 {
        seq![first]
    } else {
        let before = actions(first, outcomes.drop_last());
        before.push(after_action(before.last(), outcomes.last()))
    }
}

/// Whether an action makes or fills one of the files.
pub open spec fn writes(action: InitAction) -> bool {
    match action {
        InitAction::FillKeyfile
        | InitAction::WriteVault
        | InitAction::OpenDb
        | InitAction::Migrate => true,
        _ => false,
    }
}

/// A first start that fails after it made the key file has removed all three files,
/// and wrote nothing after the first removal.
pub proof fn failure_leaves_nothing_behind(outcomes: Seq<bool>)
    requires
        actions(InitAction::CreateKeyfile, outcomes).last() is Fail,
        exists|i: int|
            0 <= i <= outcomes.len() && writes(
                #[trigger] actions(InitAction::CreateKeyfile, outcomes)[i],
            ),
    ensures
        actions(InitAction::CreateKeyfile, outcomes).contains(InitAction::Remove(InitFile::Keyfile)),
        actions(InitAction::CreateKeyfile, outcomes).contains(InitAction::Remove(InitFile::Vault)),
        actions(InitAction::CreateKeyfile, outcomes).contains(InitAction::Remove(InitFile::Db)),
        forall|i: int, j: int|
            0 <= i <= j <= outcomes.len() && (#[trigger] actions(
                InitAction::CreateKeyfile,
                outcomes,
            )[i]) is Remove ==> !writes(
                #[trigger] actions(InitAction::CreateKeyfile, outcomes)[j],
            ) && actions(InitAction::CreateKeyfile, outcomes)[j] !is CreateKeyfile,
{
    lemma_actions(outcomes);
}

/// Whether `removed` was among the actions.
spec fn removed(all: Seq<InitAction>, file: InitFile) -> bool {
    all.contains(InitAction::Remove(file))
}

/// Whether an action comes once the removals began, or after them.
spec fn winding_up(action: InitAction) -> bool {
    action is Remove || action is Fail
}

proof fn lemma_actions(outcomes: Seq<bool>)
    ensures
        ({
            let all = actions(InitAction::CreateKeyfile, outcomes);
            &&& all.len() == outcomes.len() + 1
            &&& all.last() == InitAction::Remove(InitFile::Vault) ==> removed(all, InitFile::Db)
            &&& all.last() == InitAction::Remove(InitFile::Keyfile) ==> removed(all, InitFile::Db)
                && removed(all, InitFile::Vault)
            &&& all.last() is Fail ==> (removed(all, InitFile::Db) && removed(all, InitFile::Vault)
                && removed(all, InitFile::Keyfile)) || forall|i: int|
                0 <= i < all.len() ==> !writes(#[trigger] all[i])
            &&& all.last() == InitAction::CreateKeyfile ==> all.len() == 1
            &&& forall|i: int, j: int|
                0 <= i <= j < all.len() && winding_up(#[trigger] all[i]) ==> winding_up(
                    #[trigger] all[j],
                )
        }),
    decreases outcomes.len(),
{
    if outcomes.len() > 0 {
        lemma_actions(outcomes.drop_last());
        let before = actions(InitAction::CreateKeyfile, outcomes.drop_last());
        let all = actions(InitAction::CreateKeyfile, outcomes);
        assert(all[before.len() - 1] == before.last());
        assert forall|f: InitFile| removed(before, f) implies #[trigger] removed(all, f) by {
            let i = choose|i: int| 0 <= i < before.len() && before[i] == InitAction::Remove(f);
            assert(all[i] == InitAction::Remove(f));
        }
        assert(forall|i: int| 0 <= i < before.len() ==> all[i] == before[i]);
        assert forall|i: int, j: int|
            0 <= i <= j < all.len() && winding_up(#[trigger] all[i]) implies winding_up(
            #[trigger] all[j],
        ) by {
            if j == before.len() && i < before.len() {
                assert(winding_up(before[i]));
                assert(winding_up(before[before.len() - 1]));
            } else if j < before.len() {
                assert(winding_up(before[i]));
                assert(winding_up(before[j]));
            }
        }
    }
}

/// A first start that goes well makes the key file, fills it, writes the vault, makes the
/// database and migrates it, in this order, and then reports success.
pub proof fn first_start_makes_everything_in_order()
    ensures
        actions(InitAction::CreateKeyfile, seq![true, true, true, true, true]) == seq![
            InitAction::CreateKeyfile,
            InitAction::FillKeyfile,
            InitAction::WriteVault,
            InitAction::OpenDb,
            InitAction::Migrate,
            InitAction::Finish,
        ],
{
    let five = seq![true, true, true, true, true];
    let four = five.drop_last();
    let three = four.drop_last();
    let two = three.drop_last();
    let one = two.drop_last();
    assert(one.drop_last() =~= Seq::<bool>::empty());
    assert(actions(InitAction::CreateKeyfile, one.drop_last()) =~= seq![InitAction::CreateKeyfile]);
    assert(actions(InitAction::CreateKeyfile, one) =~= seq![
        InitAction::CreateKeyfile,
        InitAction::FillKeyfile,
    ]);
    assert(actions(InitAction::CreateKeyfile, two) =~= seq![
        InitAction::CreateKeyfile,
        InitAction::FillKeyfile,
        InitAction::WriteVault,
    ]);
    assert(actions(InitAction::CreateKeyfile, three) =~= seq![
        InitAction::CreateKeyfile,
        InitAction::FillKeyfile,
        InitAction::WriteVault,
        InitAction::OpenDb,
    ]);
    assert(actions(InitAction::CreateKeyfile, four) =~= seq![
        InitAction::CreateKeyfile,
        InitAction::FillKeyfile,
        InitAction::WriteVault,
        InitAction::OpenDb,
        InitAction::Migrate,
    ]);
}

/// Success is reported exactly after a migration that went well, and a failure where the
/// key file could not be made or was removed again.
pub proof fn start_ends_after_migration_or_removal(action: InitAction, ok: bool)
    requires
        !(action is Finish) && !(action is Fail),
    ensures
        after_action(action, ok) is Finish <==> action == InitAction::Migrate && ok,
        after_action(action, ok) is Fail <==> (action == InitAction::CreateKeyfile && !ok) || action
            == InitAction::Remove(InitFile::Keyfile),
        after_action(action, ok) matches InitAction::Fail(e) ==> e == DaemonError::Boot,
{
}

/// A step that fails once the key file was made is followed by the removals, whatever
/// comes of each: of the database, of the vault and of the key file.
pub proof fn failed_step_is_followed_by_the_removals(action: InitAction, ok: bool)
    ensures
        action == InitAction::FillKeyfile || action == InitAction::WriteVault || action
            == InitAction::OpenDb || action == InitAction::Migrate ==> after_action(action, false)
            == InitAction::Remove(InitFile::Db),
        after_action(InitAction::Remove(InitFile::Db), ok) == InitAction::Remove(InitFile::Vault),
        after_action(InitAction::Remove(InitFile::Vault), ok) == InitAction::Remove(
            InitFile::Keyfile,
        ),
        after_action(InitAction::Finish, ok) == InitAction::Finish,
        after_action(InitAction::Fail(DaemonError::Boot), ok) == InitAction::Fail(DaemonError::Boot),
{
}

/// A draw gives twenty-four bytes, a key has thirty-two, and the key file is for its owner
/// alone to read and write.
pub proof fn key_sizes_and_mode()
    ensures
        NONCE_LEN == 24,
        KEY_LEN == 32,
        KEYFILE_MODE == 0o600,
{
}

} // verus!
