use vstd::prelude::*;
use vstd::string::StrSliceExecFns;

use crate::error::PasswordError;

verus! {

/// The number of master password attempts that one invocation allows.
pub const MAX_ATTEMPTS: u32 = 3;

/// Where the unlocking of a password file stands between two interactions
/// with the user: attempts left, whether the user agreed to upgrade a legacy
/// file, and whether the previous attempt failed on a wrong password.
#[derive(Clone, Copy, Debug, PartialEq, Eq, Structural)]
pub struct UnlockState {
    pub retries: u32,
    pub force_upgrade: bool,
    pub retry: bool,
}

/// What the driver of the unlock protocol does next.
#[derive(Clone, Copy, Debug, PartialEq, Eq, Structural)]
pub enum UnlockStep {
    /// Ask for the master password again, from this state.
    Continue(UnlockState),
    /// Warn about the legacy format and ask whether to upgrade it.
    AskUpgrade,
    /// The answer was neither yes nor no: ask the question again.
    AskUpgradeAgain,
    /// The store is open.
    Opened,
    /// Unlocking stops with this error.
    Failed(PasswordError),
}

/// What to do with the result of reading the file as the current format.
#[derive(Clone, Copy, Debug, PartialEq, Eq, Structural)]
pub enum FirstDecode {
    /// The store is open.
    Opened,
    /// Read the file again as a legacy file and upgrade it.
    Upgrade,
    /// Reading stops with this error.
    Failed(PasswordError),
}

/// Errors after which a new password attempt is of no use.
pub open spec fn is_terminal(e: PasswordError) -> bool {
    e == PasswordError::Corruption || e == PasswordError::OutdatedBinary || e == PasswordError::Io
}

/// Whether the first character of `line` is `c`.
pub open spec fn starts_with(line: Seq<char>, c: char) -> bool {
    line.len() > 0 && line[0] == c
}

/// Something the user or the file decoder reported to the unlock protocol.
pub enum UnlockEvent {
    /// The result of reading the file under the master password just typed.
    Decoded(Result<(), PasswordError>),
    /// The line typed in answer to the upgrade question.
    UpgradeAnswer(String),
}

impl UnlockState {
    /// The state before the first attempt, with `retries` attempts allowed.
    pub fn new(retries: u32) -> (s: UnlockState)
        ensures
            s == (UnlockState { retries, force_upgrade: false, retry: false }),
    {
        UnlockState { retries, force_upgrade: false, retry: false }
    }
}

/// Before asking for the master password: fails with `CorruptionLikely` once no
/// attempt is left, and otherwise says whether to tell the user first that the
/// previous password was wrong.
pub fn ask_master_password(state: &UnlockState) -> (r: Result<bool, PasswordError>)
    ensures
        state.retries == 0 ==> r == Err::<bool, PasswordError>(PasswordError::CorruptionLikely),
        state.retries > 0 ==> r == Ok::<bool, PasswordError>(state.retry),
{
    if state.retries == 0 {
        Err(PasswordError::CorruptionLikely)
    } else {
        Ok(state.retry)
    }
}

/// The next step of the unlock protocol. After an attempt: the store opened,
/// a terminal error stops, a legacy file asks for consent, and any other
/// failure uses up one attempt (with none left, `CorruptionLikely`). After an
/// answer to the upgrade question: one that starts with `y` tries again with
/// the upgrade allowed and without using up an attempt, one that starts with
/// `n` fails with `NoUpgrade`, any other asks again.
pub fn get_password_store_from_input_interactive(state: &UnlockState, event: &UnlockEvent) -> (step:
    UnlockStep)
    ensures
        *event matches UnlockEvent::Decoded(outcome) ==> {
            &&& outcome is Ok ==> step == UnlockStep::Opened
            &&& outcome matches Err(e) ==> (is_terminal(e) ==> step == UnlockStep::Failed(e))
            &&& outcome == Err::<(), PasswordError>(PasswordError::NeedUpgradeFromV1) ==> step
                == UnlockStep::AskUpgrade
            &&& outcome matches Err(e) ==> (!is_terminal(e) && e != PasswordError::NeedUpgradeFromV1
                ==> step == if state.retries == 0 {
                UnlockStep::Failed(PasswordError::CorruptionLikely)
            } else {
                UnlockStep::Continue(
                    (UnlockState {
                        retries: (state.retries - 1) as u32,
                        force_upgrade: false,
                        retry: true,
                    }),
                )
            })
        },
        *event matches UnlockEvent::UpgradeAnswer(line) ==> {
            &&& starts_with(line@, 'y') ==> step == UnlockStep::Continue(
                (UnlockState { retries: state.retries, force_upgrade: true, retry: false }),
            )
            &&& starts_with(line@, 'n') ==> step == UnlockStep::Failed(PasswordError::NoUpgrade)
            &&& !starts_with(line@, 'y') && !starts_with(line@, 'n') ==> step
                == UnlockStep::AskUpgradeAgain
        },
{
    match event {
        UnlockEvent::Decoded(outcome) => match outcome {
            Ok(()) => UnlockStep::Opened,
            Err(PasswordError::Corruption) => UnlockStep::Failed(PasswordError::Corruption),
            Err(PasswordError::OutdatedBinary) => UnlockStep::Failed(PasswordError::OutdatedBinary),
            Err(PasswordError::Io) => UnlockStep::Failed(PasswordError::Io),
            Err(PasswordError::NeedUpgradeFromV1) => UnlockStep::AskUpgrade,
            Err(_) => {
                if state.retries == 0 {
                    UnlockStep::Failed(PasswordError::CorruptionLikely)
                } else {
                    UnlockStep::Continue(
                        UnlockState { retries: state.retries - 1, force_upgrade: false, retry: true },
                    )
                }
            },
        },
        UnlockEvent::UpgradeAnswer(line) => {
            let l = line.as_str();
            if l.unicode_len() == 0 {
                return UnlockStep::AskUpgradeAgain;
            }
            let c = l.get_char(0);
            if c == 'y' {
                UnlockStep::Continue(
                    UnlockState { retries: state.retries, force_upgrade: true, retry: false },
                )
            } else if c == 'n' {
                UnlockStep::Failed(PasswordError::NoUpgrade)
            } else {
                UnlockStep::AskUpgradeAgain
            }
        },
    }
}

/// Decides what follows reading a file as the current format: a legacy file is
/// upgraded only when `upgrade` is set, every other result is final.
pub fn get_password_store_from_input(first: Result<(), PasswordError>, upgrade: bool) -> (r:
    FirstDecode)
    ensures
        first is Ok ==> r == FirstDecode::Opened,
        first == Err::<(), PasswordError>(PasswordError::NeedUpgradeFromV1) ==> r == (if upgrade {
            FirstDecode::Upgrade
        } else {
            FirstDecode::Failed(PasswordError::NeedUpgradeFromV1)
        }),
        first matches Err(e) ==> (e != PasswordError::NeedUpgradeFromV1 ==> r == FirstDecode::Failed(e)),
{
    match first {
        Ok(()) => FirstDecode::Opened,
        Err(PasswordError::NeedUpgradeFromV1) => {
            if upgrade {
                FirstDecode::Upgrade
            } else {
                FirstDecode::Failed(PasswordError::NeedUpgradeFromV1)
            }
        },
        Err(e) => FirstDecode::Failed(e),
    }
}

} // verus!
