//! The store's decisions around its database.
//!
//! The database itself is reached asynchronously by the caller; each function
//! here takes what the database answered and says what happens next. The
//! order of work for an insert is: `check_location_insert`, write the row,
//! `after_location_write`, and, only when that asks for it, read the row
//! stored under the same key and `after_original_read`.
use vstd::prelude::*;
use vstd::string::StringExecFns;

use crate::schema::{Location, SanityCheck, User, ValidationError};
use crate::time::UtcTime;

verus! {

/// Where the database lives and how many backups are kept beside it.
#[derive(Clone, Debug)]
pub struct Config {
    /// Path of the database file.
    pub path: String,
    /// Keep this many most recent backups.
    pub backups: usize,
}

/// How long a connection waits for the database's write lock before it
/// reports the database busy, in seconds. Many writers at once queue on that
/// lock, so the wait is long.
pub const BUSY_TIMEOUT_SECS: u64 = 60;

/// Most attempts at one write while the database answers that it is busy.
pub const BUSY_ATTEMPTS: u32 = 8;

/// Pause after the first busy answer, in milliseconds; each further pause
/// doubles.
pub const BUSY_BACKOFF_MS: u64 = 50;

/// `2` to the power `n`.
pub open spec fn doubling(n: nat) -> nat
    decreases n,
{
    if n == 0 {
        1
    } else {
        2 * doubling((n - 1) as nat)
    }
}

/// The pause before trying a write again after its attempt number `attempt`
/// (counted from 0) found the database busy, or `None` where that was the
/// last attempt allowed.
pub fn busy_retry_delay(attempt: u32) -> (r: Option<u64>)
    ensures
        attempt + 1 < BUSY_ATTEMPTS ==> r == Some((BUSY_BACKOFF_MS * doubling(attempt as nat)) as u64),
        attempt + 1 >= BUSY_ATTEMPTS ==> r is None,
{
    if attempt >= BUSY_ATTEMPTS - 1 {
        return None;
    }
    let mut delay: u64 = BUSY_BACKOFF_MS;
    let mut i: u32 = 0;
    while i < attempt
        invariant
            i <= attempt,
            attempt + 1 < BUSY_ATTEMPTS,
            delay == BUSY_BACKOFF_MS * doubling(i as nat),
            delay <= BUSY_BACKOFF_MS * 64,
        decreases attempt - i,
    {
        proof {
            assert(doubling((i + 1) as nat) == 2 * doubling(i as nat));
            lemma_doubling_bound(i as nat);
        }
        delay = delay * 2;
        i = i + 1;
    }
    Some(delay)
}

proof fn lemma_doubling_bound(n: nat)
    requires
        n < 6,
    ensures
        doubling(n) <= 32,
{
    reveal_with_fuel(doubling, 7);
}

impl Config {
    /// The address the database is opened at; `mode=rwc` creates the file
    /// where it is missing.
    pub fn connection_url(&self) -> (r: String)
        ensures
            r@ == "sqlite://"@ + self.path@ + "?mode=rwc"@,
    {
        let mut s = String::from_str("sqlite://");
        s.append(self.path.as_str());
        s.append("?mode=rwc");
        s
    }
}

/// Summary of one user's data.
#[derive(Clone, Debug)]
pub struct UserInfo {
    pub username: String,
    /// Number of locations stored for the user.
    pub location_count: u64,
    /// Time of the user's latest location, if there is one.
    pub last_seen: Option<UtcTime>,
}

/// What the database answered to a request to write one row.
#[derive(Clone, Debug)]
pub enum WriteOutcome {
    /// The row was written.
    Written,
    /// A row with the same key is already stored; nothing was written.
    DuplicateKey,
    /// The row names a user that does not exist; nothing was written.
    UnknownUser,
    /// Any other failure, with the database's own words.
    Failed(String),
}

/// Why a store operation failed.
#[derive(Clone, Debug)]
pub enum StoreError {
    /// The record broke a validation rule and was not sent to the database.
    Invalid(ValidationError),
    /// A location with the same user and time is stored, and differs in
    /// some other field. The stored row is left as it was.
    Conflict { original: Location, received: Location },
    /// The named user does not exist.
    UnknownUser(String),
    /// The named user exists already.
    UserExists(String),
    /// The database refused a row for a duplicate key but then had no row
    /// under that key.
    OriginalMissing,
    /// The database failed, with its own words. Only this kind may be
    /// transient and worth a retry.
    Storage(String),
}

impl StoreError {
    /// A one-line description of the kind of failure.
    pub fn summary(&self) -> (r: &'static str)
        ensures
            self is Conflict ==> r@
                == "Received user/time info that is duplicated, but other fields differ."@,
            self is UnknownUser ==> r@ == "User does not exist in the database."@,
            self is UserExists ==> r@ == "User already exists in the database."@,
            self is Invalid ==> r@ == "Received a record that breaks a validation rule."@,
            self is OriginalMissing ==> r@
                == "Got unique constraint violation but couldn't find the original."@,
            self is Storage ==> r@ == "The database failed."@,
    {
        match self {
            StoreError::Invalid(_) => "Received a record that breaks a validation rule.",
            StoreError::Conflict { .. } => "Received user/time info that is duplicated, but other fields differ.",
            StoreError::UnknownUser(_) => "User does not exist in the database.",
            StoreError::UserExists(_) => "User already exists in the database.",
            StoreError::OriginalMissing => "Got unique constraint violation but couldn't find the original.",
            StoreError::Storage(_) => "The database failed.",
        }
    }
}

/// What an insert does after the database has answered the write.
#[derive(Debug)]
pub enum InsertStep {
    /// The insert is over, with this result: `Ok(true)` for a new row,
    /// `Ok(false)` for an exact duplicate of a stored one.
    Done(Result<bool, StoreError>),
    /// Read the stored row with the same key and call `after_original_read`.
    ReadOriginal,
}

/// The step that follows a write answered with `outcome`.
pub open spec fn write_step(loc: Location, outcome: WriteOutcome) -> InsertStep {
    match outcome {
        WriteOutcome::Written => InsertStep::Done(Ok(true)),
        WriteOutcome::DuplicateKey => InsertStep::ReadOriginal,
        WriteOutcome::UnknownUser => InsertStep::Done(Err(StoreError::UnknownUser(loc.username))),
        WriteOutcome::Failed(msg) => InsertStep::Done(Err(StoreError::Storage(msg))),
    }
}

/// The result of an insert whose key was taken, given the stored row.
pub open spec fn duplicate_result(loc: Location, original: Option<Location>) -> Result<bool, StoreError> {
    match original {
        Some(o) => if o.same_as(loc) {
            Ok(false)
        } else {
            Err(StoreError::Conflict { original: o, received: loc })
        },
        None => Err(StoreError::OriginalMissing),
    }
}

/// The check that comes before any write of a location: the record is
/// validated, and a broken rule ends the insert.
pub fn check_location_insert(loc: &Location) -> (r: Result<(), StoreError>)
    ensures
        r is Ok <==> loc.valid(),
        !loc.valid() ==> r == Err::<(), StoreError>(StoreError::Invalid(loc.check()->Err_0)),
{
    match loc.sanity_check() {
        Ok(()) => Ok(()),
        Err(e) => Err(StoreError::Invalid(e)),
    }
}

/// What follows the database's answer to the write of `loc`.
pub fn after_location_write(loc: &Location, outcome: WriteOutcome) -> (r: InsertStep)
    ensures
        r == write_step(*loc, outcome),
{
    match outcome {
        WriteOutcome::Written => InsertStep::Done(Ok(true)),
        WriteOutcome::DuplicateKey => InsertStep::ReadOriginal,
        WriteOutcome::UnknownUser => InsertStep::Done(Err(StoreError::UnknownUser(loc.username.clone()))),
        WriteOutcome::Failed(msg) => InsertStep::Done(Err(StoreError::Storage(msg))),
    }
}

/// The end of an insert whose key was taken: an identical stored row makes
/// it a no-op, a different one a conflict.
pub fn after_original_read(loc: Location, original: Option<Location>) -> (r: Result<bool, StoreError>)
    ensures
        r == duplicate_result(loc, original),
{
    match original {
        Some(o) => {
            if o.same_record(&loc) {
                Ok(false)
            } else {
                Err(StoreError::Conflict { original: o, received: loc })
            }
        },
        None => Err(StoreError::OriginalMissing),
    }
}

/// The check that comes before the write of a user row.
pub fn check_user_insert(user: &User) -> (r: Result<(), StoreError>)
    ensures
        r is Ok <==> user.check() is Ok,
        user.check() is Err ==> r == Err::<(), StoreError>(StoreError::Invalid(user.check()->Err_0)),
{
    match user.sanity_check() {
        Ok(()) => Ok(()),
        Err(e) => Err(StoreError::Invalid(e)),
    }
}

/// The result of writing a user row, given the database's answer.
pub fn after_user_write(user: &User, outcome: WriteOutcome) -> (r: Result<(), StoreError>)
    ensures
        outcome is Written ==> r is Ok,
        outcome is DuplicateKey ==> r == Err::<(), StoreError>(StoreError::UserExists(user.username)),
        outcome is UnknownUser ==> r == Err::<(), StoreError>(StoreError::UnknownUser(user.username)),
        outcome is Failed ==> r == Err::<(), StoreError>(StoreError::Storage(outcome->Failed_0)),
{
    match outcome {
        WriteOutcome::Written => Ok(()),
        WriteOutcome::DuplicateKey => Err(StoreError::UserExists(user.username.clone())),
        WriteOutcome::UnknownUser => Err(StoreError::UnknownUser(user.username.clone())),
        WriteOutcome::Failed(msg) => Err(StoreError::Storage(msg)),
    }
}

/// The answer to a login: true only where the user exists and the stored
/// password is exactly `password`. A stored row that breaks the user rules
/// is reported rather than compared.
pub fn check_password(stored: Option<User>, password: &str) -> (r: Result<bool, StoreError>)
    ensures
        match stored {
            None => r == Ok::<bool, StoreError>(false),
            Some(u) => match u.check() {
                Ok(()) => r == Ok::<bool, StoreError>(u.password@ == password@),
                Err(e) => r == Err::<bool, StoreError>(StoreError::Invalid(e)),
            },
        },
{
    match stored {
        None => Ok(false),
        Some(u) => {
            match u.sanity_check() {
                Ok(()) => {
                    let given = String::from_str(password);
                    Ok(u.password == given)
                },
                Err(e) => Err(StoreError::Invalid(e)),
            }
        },
    }
}

/// A count for one user may go ahead only where the user exists.
pub fn require_user(username: &str, found: bool) -> (r: Result<(), StoreError>)
    ensures
        r is Ok <==> found,
        !found ==> r is Err && r->Err_0 is UnknownUser && r->Err_0->UnknownUser_0@ == username@,
{
    if found {
        Ok(())
    } else {
        Err(StoreError::UnknownUser(String::from_str(username)))
    }
}

} // verus!
