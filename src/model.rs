//! What the store's operations mean, stated over a model of the database's
//! contents, and the laws that follow.
//!
//! The database is modelled by its two tables. Its constraints decide what it
//! answers to a write: the primary key `(username, time_utc)` refuses a second
//! row under a taken key, and the foreign key refuses a row for a user that
//! does not exist. An insert is then the chain of decisions in `crate::db`
//! run against those answers.
use vstd::prelude::*;

use crate::db::{duplicate_result, write_step, InsertStep, StoreError, WriteOutcome};
use crate::schema::Location;
use crate::time::UtcTime;

verus! {

/// The contents of the database: passwords by username, and locations by
/// their key.
pub struct StoreModel {
    pub users: Map<Seq<char>, Seq<char>>,
    pub rows: Map<(Seq<char>, UtcTime), Location>,
}

pub open spec fn owned_by(u: Seq<char>) -> spec_fn((Seq<char>, UtcTime)) -> bool {
    |k: (Seq<char>, UtcTime)| k.0 == u
}

pub open spec fn owned_by_any(us: Seq<Seq<char>>) -> spec_fn((Seq<char>, UtcTime)) -> bool {
    |k: (Seq<char>, UtcTime)| us.contains(k.0)
}

impl StoreModel {
    /// What the database keeps true: finitely many rows, each stored under
    /// its own key, valid, and belonging to an existing user.
    pub open spec fn wf(self) -> bool {
        &&& self.rows.dom().finite()
        &&& forall|k: (Seq<char>, UtcTime)|
            #[trigger] self.rows.contains_key(k) ==> self.rows[k].key() == k
                && self.users.contains_key(k.0) && self.rows[k].valid()
    }

    /// The database's answer to a write of `loc`.
    pub open spec fn write_answer(self, loc: Location) -> WriteOutcome {
        if self.rows.contains_key(loc.key()) {
            WriteOutcome::DuplicateKey
        } else if !self.users.contains_key(loc.username@) {
            WriteOutcome::UnknownUser
        } else {
            WriteOutcome::Written
        }
    }

    /// The database's answer to a read of the row under `loc`'s key.
    pub open spec fn read_answer(self, loc: Location) -> Option<Location> {
        if self.rows.contains_key(loc.key()) {
            Some(self.rows[loc.key()])
        } else {
            None
        }
    }

    /// The result of inserting `loc`: `check_location_insert`, then the write,
    /// `after_location_write`, and where it asks, the read and
    /// `after_original_read`.
    pub open spec fn insert_outcome(self, loc: Location) -> Result<bool, StoreError> {
        match loc.check() {
            Err(e) => Err(StoreError::Invalid(e)),
            Ok(_) => match write_step(loc, self.write_answer(loc)) {
                InsertStep::Done(r) => r,
                InsertStep::ReadOriginal => duplicate_result(loc, self.read_answer(loc)),
            },
        }
    }

    /// The contents after inserting `loc`: only a write that the database
    /// accepted changes them.
    pub open spec fn after_insert(self, loc: Location) -> StoreModel {
        if loc.valid() && self.write_answer(loc) is Written {
            StoreModel { users: self.users, rows: self.rows.insert(loc.key(), loc) }
        } else {
            self
        }
    }

    /// The contents after adding a user; a taken name changes nothing.
    pub open spec fn after_user_add(self, username: Seq<char>, password: Seq<char>) -> StoreModel {
        if self.users.contains_key(username) {
            self
        } else {
            StoreModel { users: self.users.insert(username, password), rows: self.rows }
        }
    }

    /// Number of locations of user `u`.
    pub open spec fn user_count(self, u: Seq<char>) -> nat {
        self.rows.dom().filter(owned_by(u)).len()
    }

    /// The result of a count: for one user, `None` where the user does not
    /// exist; for all users, the number of rows.
    pub open spec fn count(self, username: Option<Seq<char>>) -> Option<nat> {
        match username {
            Some(u) => if self.users.contains_key(u) {
                Some(self.user_count(u))
            } else {
                None
            },
            None => Some(self.rows.dom().len()),
        }
    }
}

/// The sum of the counts of the users in `us`.
pub open spec fn count_sum(m: StoreModel, us: Seq<Seq<char>>) -> nat
    decreases us.len(),
{
    if us.len() == 0 {
        0
    } else {
        count_sum(m, us.drop_last()) + m.user_count(us.last())
    }
}

/// An insert keeps the database's invariant.
pub proof fn lemma_insert_keeps_wf(m: StoreModel, loc: Location)
    requires
        m.wf(),
    ensures
        m.after_insert(loc).wf(),
{
    let m1 = m.after_insert(loc);
    assert forall|k: (Seq<char>, UtcTime)| #[trigger] m1.rows.contains_key(k) implies m1.rows[k].key()
        == k && m1.users.contains_key(k.0) && m1.rows[k].valid() by {
        if k != loc.key() {
            assert(m.rows.contains_key(k));
        }
    }
}

/// Inserting a valid location twice gives a new row and then a no-op: the
/// second insert reports the duplicate and changes nothing, so every count
/// after both is the count after the first.
pub proof fn law_insert_twice(m: StoreModel, loc: Location)
    requires
        m.wf(),
        loc.valid(),
        m.users.contains_key(loc.username@),
        !m.rows.contains_key(loc.key()),
    ensures
        m.insert_outcome(loc) == Ok::<bool, StoreError>(true),
        m.after_insert(loc).insert_outcome(loc) == Ok::<bool, StoreError>(false),
        m.after_insert(loc).after_insert(loc) == m.after_insert(loc),
        forall|u: Option<Seq<char>>|
            #[trigger] m.after_insert(loc).after_insert(loc).count(u) == m.after_insert(loc).count(u),
        m.after_insert(loc).count(None) == Some((m.rows.dom().len() + 1) as nat),
{
    let m1 = m.after_insert(loc);
    lemma_insert_keeps_wf(m, loc);
    assert(m1.rows.contains_key(loc.key()));
    assert(m1.rows[loc.key()] == loc);
    assert(m1.rows.dom() =~= m.rows.dom().insert(loc.key()));
}

/// A second location under a taken key that differs in any other field is a
/// conflict: the error carries the stored row and the refused one, and the
/// contents, and so every count, stay as they were.
pub proof fn law_conflict_keeps_original(m: StoreModel, first: Location, second: Location)
    requires
        m.wf(),
        first.valid(),
        second.valid(),
        m.users.contains_key(first.username@),
        !m.rows.contains_key(first.key()),
        first.key() == second.key(),
        !first.same_as(second),
    ensures
        m.after_insert(first).insert_outcome(second) == Err::<bool, StoreError>(
            StoreError::Conflict { original: first, received: second },
        ),
        m.after_insert(first).after_insert(second) == m.after_insert(first),
        m.after_insert(first).after_insert(second).rows[first.key()] == first,
{
    let m1 = m.after_insert(first);
    assert(m1.rows.contains_key(first.key()));
    assert(m1.rows[first.key()] == first);
}

/// A location for a user that does not exist is refused as such; once the
/// user is added, the same insert succeeds.
pub proof fn law_unknown_user_then_added(m: StoreModel, loc: Location, password: Seq<char>)
    requires
        m.wf(),
        loc.valid(),
        !m.users.contains_key(loc.username@),
    ensures
        m.insert_outcome(loc) == Err::<bool, StoreError>(StoreError::UnknownUser(loc.username)),
        m.after_user_add(loc.username@, password).insert_outcome(loc) == Ok::<bool, StoreError>(true),
{
    if m.rows.contains_key(loc.key()) {
        assert(m.users.contains_key(loc.key().0));
    }
    let m1 = m.after_user_add(loc.username@, password);
    assert(m1.users.contains_key(loc.username@));
}

/// Counting one user fails exactly when the user does not exist; counting
/// all users never fails.
pub proof fn law_count_fails_for_unknown_user(m: StoreModel, u: Seq<char>)
    ensures
        m.count(Some(u)) is None <==> !m.users.contains_key(u),
        m.count(None) is Some,
{
}

proof fn lemma_count_sum_is_union(m: StoreModel, us: Seq<Seq<char>>)
    requires
        m.wf(),
        us.no_duplicates(),
    ensures
        count_sum(m, us) == m.rows.dom().filter(owned_by_any(us)).len(),
        m.rows.dom().filter(owned_by_any(us)).finite(),
    decreases us.len(),
{
    let dom = m.rows.dom();
    if us.len() == 0 {
        assert(dom.filter(owned_by_any(us)) =~= Set::empty());
    } else {
        let front = us.drop_last();
        let u = us.last();
        lemma_count_sum_is_union(m, front);
        dom.lemma_len_filter(owned_by(u));
        let a = dom.filter(owned_by_any(front));
        let b = dom.filter(owned_by(u));
        assert forall|k: (Seq<char>, UtcTime)| a.contains(k) implies !b.contains(k) by {
            let i = choose|i: int| 0 <= i < front.len() && front[i] == k.0;
            assert(us[i] == front[i]);
            assert(us[us.len() - 1] == u);
        }
        assert forall|k: (Seq<char>, UtcTime)| #[trigger] dom.filter(owned_by_any(us)).contains(k) <==> (a + b).contains(k) by {
            if us.contains(k.0) && k.0 != u {
                let i = choose|i: int| 0 <= i < us.len() && us[i] == k.0;
                assert(front[i] == us[i]);
            }
            if front.contains(k.0) {
                let i = choose|i: int| 0 <= i < front.len() && front[i] == k.0;
                assert(us[i] == front[i]);
            }
            if k.0 == u {
                assert(us[us.len() - 1] == u);
            }
        }
        assert(dom.filter(owned_by_any(us)) =~= a + b);
        vstd::set_lib::lemma_set_disjoint_lens(a, b);
    }
}

/// Counting all users gives the sum of the counts of each user, for any
/// listing of the users that names each once.
pub proof fn law_count_all_is_sum(m: StoreModel, us: Seq<Seq<char>>)
    requires
        m.wf(),
        us.no_duplicates(),
        us.to_set() == m.users.dom(),
    ensures
        m.count(None) == Some(count_sum(m, us)),
{
    lemma_count_sum_is_union(m, us);
    let dom = m.rows.dom();
    assert forall|k: (Seq<char>, UtcTime)| #[trigger] dom.contains(k) implies dom.filter(owned_by_any(us)).contains(k) by {
        assert(m.rows.contains_key(k));
        assert(us.to_set().contains(k.0));
    }
    assert(dom.filter(owned_by_any(us)) =~= dom);
}

/// `s` is an answer to the range query for user `u` over `[t0, t1)`: rows
/// of `u` with `t0 <= time_utc < t1`, all of them, each once, ordered by
/// `time_utc` (rows with equal times, were there any, in either order).
pub open spec fn is_range_answer(m: StoreModel, u: Seq<char>, t0: UtcTime, t1: UtcTime, s: Seq<Location>) -> bool {
    &&& s.no_duplicates()
    &&& forall|i: int|
        0 <= i < s.len() ==> m.rows.contains_key(#[trigger] s[i].key()) && m.rows[s[i].key()]
            == s[i] && s[i].username@ == u && t0.not_after(s[i].time_utc) && s[i].time_utc.precedes(t1)
    &&& forall|k: (Seq<char>, UtcTime)|
        #[trigger] m.rows.contains_key(k) && k.0 == u && t0.not_after(k.1) && k.1.precedes(t1)
            ==> exists|i: int| 0 <= i < s.len() && s[i].key() == k
    &&& forall|i: int, j: int|
        0 <= i < j < s.len() ==> (#[trigger] s[i]).time_utc.not_after((#[trigger] s[j]).time_utc)
}

/// A range query lists exactly the user's rows in the window, in strictly
/// ascending order of time: two rows of one user never share a time, since
/// user and time make the key.
pub proof fn law_range_strictly_ascending(
    m: StoreModel,
    u: Seq<char>,
    t0: UtcTime,
    t1: UtcTime,
    s: Seq<Location>,
)
    requires
        m.wf(),
        is_range_answer(m, u, t0, t1, s),
    ensures
        forall|i: int, j: int|
            0 <= i < j < s.len() ==> (#[trigger] s[i]).time_utc.precedes((#[trigger] s[j]).time_utc),
        forall|i: int|
            0 <= i < s.len() ==> m.rows.contains_key(#[trigger] s[i].key()) && s[i].username@ == u
                && t0.not_after(s[i].time_utc) && s[i].time_utc.precedes(t1),
        forall|k: (Seq<char>, UtcTime)|
            #[trigger] m.rows.contains_key(k) && k.0 == u && t0.not_after(k.1) && k.1.precedes(t1)
                ==> exists|i: int| 0 <= i < s.len() && s[i] == m.rows[k],
{
    assert forall|i: int, j: int|
        0 <= i < j < s.len() implies (#[trigger] s[i]).time_utc.precedes((#[trigger] s[j]).time_utc) by {
        if s[i].time_utc == s[j].time_utc {
            assert(s[i].key() == s[j].key());
            assert(s[i] == s[j]);
        }
    }
    assert forall|k: (Seq<char>, UtcTime)|
        #[trigger] m.rows.contains_key(k) && k.0 == u && t0.not_after(k.1) && k.1.precedes(t1)
            implies exists|i: int| 0 <= i < s.len() && s[i] == m.rows[k] by {
        let i = choose|i: int| 0 <= i < s.len() && s[i].key() == k;
        assert(m.rows[s[i].key()] == s[i]);
    }
}

/// `s` is the listing behind the point query for user `u` at `t`: rows of
/// `u` with `time_utc <= t`, all of them, each once, latest first. The query
/// answers with the first of them, or with nothing.
pub open spec fn is_at_listing(m: StoreModel, u: Seq<char>, t: UtcTime, s: Seq<Location>) -> bool {
    &&& s.no_duplicates()
    &&& forall|i: int|
        0 <= i < s.len() ==> m.rows.contains_key(#[trigger] s[i].key()) && m.rows[s[i].key()]
            == s[i] && s[i].username@ == u && s[i].time_utc.not_after(t)
    &&& forall|k: (Seq<char>, UtcTime)|
        #[trigger] m.rows.contains_key(k) && k.0 == u && k.1.not_after(t) ==> exists|i: int|
            0 <= i < s.len() && s[i].key() == k
    &&& forall|i: int, j: int|
        0 <= i < j < s.len() ==> (#[trigger] s[j]).time_utc.not_after((#[trigger] s[i]).time_utc)
}

/// The point query answers with the user's latest row at or before `t`, and
/// with nothing exactly when every row of the user is later than `t`.
pub proof fn law_at_is_latest_not_after(m: StoreModel, u: Seq<char>, t: UtcTime, s: Seq<Location>)
    requires
        m.wf(),
        is_at_listing(m, u, t, s),
    ensures
        s.len() == 0 <==> forall|k: (Seq<char>, UtcTime)|
            #[trigger] m.rows.contains_key(k) && k.0 == u ==> t.precedes(k.1),
        s.len() > 0 ==> m.rows.contains_key(s[0].key()) && s[0].username@ == u
            && s[0].time_utc.not_after(t),
        s.len() > 0 ==> forall|k: (Seq<char>, UtcTime)|
            #[trigger] m.rows.contains_key(k) && k.0 == u && k.1.not_after(t) ==> k.1.not_after(
                s[0].time_utc,
            ),
{
    if s.len() > 0 {
        assert(m.rows.contains_key(s[0].key()));
        let k0 = s[0].key();
        assert(!t.precedes(k0.1));
        assert forall|k: (Seq<char>, UtcTime)|
            #[trigger] m.rows.contains_key(k) && k.0 == u && k.1.not_after(t) implies k.1.not_after(
                s[0].time_utc,
            ) by {
            let i = choose|i: int| 0 <= i < s.len() && s[i].key() == k;
            if i > 0 {
                assert(s[i].time_utc.not_after(s[0].time_utc));
            }
        }
    } else {
        assert forall|k: (Seq<char>, UtcTime)|
            #[trigger] m.rows.contains_key(k) && k.0 == u implies t.precedes(k.1) by {
            if k.1.not_after(t) {
                let i = choose|i: int| 0 <= i < s.len() && s[i].key() == k;
            }
        }
    }
}

} // verus!
