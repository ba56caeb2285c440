//! Backups of the database file: their names, the checks on a target path,
//! and which old backups go when a new one is made.
//!
//! A database at `/path/to/db.sqlite` has its backups beside it, named
//! `/path/to/db.sqlite.<ts>.bak`, where `<ts>` is the Unix time in seconds
//! at which the backup was made.
use vstd::prelude::*;
use vstd::string::{StrSliceExecFns, StringExecFns};

use crate::db::Config;

verus! {

/// Largest timestamp that a backup name may carry.
pub const STAMP_MAX: u64 = 0x7fff_ffff_ffff_ffff;

pub open spec fn is_digit(c: char) -> bool {
    '0' <= c && c <= '9'
}

pub open spec fn digit_value(c: char) -> int {
    (c as u32) as int - ('0' as u32) as int
}

pub open spec fn all_digits(s: Seq<char>) -> bool {
    forall|i: int| 0 <= i < s.len() ==> is_digit(#[trigger] s[i])
}

/// The number that a string of decimal digits writes.
pub open spec fn digits_value(s: Seq<char>) -> int
    decreases s.len(),
{
    if s.len() == 0 {
        0
    } else {
        digits_value(s.drop_last()) * 10 + digit_value(s.last())
    }
}

pub open spec fn digit_char(d: int) -> char {
    if d == 0 {
        '0'
    } else if d == 1 {
        '1'
    } else if d == 2 {
        '2'
    } else if d == 3 {
        '3'
    } else if d == 4 {
        '4'
    } else if d == 5 {
        '5'
    } else if d == 6 {
        '6'
    } else if d == 7 {
        '7'
    } else if d == 8 {
        '8'
    } else {
        '9'
    }
}

/// The decimal digits of `n`, without leading zeros.
pub open spec fn decimal(n: nat) -> Seq<char>
    decreases n,
{
    if n < 10 {
        seq![digit_char(n as int)]
    } else {
        decimal(n / 10).push(digit_char((n % 10) as int))
    }
}

/// The name of the backup of the database at `db` made at time `stamp`.
pub open spec fn backup_name(db: Seq<char>, stamp: nat) -> Seq<char> {
    db + "."@ + decimal(stamp) + ".bak"@
}

/// The part of `p` between `db.` and `.bak`, where `p` has that shape.
pub open spec fn stamp_text(db: Seq<char>, p: Seq<char>) -> Seq<char> {
    p.subrange(db.len() + 1 as int, p.len() - 4 as int)
}

/// `p` is `<db>.<digits>.bak`, with at least one digit.
pub open spec fn is_backup_name(db: Seq<char>, p: Seq<char>) -> bool {
    &&& p.len() >= db.len() + 6
    &&& p.subrange(0, db.len() as int) == db
    &&& p[db.len() as int] == '.'
    &&& p.subrange(p.len() - 4, p.len() as int) == ".bak"@
    &&& all_digits(stamp_text(db, p))
}

/// The timestamp of the backup named `p`, where it fits a signed 64-bit
/// timestamp; `None` where `p` names no backup of `db` or a larger one.
pub open spec fn backup_stamp_of(db: Seq<char>, p: Seq<char>) -> Option<u64> {
    if is_backup_name(db, p) && digits_value(stamp_text(db, p)) <= STAMP_MAX {
        Some(digits_value(stamp_text(db, p)) as u64)
    } else {
        None
    }
}

/// `10` to the power `n`.
pub open spec fn pow10(n: nat) -> nat
    decreases n,
{
    if n == 0 {
        1
    } else {
        10 * pow10((n - 1) as nat)
    }
}

/// `s` with zeros in front, up to length `n`.
pub open spec fn padded(s: Seq<char>, n: nat) -> Seq<char> {
    Seq::new((n - s.len()) as nat, |i: int| '0') + s
}

proof fn lemma_digits_value_push(s: Seq<char>, c: char)
    ensures
        digits_value(s.push(c)) == digits_value(s) * 10 + digit_value(c),
{
    assert(s.push(c).drop_last() =~= s);
}

proof fn lemma_digits_value_nonneg(s: Seq<char>)
    requires
        all_digits(s),
    ensures
        digits_value(s) >= 0,
    decreases s.len(),
{
    if s.len() > 0 {
        assert(all_digits(s.drop_last()));
        lemma_digits_value_nonneg(s.drop_last());
    }
}

proof fn lemma_digit_char(d: int)
    requires
        0 <= d < 10,
    ensures
        is_digit(digit_char(d)),
        digit_value(digit_char(d)) == d,
{
}

/// `decimal(n)` is a string of digits that reads back as `n`.
pub proof fn lemma_decimal_reads_back(n: nat)
    ensures
        all_digits(decimal(n)),
        digits_value(decimal(n)) == n,
        decimal(n).len() >= 1,
    decreases n,
{
    if n < 10 {
        lemma_digit_char(n as int);
        let s = seq![digit_char(n as int)];
        assert(s.drop_last() =~= Seq::<char>::empty());
        assert(digits_value(Seq::<char>::empty()) == 0);
        assert(s.last() == digit_char(n as int));
        assert(digits_value(s) == digits_value(s.drop_last()) * 10 + digit_value(s.last()));
    } else {
        lemma_decimal_reads_back(n / 10);
        lemma_digit_char((n % 10) as int);
        lemma_digits_value_push(decimal(n / 10), digit_char((n % 10) as int));
    }
}

/// A string holding exactly the digit `d`.
fn digit_text(d: u64) -> (r: &'static str)
    requires
        d < 10,
    ensures
        r@ == seq![digit_char(d as int)],
{
    proof {
        reveal_strlit("0");
        reveal_strlit("1");
        reveal_strlit("2");
        reveal_strlit("3");
        reveal_strlit("4");
        reveal_strlit("5");
        reveal_strlit("6");
        reveal_strlit("7");
        reveal_strlit("8");
        reveal_strlit("9");
    }
    let r = match d {
        0 => "0",
        1 => "1",
        2 => "2",
        3 => "3",
        4 => "4",
        5 => "5",
        6 => "6",
        7 => "7",
        8 => "8",
        _ => "9",
    };
    assert(r@ =~= seq![digit_char(d as int)]);
    r
}

/// Appends the decimal digits of `n` to `s`.
fn append_decimal(s: &mut String, n: u64)
    ensures
        final(s)@ == old(s)@ + decimal(n as nat),
    decreases n,
{
    if n >= 10 {
        append_decimal(s, n / 10);
    }
    s.append(digit_text(n % 10));
    proof {
        if n >= 10 {
            assert(decimal(n as nat) == decimal((n / 10) as nat).push(digit_char((n % 10) as int)));
        }
    }
    assert(final(s)@ =~= old(s)@ + decimal(n as nat));
}

impl Config {
    /// The path of the backup made at Unix time `stamp`.
    pub fn backup_path_at(&self, stamp: u64) -> (r: String)
        ensures
            r@ == backup_name(self.path@, stamp as nat),
    {
        let mut s = self.path.clone();
        s.append(".");
        append_decimal(&mut s, stamp);
        s.append(".bak");
        assert(s@ =~= backup_name(self.path@, stamp as nat));
        s
    }

    /// The digits between `<db>.` and `.bak`, or `None` where `path` is not
    /// a backup of this database.
    fn backup_digits(&self, path: &str) -> (r: Option<Vec<char>>)
        ensures
            r is Some <==> is_backup_name(self.path@, path@),
            r matches Some(v) ==> v@ == stamp_text(self.path@, path@),
    {
        let db = self.path.as_str();
        let m = db.unicode_len();
        let n = path.unicode_len();
        if n < 6 || m > n - 6 {
            return None;
        }
        let mut i: usize = 0;
        while i < m
            invariant
                db@ == self.path@,
                m == db@.len(),
                n == path@.len(),
                m + 6 <= n,
                i <= m,
                forall|j: int| 0 <= j < i ==> path@[j] == db@[j],
            decreases m - i,
        {
            if path.get_char(i) != db.get_char(i) {
                assert(path@.subrange(0, m as int)[i as int] == path@[i as int]);
                return None;
            }
            i = i + 1;
        }
        assert(path@.subrange(0, m as int) =~= db@);
        proof {
            reveal_strlit(".bak");
        }
        if path.get_char(m) != '.' || path.get_char(n - 4) != '.' || path.get_char(n - 3) != 'b'
            || path.get_char(n - 2) != 'a' || path.get_char(n - 1) != 'k' {
            proof {
                if path@.subrange(n - 4, n as int) == ".bak"@ {
                    assert(path@[n - 4] == path@.subrange(n - 4, n as int)[0]);
                    assert(path@[n - 3] == path@.subrange(n - 4, n as int)[1]);
                    assert(path@[n - 2] == path@.subrange(n - 4, n as int)[2]);
                    assert(path@[n - 1] == path@.subrange(n - 4, n as int)[3]);
                }
            }
            return None;
        }
        assert(path@.subrange(n - 4, n as int) =~= ".bak"@);
        let ghost text = stamp_text(db@, path@);
        let mut digits: Vec<char> = Vec::new();
        let mut k: usize = m + 1;
        while k < n - 4
            invariant
                db@ == self.path@,
                m == db@.len(),
                n == path@.len(),
                m + 6 <= n,
                m + 1 <= k <= n - 4,
                text == path@.subrange(m + 1, n - 4),
                digits@ == text.subrange(0, k - m - 1),
                all_digits(digits@),
            decreases n - 4 - k,
        {
            let c = path.get_char(k);
            if c < '0' || c > '9' {
                assert(text[k - m - 1] == c);
                assert(!is_digit(text[k - m - 1]));
                return None;
            }
            digits.push(c);
            assert(digits@ =~= text.subrange(0, k - m));
            k = k + 1;
        }
        assert(text.subrange(0, k - m - 1) =~= text);
        Some(digits)
    }

    /// The timestamp of the backup at `path`, or `None` where `path` is not
    /// a backup of this database or its timestamp does not fit a signed
    /// 64-bit number.
    pub fn backup_stamp(&self, path: &str) -> (r: Option<u64>)
        ensures
            r == backup_stamp_of(self.path@, path@),
    {
        match self.backup_digits(path) {
            None => None,
            Some(digits) => stamp_value(&digits),
        }
    }

    /// Whether `path` names a backup of this database.
    pub fn is_backup(&self, path: &str) -> (r: bool)
        ensures
            r == is_backup_name(self.path@, path@),
    {
        self.backup_digits(path).is_some()
    }
}

/// The number that `digits` write, where it is at most `STAMP_MAX`.
fn stamp_value(digits: &Vec<char>) -> (r: Option<u64>)
    requires
        all_digits(digits@),
    ensures
        r == if digits_value(digits@) <= STAMP_MAX {
            Some(digits_value(digits@) as u64)
        } else {
            None::<u64>
        },
{
    let ghost text = digits@;
    let mut k: usize = 0;
    let mut value: u64 = 0;
    while k < digits.len()
        invariant
            text == digits@,
            all_digits(text),
            k <= text.len(),
            value == digits_value(text.subrange(0, k as int)),
            value <= STAMP_MAX,
        decreases digits.len() - k,
    {
        let c = digits[k];
        assert(is_digit(text[k as int]));
        let d = (c as u32 - '0' as u32) as u64;
        proof {
            assert(text.subrange(0, k + 1) =~= text.subrange(0, k as int).push(c));
            lemma_digits_value_push(text.subrange(0, k as int), c);
        }
        if value > (STAMP_MAX - d) / 10 {
            proof {
                assert(value * 10 + d > STAMP_MAX) by (nonlinear_arith)
                    requires
                        value > (STAMP_MAX - d) / 10,
                        d <= 9,
                ;
                lemma_prefix_value_bounded(text, k + 1);
            }
            return None;
        }
        value = value * 10 + d;
        k = k + 1;
    }
    assert(text.subrange(0, k as int) =~= text);
    Some(value)
}

proof fn lemma_value_concat(x: Seq<char>, y: Seq<char>)
    ensures
        digits_value(x + y) == digits_value(x) * pow10(y.len()) + digits_value(y),
    decreases y.len(),
{
    if y.len() == 0 {
        assert(x + y =~= x);
        assert(pow10(y.len()) == 1);
        assert(digits_value(y) == 0);
        assert(digits_value(x) * 1 == digits_value(x));
    } else {
        let y1 = y.drop_last();
        lemma_value_concat(x, y1);
        assert((x + y).drop_last() =~= x + y1);
        assert((x + y).last() == y.last());
        let vx = digits_value(x);
        let vy1 = digits_value(y1);
        let p1 = pow10(y1.len());
        let d = digit_value(y.last());
        assert(digits_value(x + y) == digits_value(x + y1) * 10 + d);
        assert(digits_value(y) == vy1 * 10 + d);
        assert(pow10(y.len()) == 10 * p1);
        assert((vx * p1 + vy1) * 10 + d == vx * (10 * p1) + (vy1 * 10 + d)) by (nonlinear_arith);
        assert(digits_value(x + y1) == vx * p1 + vy1);
        assert(digits_value(x + y) == vx * (10 * p1) + digits_value(y));
    }
}

proof fn lemma_value_below_pow10(s: Seq<char>)
    requires
        all_digits(s),
    ensures
        0 <= digits_value(s) < pow10(s.len()),
    decreases s.len(),
{
    if s.len() > 0 {
        let t = s.drop_last();
        assert(all_digits(t));
        lemma_value_below_pow10(t);
        assert(is_digit(s[s.len() - 1]));
        let d = digit_value(s.last());
        let v = digits_value(t);
        let p = pow10(t.len());
        assert(v * 10 + d < 10 * p) by (nonlinear_arith)
            requires
                0 <= v < p,
                0 <= d <= 9,
        ;
    }
}

proof fn lemma_zeros_value(n: nat)
    ensures
        digits_value(Seq::new(n, |i: int| '0')) == 0,
    decreases n,
{
    if n > 0 {
        let z = Seq::new(n, |i: int| '0');
        assert(z.drop_last() =~= Seq::new((n - 1) as nat, |i: int| '0'));
        lemma_zeros_value((n - 1) as nat);
    }
}

/// Zeros in front do not change the number that digits write.
proof fn lemma_padded_value(s: Seq<char>, n: nat)
    requires
        s.len() <= n,
        all_digits(s),
    ensures
        digits_value(padded(s, n)) == digits_value(s),
        all_digits(padded(s, n)),
        padded(s, n).len() == n,
{
    let z = Seq::new((n - s.len()) as nat, |i: int| '0');
    lemma_zeros_value((n - s.len()) as nat);
    lemma_value_concat(z, s);
    assert forall|i: int| 0 <= i < padded(s, n).len() implies is_digit(#[trigger] padded(s, n)[i]) by {
        if i >= z.len() {
            assert(padded(s, n)[i] == s[i - z.len()]);
        }
    }
}

/// Of two digit strings of one length, the one with the smaller digit at
/// the first place where they differ writes the smaller number.
proof fn lemma_first_difference(a: Seq<char>, b: Seq<char>, i: int)
    requires
        a.len() == b.len(),
        all_digits(a),
        all_digits(b),
        0 <= i < a.len(),
        forall|j: int| 0 <= j < i ==> a[j] == b[j],
        a[i] < b[i],
    ensures
        digits_value(a) < digits_value(b),
{
    let xa = a.take(i + 1);
    let ya = a.skip(i + 1);
    let xb = b.take(i + 1);
    let yb = b.skip(i + 1);
    assert(a =~= xa + ya);
    assert(b =~= xb + yb);
    lemma_value_concat(xa, ya);
    lemma_value_concat(xb, yb);
    assert(xa.drop_last() =~= xb.drop_last());
    assert(all_digits(ya));
    assert(all_digits(yb));
    lemma_value_below_pow10(ya);
    lemma_value_below_pow10(yb);
    let pre = digits_value(xa.drop_last());
    let va = digits_value(xa);
    let vb = digits_value(xb);
    assert(va == pre * 10 + digit_value(a[i]));
    assert(vb == pre * 10 + digit_value(b[i]));
    let p = pow10(ya.len());
    let ra = digits_value(ya);
    let rb = digits_value(yb);
    assert(va * p + ra < vb * p + rb) by (nonlinear_arith)
        requires
            va + 1 <= vb,
            0 <= ra < p,
            0 <= rb,
    ;
}

/// Whether the number that `a` writes is smaller than the one `b` writes.
fn stamp_less(a: &Vec<char>, b: &Vec<char>) -> (r: bool)
    requires
        all_digits(a@),
        all_digits(b@),
    ensures
        r == (digits_value(a@) < digits_value(b@)),
{
    let la = a.len();
    let lb = b.len();
    let n = if la > lb {
        la
    } else {
        lb
    };
    let ghost pa = padded(a@, n as nat);
    let ghost pb = padded(b@, n as nat);
    proof {
        lemma_padded_value(a@, n as nat);
        lemma_padded_value(b@, n as nat);
    }
    let mut i: usize = 0;
    while i < n
        invariant
            la == a@.len(),
            lb == b@.len(),
            la <= n,
            lb <= n,
            pa == padded(a@, n as nat),
            pb == padded(b@, n as nat),
            pa.len() == n,
            pb.len() == n,
            digits_value(pa) == digits_value(a@),
            digits_value(pb) == digits_value(b@),
            all_digits(pa),
            all_digits(pb),
            i <= n,
            forall|j: int| 0 <= j < i ==> pa[j] == pb[j],
        decreases n - i,
    {
        let ca = if i < n - la {
            '0'
        } else {
            a[i - (n - la)]
        };
        let cb = if i < n - lb {
            '0'
        } else {
            b[i - (n - lb)]
        };
        assert(ca == pa[i as int]);
        assert(cb == pb[i as int]);
        if ca != cb {
            proof {
                if ca < cb {
                    lemma_first_difference(pa, pb, i as int);
                } else {
                    lemma_first_difference(pb, pa, i as int);
                }
            }
            return ca < cb;
        }
        i = i + 1;
    }
    assert(pa =~= pb);
    false
}

/// A prefix of a digit string reads as no more than the whole.
proof fn lemma_prefix_value_bounded(s: Seq<char>, k: int)
    requires
        all_digits(s),
        0 <= k <= s.len(),
    ensures
        digits_value(s.subrange(0, k)) <= digits_value(s),
    decreases s.len() - k,
{
    if k < s.len() {
        lemma_prefix_value_bounded(s, k + 1);
        let t = s.subrange(0, k + 1);
        assert(t.drop_last() =~= s.subrange(0, k));
        assert(all_digits(s.subrange(0, k)));
        lemma_digits_value_nonneg(s.subrange(0, k));
        assert(is_digit(t.last()));
    } else {
        assert(s.subrange(0, k) =~= s);
    }
}

} // verus!

verus! {

pub open spec fn backup_test(db: Seq<char>) -> spec_fn(Seq<char>) -> bool {
    |p: Seq<char>| is_backup_name(db, p)
}

/// The backups of `db` among `entries`, in their order.
pub open spec fn backups_among(db: Seq<char>, entries: Seq<Seq<char>>) -> Seq<Seq<char>> {
    entries.filter(backup_test(db))
}

/// The timestamp of a backup name, as a number.
pub open spec fn stamp(db: Seq<char>, p: Seq<char>) -> int {
    digits_value(stamp_text(db, p))
}

pub open spec fn path_views(v: Seq<String>) -> Seq<Seq<char>> {
    v.map_values(|s: String| s@)
}

/// `doomed` is a right choice of backups to delete from the directory
/// listing `entries`, so that the `keep` newest stay: as many as are above
/// `keep`, each one of the backups listed, none newer than any backup that
/// stays, and the oldest first.
pub open spec fn is_retention_plan(
    db: Seq<char>,
    entries: Seq<Seq<char>>,
    keep: nat,
    doomed: Seq<Seq<char>>,
) -> bool {
    let all = backups_among(db, entries);
    let kept = all.to_multiset().sub(doomed.to_multiset());
    &&& doomed.len() == if all.len() > keep {
        all.len() - keep
    } else {
        0
    }
    &&& doomed.to_multiset().subset_of(all.to_multiset())
    &&& forall|i: int, j: int|
        0 <= i < j < doomed.len() ==> stamp(db, doomed[i]) <= stamp(db, doomed[j])
    &&& forall|p: Seq<char>, i: int|
        #[trigger] kept.count(p) > 0 && 0 <= i < doomed.len() ==> stamp(db, #[trigger] doomed[i])
            <= stamp(db, p)
}

impl Config {
    /// The backups to delete from the directory listing `entries` so that
    /// `self.backups` remain, oldest first.
    pub fn backups_to_delete(&self, entries: &Vec<String>) -> (r: Vec<String>)
        ensures
            is_retention_plan(
                self.path@,
                path_views(entries@),
                self.backups as nat,
                path_views(r@),
            ),
    {
        broadcast use vstd::seq_lib::group_to_multiset_ensures;
        broadcast use vstd::multiset::group_multiset_axioms;

        let ghost db = self.path@;
        let ghost ev = path_views(entries@);
        let ghost all = backups_among(db, ev);
        let mut rest: Vec<String> = Vec::new();
        let mut stamps: Vec<Vec<char>> = Vec::new();
        let mut i: usize = 0;
        while i < entries.len()
            invariant
                db == self.path@,
                ev == path_views(entries@),
                i <= entries.len(),
                path_views(rest@) == backups_among(db, ev.take(i as int)),
                stamps.len() == rest.len(),
                forall|j: int|
                    0 <= j < rest.len() ==> is_backup_name(db, #[trigger] rest@[j]@) && stamps@[j]@
                        == stamp_text(db, rest@[j]@),
            decreases entries.len() - i,
        {
            let found = self.backup_digits(entries[i].as_str());
            proof {
                assert(ev.take(i + 1) =~= ev.take(i as int).push(ev[i as int]));
                ev.take(i as int).lemma_filter_push(ev[i as int], backup_test(db));
            }
            match found {
                Some(t) => {
                    let p = entries[i].clone();
                    rest.push(p);
                    stamps.push(t);
                    assert(path_views(rest@) =~= backups_among(db, ev.take(i as int)).push(
                        ev[i as int],
                    ));
                },
                None => {},
            }
            i = i + 1;
        }
        assert(ev.take(entries.len() as int) =~= ev);
        let mut doomed: Vec<String> = Vec::new();
        while rest.len() > self.backups
            invariant
                db == self.path@,
                path_views(rest@).to_multiset().add(path_views(doomed@).to_multiset())
                    == all.to_multiset(),
                rest.len() + doomed.len() == all.len(),
                doomed.len() > 0 ==> rest.len() >= self.backups,
                stamps.len() == rest.len(),
                forall|j: int|
                    0 <= j < rest.len() ==> is_backup_name(db, #[trigger] rest@[j]@) && stamps@[j]@
                        == stamp_text(db, rest@[j]@),
                forall|a: int, b: int|
                    0 <= a < b < doomed.len() ==> stamp(db, doomed@[a]@) <= stamp(
                        db,
                        doomed@[b]@,
                    ),
                forall|a: int, j: int|
                    0 <= a < doomed.len() && 0 <= j < rest.len() ==> stamp(
                        db,
                        #[trigger] doomed@[a]@,
                    ) <= stamp(db, #[trigger] rest@[j]@),
            decreases rest.len(),
        {
            assert forall|k: int| 0 <= k < stamps.len() implies all_digits(
                #[trigger] stamps@[k]@,
            ) by {
                assert(is_backup_name(db, rest@[k]@));
            }
            let mut m: usize = 0;
            let mut j: usize = 1;
            while j < rest.len()
                invariant
                    stamps.len() == rest.len(),
                    1 <= j <= rest.len(),
                    m < j,
                    forall|k: int| 0 <= k < stamps.len() ==> all_digits(#[trigger] stamps@[k]@),
                    forall|k: int|
                        0 <= k < j ==> digits_value(stamps@[m as int]@) <= digits_value(
                            #[trigger] stamps@[k]@,
                        ),
                decreases rest.len() - j,
            {
                if stamp_less(&stamps[j], &stamps[m]) {
                    m = j;
                }
                j = j + 1;
            }
            let ghost old_rest = rest@;
            let ghost old_doomed = doomed@;
            let _ = stamps.remove(m);
            let p = rest.remove(m);
            doomed.push(p);
            proof {
                assert(path_views(rest@) =~= path_views(old_rest).remove(m as int));
                assert(path_views(doomed@) =~= path_views(old_doomed).push(p@));
                assert(path_views(old_rest)[m as int] == p@);
                vstd::seq_lib::to_multiset_remove(path_views(old_rest), m as int);
                vstd::seq_lib::to_multiset_build(path_views(old_doomed), p@);
                vstd::seq_lib::to_multiset_contains(path_views(old_rest), p@);
                assert(path_views(old_rest).contains(p@));
                assert(path_views(rest@).to_multiset().add(path_views(doomed@).to_multiset())
                    =~= all.to_multiset());
                assert forall|j: int|
                    0 <= j < rest.len() implies is_backup_name(db, #[trigger] rest@[j]@)
                    && stamps@[j]@ == stamp_text(db, rest@[j]@) by {
                    if j < m {
                        assert(rest@[j] == old_rest[j]);
                    } else {
                        assert(rest@[j] == old_rest[j + 1]);
                    }
                }
                assert forall|a: int, j: int|
                    0 <= a < doomed.len() && 0 <= j < rest.len() implies stamp(
                        db,
                        #[trigger] doomed@[a]@,
                    ) <= stamp(db, #[trigger] rest@[j]@) by {
                    let jj = if j < m {
                        j
                    } else {
                        j + 1
                    };
                    assert(rest@[j] == old_rest[jj]);
                    if a < old_doomed.len() {
                        assert(doomed@[a] == old_doomed[a]);
                    }
                }
            }
        }
        proof {
            let dv = path_views(doomed@);
            let rv = path_views(rest@);
            assert(all.to_multiset().sub(dv.to_multiset()) =~= rv.to_multiset());
            assert forall|p: Seq<char>, a: int|
                #[trigger] rv.to_multiset().count(p) > 0 && 0 <= a < dv.len() implies stamp(
                db,
                #[trigger] dv[a],
            ) <= stamp(db, p) by {
                assert(rv.contains(p));
                let j = choose|j: int| 0 <= j < rv.len() && rv[j] == p;
                assert(rest@[j]@ == p);
            }
        }
        doomed
    }
}

} // verus!

verus! {

/// With `keep + 1` backups in the directory, a right plan deletes exactly
/// one, so that `keep` stay, and the one it deletes is the oldest of them.
pub proof fn law_retention_drops_oldest(
    db: Seq<char>,
    entries: Seq<Seq<char>>,
    keep: nat,
    doomed: Seq<Seq<char>>,
)
    requires
        is_retention_plan(db, entries, keep, doomed),
        backups_among(db, entries).len() == keep + 1,
    ensures
        doomed.len() == 1,
        backups_among(db, entries).len() - doomed.len() == keep,
        backups_among(db, entries).contains(doomed[0]),
        forall|i: int|
            0 <= i < backups_among(db, entries).len() ==> stamp(db, doomed[0]) <= stamp(
                db,
                #[trigger] backups_among(db, entries)[i],
            ),
{
    broadcast use vstd::seq_lib::group_to_multiset_ensures;
    broadcast use vstd::multiset::group_multiset_axioms;

    let all = backups_among(db, entries);
    let kept = all.to_multiset().sub(doomed.to_multiset());
    assert(doomed.to_multiset().count(doomed[0]) > 0);
    assert(all.to_multiset().count(doomed[0]) > 0);
    assert forall|i: int| 0 <= i < all.len() implies stamp(db, doomed[0]) <= stamp(
        db,
        #[trigger] all[i],
    ) by {
        let p = all[i];
        assert(all.to_multiset().count(p) > 0);
        if p != doomed[0] {
            assert(doomed =~= seq![doomed[0]]);
            assert(doomed.to_multiset().count(p) == 0);
            assert(kept.count(p) > 0);
        }
    }
}

/// What the file system said of a path: absent, present, or that it could
/// not tell, with its words.
#[derive(Clone, Debug)]
pub enum PathState {
    Absent,
    Present,
    Unknown(String),
}

/// Why a backup could not be made at a path.
#[derive(Clone, Debug)]
pub enum BackupPathError {
    /// The path is relative.
    NotAbsolute,
    /// Something already exists at the path.
    AlreadyExists,
    /// The path has no parent directory.
    NoParent,
    /// The parent directory does not exist; it is not created.
    ParentMissing,
    /// The file system could not say whether a path exists.
    Inaccessible(String),
}

pub open spec fn is_absolute(path: Seq<char>) -> bool {
    path.len() > 0 && path[0] == '/'
}

/// The check of a backup target: absolute, not yet there, and in a
/// directory that exists. `target` is what the file system said of the path
/// and `parent` what it said of its parent directory (`None` where the path
/// has none). The first broken rule is reported.
pub open spec fn target_verdict(path: Seq<char>, target: PathState, parent: Option<PathState>) -> Result<(), BackupPathError> {
    if !is_absolute(path) {
        Err(BackupPathError::NotAbsolute)
    } else {
        match target {
            PathState::Present => Err(BackupPathError::AlreadyExists),
            PathState::Unknown(e) => Err(BackupPathError::Inaccessible(e)),
            PathState::Absent => match parent {
                None => Err(BackupPathError::NoParent),
                Some(PathState::Absent) => Err(BackupPathError::ParentMissing),
                Some(PathState::Unknown(e)) => Err(BackupPathError::Inaccessible(e)),
                Some(PathState::Present) => Ok(()),
            },
        }
    }
}

pub fn check_backup_target(path: &str, target: PathState, parent: Option<PathState>) -> (r: Result<(), BackupPathError>)
    ensures
        r == target_verdict(path@, target, parent),
{
    if path.unicode_len() == 0 || path.get_char(0) != '/' {
        return Err(BackupPathError::NotAbsolute);
    }
    match target {
        PathState::Present => Err(BackupPathError::AlreadyExists),
        PathState::Unknown(e) => Err(BackupPathError::Inaccessible(e)),
        PathState::Absent => match parent {
            None => Err(BackupPathError::NoParent),
            Some(PathState::Absent) => Err(BackupPathError::ParentMissing),
            Some(PathState::Unknown(e)) => Err(BackupPathError::Inaccessible(e)),
            Some(PathState::Present) => Ok(()),
        },
    }
}

/// The SQL statement that writes a snapshot of the live database to `path`
/// while readers and writers go on.
pub fn vacuum_into(path: &str) -> (r: String)
    ensures
        r@ == "VACUUM INTO '"@ + path@ + "'"@,
{
    let mut s = String::from_str("VACUUM INTO '");
    s.append(path);
    s.append("'");
    s
}

impl Config {
    /// The path for a backup made at Unix time `now`, in seconds; `None` for
    /// a time before the Unix epoch.
    pub fn backup_path_for(&self, now: i64) -> (r: Option<String>)
        ensures
            r is Some <==> now >= 0,
            r matches Some(p) ==> p@ == backup_name(self.path@, now as nat),
    {
        if now < 0 {
            None
        } else {
            Some(self.backup_path_at(now as u64))
        }
    }
}

/// A backup path made by `backup_path_at` is recognised as a backup of the
/// same database, with the timestamp it was made with.
pub proof fn law_backup_name_read_back(db: Seq<char>, t: nat)
    requires
        t <= STAMP_MAX,
    ensures
        backup_stamp_of(db, backup_name(db, t)) == Some(t as u64),
{
    let p = backup_name(db, t);
    let d = decimal(t);
    lemma_decimal_reads_back(t);
    reveal_strlit(".");
    reveal_strlit(".bak");
    assert(p.subrange(0, db.len() as int) =~= db);
    assert(p[db.len() as int] == '.');
    assert(p.subrange(p.len() - 4, p.len() as int) =~= ".bak"@);
    assert(stamp_text(db, p) =~= d);
}

} // verus!
