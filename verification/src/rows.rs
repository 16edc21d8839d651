//! Sequences of table rows: ordering of keys, lookup, first match and filtering.
use vstd::prelude::*;

use crate::tables::TableRow;

verus! {

/// Keys strictly increase along the table (rows are stored in insertion order
/// and keys come from an increasing sequence).
pub open spec fn keys_increasing<T: TableRow>(s: Seq<T>) -> bool {
    forall|i: int, j: int| 0 <= i < j < s.len() ==> #[trigger] s[i].key() < #[trigger] s[j].key()
}

/// Every key is below the next value the table's sequence hands out.
pub open spec fn keys_below<T: TableRow>(s: Seq<T>, next: u64) -> bool {
    forall|i: int| 0 <= i < s.len() ==> #[trigger] s[i].key() < next
}

/// A table with its sequence counter is consistent.
pub open spec fn table_ok<T: TableRow>(s: Seq<T>, next: u64) -> bool {
    keys_increasing(s) && keys_below(s, next)
}

pub open spec fn has_key<T: TableRow>(s: Seq<T>, k: u64) -> bool {
    exists|i: int| 0 <= i < s.len() && #[trigger] s[i].key() == k
}

/// The position of the row with key `k` (meaningful when `has_key(s, k)`).
pub open spec fn key_index<T: TableRow>(s: Seq<T>, k: u64) -> int {
    choose|i: int| 0 <= i < s.len() && #[trigger] s[i].key() == k
}

/// The row with key `k`, if any.
pub open spec fn lookup<T: TableRow>(s: Seq<T>, k: u64) -> Option<T> {
    if has_key(s, k) {
        Some(s[key_index(s, k)])
    } else {
        None
    }
}

/// `i` is the first position whose row satisfies `f`.
pub open spec fn is_first_match<T>(s: Seq<T>, f: spec_fn(T) -> bool, i: int) -> bool {
    &&& 0 <= i < s.len()
    &&& f(s[i])
    &&& forall|j: int| 0 <= j < i ==> !f(#[trigger] s[j])
}

/// The position of the first row that satisfies `f` (meaningful when there is one).
pub open spec fn first_index<T>(s: Seq<T>, f: spec_fn(T) -> bool) -> int {
    choose|i: int| is_first_match(s, f, i)
}

/// The first row (in table order) that satisfies `f`, if any.
pub open spec fn first_match<T>(s: Seq<T>, f: spec_fn(T) -> bool) -> Option<T> {
    if exists|i: int| is_first_match(s, f, i) {
        Some(s[first_index(s, f)])
    } else {
        None
    }
}

/// Some row satisfies `f`.
pub open spec fn any_match<T>(s: Seq<T>, f: spec_fn(T) -> bool) -> bool {
    exists|i: int| 0 <= i < s.len() && f(#[trigger] s[i])
}

/// The rows that satisfy `f`, in their original order.
pub open spec fn keep<T>(s: Seq<T>, f: spec_fn(T) -> bool) -> Seq<T>
    decreases s.len(),
{
    if s.len() == 0 {
        Seq::empty()
    } else {
        let rest = keep(s.drop_last(), f);
        if f(s.last()) {
            rest.push(s.last())
        } else {
            rest
        }
    }
}

/// The predicate "the row's key is not `k`".
pub open spec fn key_is_not<T: TableRow>(k: u64) -> spec_fn(T) -> bool {
    |r: T| r.key() != k
}

pub proof fn lemma_first_match_at<T>(s: Seq<T>, f: spec_fn(T) -> bool, i: int)
    requires
        is_first_match(s, f, i),
    ensures
        first_match(s, f) == Some(s[i]),
        first_index(s, f) == i,
{
    let j = first_index(s, f);
    assert(is_first_match(s, f, j));
    if j < i {
        assert(!f(s[j]));
    } else if i < j {
        assert(!f(s[i]));
    }
}

pub proof fn lemma_first_match_none<T>(s: Seq<T>, f: spec_fn(T) -> bool)
    requires
        forall|j: int| 0 <= j < s.len() ==> !f(#[trigger] s[j]),
    ensures
        first_match(s, f) is None,
        !any_match(s, f),
{
}

/// When some row satisfies `f`, there is a first such row.
pub proof fn lemma_first_match_some<T>(s: Seq<T>, f: spec_fn(T) -> bool, i: int)
    requires
        0 <= i < s.len(),
        f(s[i]),
    ensures
        first_match(s, f) is Some,
        f(first_match(s, f).unwrap()),
        s.contains(first_match(s, f).unwrap()),
    decreases i,
{
    if exists|j: int| 0 <= j < i && f(#[trigger] s[j]) {
        let j = choose|j: int| 0 <= j < i && f(#[trigger] s[j]);
        lemma_first_match_some(s, f, j);
    } else {
        assert(is_first_match(s, f, i));
        lemma_first_match_at(s, f, i);
    }
}

pub proof fn lemma_key_index<T: TableRow>(s: Seq<T>, i: int)
    requires
        keys_increasing(s),
        0 <= i < s.len(),
    ensures
        has_key(s, s[i].key()),
        key_index(s, s[i].key()) == i,
        lookup(s, s[i].key()) == Some(s[i]),
{
    let k = s[i].key();
    assert(has_key(s, k));
    let j = key_index(s, k);
    if j < i {
        assert(s[j].key() < s[i].key());
    } else if i < j {
        assert(s[i].key() < s[j].key());
    }
}

/// A row is kept exactly when it was there and satisfies the predicate.
pub proof fn lemma_keep_contains<T>(s: Seq<T>, f: spec_fn(T) -> bool)
    ensures
        forall|x: T| #[trigger] keep(s, f).contains(x) <==> (s.contains(x) && f(x)),
    decreases s.len(),
{
    if s.len() > 0 {
        let d = s.drop_last();
        let last = s.last();
        lemma_keep_contains(d, f);
        let kd = keep(d, f);
        let ks = keep(s, f);
        assert(s =~= d.push(last));
        assert(ks == (if f(last) { kd.push(last) } else { kd }));
        assert forall|x: T| #[trigger] ks.contains(x) implies (s.contains(x) && f(x)) by {
            let j = choose|j: int| 0 <= j < ks.len() && ks[j] == x;
            if j < kd.len() {
                assert(kd[j] == x);
                assert(kd.contains(x));
                let i = choose|i: int| 0 <= i < d.len() && d[i] == x;
                assert(s[i] == x);
            } else {
                assert(f(last) && x == last);
                assert(s[s.len() - 1] == x);
            }
        }
        assert forall|x: T| s.contains(x) && f(x) implies #[trigger] ks.contains(x) by {
            let i = choose|i: int| 0 <= i < s.len() && s[i] == x;
            if i < d.len() {
                assert(d[i] == x);
                assert(d.contains(x));
                assert(kd.contains(x));
                let j = choose|j: int| 0 <= j < kd.len() && kd[j] == x;
                if f(last) {
                    assert(ks[j] == kd[j]);
                } else {
                    assert(ks[j] == kd[j]);
                }
            } else {
                assert(x == last);
                assert(ks[ks.len() - 1] == x);
            }
        }
    }
}

/// Keeping all rows changes nothing.
pub proof fn lemma_keep_all<T>(s: Seq<T>, f: spec_fn(T) -> bool)
    requires
        forall|i: int| 0 <= i < s.len() ==> f(#[trigger] s[i]),
    ensures
        keep(s, f) == s,
    decreases s.len(),
{
    if s.len() > 0 {
        lemma_keep_all(s.drop_last(), f);
        assert(s.drop_last().push(s.last()) =~= s);
    }
}

/// Filtering keeps keys increasing and below the counter.
pub proof fn lemma_keep_table_ok<T: TableRow>(s: Seq<T>, f: spec_fn(T) -> bool, next: u64)
    requires
        table_ok(s, next),
    ensures
        table_ok(keep(s, f), next),
    decreases s.len(),
{
    lemma_keep_contains(s, f);
    if s.len() > 0 {
        let d = s.drop_last();
        assert(table_ok(d, next));
        lemma_keep_table_ok(d, f, next);
        lemma_keep_contains(d, f);
        let kd = keep(d, f);
        assert forall|i: int| 0 <= i < kd.len() implies #[trigger] kd[i].key() < s.last().key() by {
            assert(kd.contains(kd[i]));
            let m = choose|m: int| 0 <= m < d.len() && d[m] == kd[i];
            assert(s[m] == d[m]);
            assert(s[m].key() < s[s.len() - 1].key());
        }
    }
    let k = keep(s, f);
    assert forall|i: int| 0 <= i < k.len() implies #[trigger] k[i].key() < next by {
        assert(k.contains(k[i]));
    }
}

/// Pushing a row whose key is the counter, then advancing the counter, keeps the table consistent.
pub proof fn lemma_push_table_ok<T: TableRow>(s: Seq<T>, x: T, next: u64)
    requires
        table_ok(s, next),
        x.key() == next,
        next < u64::MAX,
    ensures
        table_ok(s.push(x), (next + 1) as u64),
{
    let t = s.push(x);
    assert forall|i: int, j: int| 0 <= i < j < t.len() implies #[trigger] t[i].key() < #[trigger] t[j].key() by {
        if j < s.len() {
            assert(t[i] == s[i] && t[j] == s[j]);
        } else {
            assert(t[i] == s[i]);
        }
    }
}

/// Replacing a row by one with the same key keeps the table consistent.
pub proof fn lemma_update_table_ok<T: TableRow>(s: Seq<T>, i: int, x: T, next: u64)
    requires
        table_ok(s, next),
        0 <= i < s.len(),
        x.key() == s[i].key(),
    ensures
        table_ok(s.update(i, x), next),
{
    let t = s.update(i, x);
    assert forall|a: int, b: int| 0 <= a < b < t.len() implies #[trigger] t[a].key() < #[trigger] t[b].key() by {
        assert(t[a].key() == s[a].key());
        assert(t[b].key() == s[b].key());
    }
    assert forall|a: int| 0 <= a < t.len() implies #[trigger] t[a].key() < next by {
        assert(t[a].key() == s[a].key());
    }
}


/// No two rows at different positions conflict.
pub open spec fn no_conflicts<T>(s: Seq<T>, c: spec_fn(T, T) -> bool) -> bool {
    forall|i: int, j: int|
        #![trigger s[i], s[j]]
        0 <= i < s.len() && 0 <= j < s.len() && i != j ==> !c(s[i], s[j])
}

/// Filtering never creates a conflict.
pub proof fn lemma_keep_no_conflicts<T>(s: Seq<T>, f: spec_fn(T) -> bool, c: spec_fn(T, T) -> bool)
    requires
        no_conflicts(s, c),
    ensures
        no_conflicts(keep(s, f), c),
    decreases s.len(),
{
    if s.len() > 0 {
        let d = s.drop_last();
        let last = s.last();
        assert(no_conflicts(d, c)) by {
            assert forall|i: int, j: int|
                #![trigger d[i], d[j]]
                0 <= i < d.len() && 0 <= j < d.len() && i != j implies !c(d[i], d[j]) by {
                assert(d[i] == s[i] && d[j] == s[j]);
            }
        }
        lemma_keep_no_conflicts(d, f, c);
        lemma_keep_contains(d, f);
        let kd = keep(d, f);
        let ks = keep(s, f);
        assert(ks == (if f(last) { kd.push(last) } else { kd }));
        if f(last) {
            assert forall|i: int, j: int|
                #![trigger ks[i], ks[j]]
                0 <= i < ks.len() && 0 <= j < ks.len() && i != j implies !c(ks[i], ks[j]) by {
                if i < kd.len() && j < kd.len() {
                    assert(ks[i] == kd[i] && ks[j] == kd[j]);
                } else if i < kd.len() {
                    assert(kd.contains(kd[i]));
                    let m = choose|m: int| 0 <= m < d.len() && d[m] == kd[i];
                    assert(s[m] == kd[i]);
                    assert(s[s.len() - 1] == last);
                    assert(!c(s[m], s[s.len() - 1]));
                } else {
                    assert(kd.contains(kd[j]));
                    let m = choose|m: int| 0 <= m < d.len() && d[m] == kd[j];
                    assert(s[m] == kd[j]);
                    assert(s[s.len() - 1] == last);
                    assert(!c(s[s.len() - 1], s[m]));
                }
            }
        }
    }
}

/// Appending a row that conflicts with no row keeps the table conflict-free.
pub proof fn lemma_push_no_conflicts<T>(s: Seq<T>, x: T, c: spec_fn(T, T) -> bool)
    requires
        no_conflicts(s, c),
        forall|i: int| 0 <= i < s.len() ==> !c(#[trigger] s[i], x) && !c(x, s[i]),
    ensures
        no_conflicts(s.push(x), c),
{
    let t = s.push(x);
    assert forall|i: int, j: int|
        #![trigger t[i], t[j]]
        0 <= i < t.len() && 0 <= j < t.len() && i != j implies !c(t[i], t[j]) by {
        if i < s.len() && j < s.len() {
            assert(t[i] == s[i] && t[j] == s[j]);
        } else if i < s.len() {
            assert(t[i] == s[i]);
        } else {
            assert(t[j] == s[j]);
        }
    }
}

/// Replacing a row by one that conflicts with no other row keeps the table conflict-free.
pub proof fn lemma_update_no_conflicts<T>(s: Seq<T>, k: int, x: T, c: spec_fn(T, T) -> bool)
    requires
        no_conflicts(s, c),
        0 <= k < s.len(),
        forall|i: int| 0 <= i < s.len() && i != k ==> !c(#[trigger] s[i], x) && !c(x, s[i]),
    ensures
        no_conflicts(s.update(k, x), c),
{
    let t = s.update(k, x);
    assert forall|i: int, j: int|
        #![trigger t[i], t[j]]
        0 <= i < t.len() && 0 <= j < t.len() && i != j implies !c(t[i], t[j]) by {
        if i != k && j != k {
            assert(t[i] == s[i] && t[j] == s[j]);
        } else if i != k {
            assert(t[i] == s[i]);
        } else {
            assert(t[j] == s[j]);
        }
    }
}

/// The position of the row with key `k`, if there is one.
pub fn find_key<T: TableRow>(rows: &Vec<T>, k: u64) -> (r: Option<usize>)
    requires
        keys_increasing(rows@),
    ensures
        match r {
            Some(i) => {
                &&& i < rows@.len()
                &&& rows@[i as int].key() == k
                &&& has_key(rows@, k)
                &&& key_index(rows@, k) == i
                &&& lookup(rows@, k) == Some(rows@[i as int])
            },
            None => !has_key(rows@, k) && lookup(rows@, k) is None,
        },
{
    let mut i: usize = 0;
    while i < rows.len()
        invariant
            i <= rows@.len(),
            keys_increasing(rows@),
            forall|j: int| 0 <= j < i ==> #[trigger] rows@[j].key() != k,
        decreases rows@.len() - i,
    {
        if rows[i].row_key() == k {
            proof {
                lemma_key_index(rows@, i as int);
            }
            return Some(i);
        }
        i = i + 1;
    }
    None
}

/// An owned copy of the row with key `k`, if there is one.
pub fn get_by_key<T: TableRow>(rows: &Vec<T>, k: u64) -> (r: Option<T>)
    requires
        keys_increasing(rows@),
    ensures
        r == lookup(rows@, k),
{
    match find_key(rows, k) {
        Some(i) => Some(rows[i].duplicate()),
        None => None,
    }
}

/// Replaces the row that has the same key as `row`.
pub fn update_by_key<T: TableRow>(rows: &mut Vec<T>, row: T)
    requires
        keys_increasing(old(rows)@),
        has_key(old(rows)@, row.key()),
    ensures
        final(rows)@ == old(rows)@.update(key_index(old(rows)@, row.key()), row),
{
    let k = row.row_key();
    let i = find_key(rows, k).unwrap();
    rows.set(i, row);
}

/// Removes the row with key `k`, if there is one.
pub fn delete_by_key<T: TableRow>(rows: &mut Vec<T>, k: u64)
    requires
        keys_increasing(old(rows)@),
    ensures
        final(rows)@ == keep(old(rows)@, key_is_not::<T>(k)),
{
    let ghost f = key_is_not::<T>(k);
    let mut out: Vec<T> = Vec::new();
    let mut i: usize = 0;
    while i < rows.len()
        invariant
            i <= rows@.len(),
            out@ == keep(rows@.take(i as int), f),
            f == key_is_not::<T>(k),
        decreases rows@.len() - i,
    {
        assert(rows@.take(i as int + 1).drop_last() =~= rows@.take(i as int));
        if rows[i].row_key() != k {
            out.push(rows[i].duplicate());
        }
        i = i + 1;
    }
    assert(rows@.take(rows@.len() as int) =~= rows@);
    *rows = out;
}

} // verus!
