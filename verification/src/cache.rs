//! The index: records keyed by build-id, merged per field on write,
//! beside the registration watermark.

use vstd::prelude::*;
use crate::entry::{Entry, EntryModel, merge_model, merge_field, empty_row, merge_opt, clone_opt};
use crate::text::chars_eq;

verus! {

/// The registration watermark: seconds, as the store database keeps them.
pub type Timestamp = i64;

/// Index of the first record with key `k`, or -1.
pub open spec fn find_idx(rows: Seq<EntryModel>, k: Seq<char>) -> int
    decreases rows.len(),
{
    if rows.len() == 0 {
        -1
    } else if rows.first().buildid == k {
        0
    } else {
        let r = find_idx(rows.drop_first(), k);
        if r == -1 {
            -1
        } else {
            r + 1
        }
    }
}

/// The first record with key `k`, if any.
pub open spec fn spec_find(rows: Seq<EntryModel>, k: Seq<char>) -> Option<EntryModel> {
    let i = find_idx(rows, k);
    if i == -1 {
        None
    } else {
        Some(rows[i])
    }
}

/// What one upsert does to the records.
pub open spec fn spec_register(rows: Seq<EntryModel>, e: EntryModel) -> Seq<EntryModel> {
    let i = find_idx(rows, e.buildid);
    if i == -1 {
        rows.push(merge_model(empty_row(e.buildid), e))
    } else {
        rows.update(i, merge_model(rows[i], e))
    }
}

pub proof fn lemma_find_idx_props(rows: Seq<EntryModel>, k: Seq<char>)
    ensures
        find_idx(rows, k) == -1 ==> forall|j: int| 0 <= j < rows.len() ==> rows[j].buildid != k,
        find_idx(rows, k) != -1 ==> 0 <= find_idx(rows, k) < rows.len() && rows[find_idx(
            rows,
            k,
        )].buildid == k && forall|j: int| 0 <= j < find_idx(rows, k) ==> rows[j].buildid != k,
    decreases rows.len(),
{
    if rows.len() > 0 && rows.first().buildid != k {
        lemma_find_idx_props(rows.drop_first(), k);
        assert(forall|j: int|
            1 <= j < rows.len() ==> rows[j] == rows.drop_first()[j - 1]);
    }
}

pub proof fn lemma_find_idx_first(rows: Seq<EntryModel>, k: Seq<char>, i: int)
    requires
        0 <= i <= rows.len(),
        forall|j: int| 0 <= j < i ==> rows[j].buildid != k,
        i < rows.len() ==> rows[i].buildid == k,
    ensures
        i < rows.len() ==> find_idx(rows, k) == i,
        i == rows.len() ==> find_idx(rows, k) == -1,
    decreases rows.len(),
{
    if rows.len() > 0 {
        if rows.first().buildid == k {
        } else {
            assert(forall|j: int|
                0 <= j < i - 1 ==> rows.drop_first()[j] == rows[j + 1]);
            lemma_find_idx_first(rows.drop_first(), k, i - 1);
        }
    }
}

/// The records after a whole sequence of upserts, first to last.
pub open spec fn apply_all(rows: Seq<EntryModel>, es: Seq<EntryModel>) -> Seq<EntryModel>
    decreases es.len(),
{
    if es.len() == 0 {
        rows
    } else {
        apply_all(spec_register(rows, es.first()), es.drop_first())
    }
}

/// The last set value in a sequence of field updates, if any.
pub open spec fn last_some(vals: Seq<Option<Seq<char>>>) -> Option<Seq<char>>
    decreases vals.len(),
{
    if vals.len() == 0 {
        None
    } else if vals.last() is Some {
        vals.last()
    } else {
        last_some(vals.drop_last())
    }
}

/// The record a key holds before an upsert is merged in: its present
/// row, or the empty row if the key is unknown.
pub open spec fn base_row(rows: Seq<EntryModel>, k: Seq<char>) -> EntryModel {
    match spec_find(rows, k) {
        None => empty_row(k),
        Some(m) => m,
    }
}

pub proof fn lemma_apply_all_push(rows: Seq<EntryModel>, es: Seq<EntryModel>, e: EntryModel)
    ensures
        apply_all(rows, es.push(e)) == spec_register(apply_all(rows, es), e),
    decreases es.len(),
{
    assert(es.push(e).first() == if es.len() == 0 {
        e
    } else {
        es.first()
    });
    if es.len() == 0 {
        assert(es =~= Seq::<EntryModel>::empty());
        assert(es.push(e).drop_first() =~= Seq::<EntryModel>::empty());
        assert(apply_all(rows, es.push(e)) == apply_all(spec_register(rows, e), es.push(e).drop_first()));
    } else {
        assert(es.push(e).first() == es.first());
        assert(es.push(e).drop_first() =~= es.drop_first().push(e));
        lemma_apply_all_push(spec_register(rows, es.first()), es.drop_first(), e);
    }
}

/// One upsert leaves the registered key holding the merge of its prior
/// row with the entry.
pub proof fn lemma_register_find_same(rows: Seq<EntryModel>, e: EntryModel)
    ensures
        spec_find(spec_register(rows, e), e.buildid) == Some(merge_model(base_row(rows, e.buildid), e)),
{
    lemma_find_idx_props(rows, e.buildid);
    let i = find_idx(rows, e.buildid);
    if i == -1 {
        let m = merge_model(empty_row(e.buildid), e);
        lemma_find_idx_first(rows.push(m), e.buildid, rows.len() as int);
    } else {
        let m = merge_model(rows[i], e);
        lemma_find_idx_first(rows.update(i, m), e.buildid, i);
    }
}

/// One upsert leaves every other key's row untouched.
pub proof fn lemma_register_find_other(rows: Seq<EntryModel>, e: EntryModel, k: Seq<char>)
    requires
        k != e.buildid,
    ensures
        spec_find(spec_register(rows, e), k) == spec_find(rows, k),
{
    lemma_find_idx_props(rows, e.buildid);
    lemma_find_idx_props(rows, k);
    let i = find_idx(rows, e.buildid);
    let j = find_idx(rows, k);
    if i == -1 {
        let m = merge_model(empty_row(e.buildid), e);
        if j == -1 {
            lemma_find_idx_first(rows.push(m), k, rows.len() + 1int);
        } else {
            lemma_find_idx_first(rows.push(m), k, j);
        }
    } else {
        let m = merge_model(rows[i], e);
        if j == -1 {
            lemma_find_idx_first(rows.update(i, m), k, rows.len() as int);
        } else {
            lemma_find_idx_first(rows.update(i, m), k, j);
        }
    }
}

/// Upsert law, one key: after any sequence of upserts for key `k`, each
/// field of its row holds the last value an upsert set, and where none
/// set the field it keeps what the key held before.
pub proof fn lemma_upsert_last_non_null(rows: Seq<EntryModel>, es: Seq<EntryModel>, k: Seq<char>)
    requires
        es.len() > 0,
        forall|i: int| 0 <= i < es.len() ==> #[trigger] es[i].buildid == k,
    ensures
        ({
            let base = base_row(rows, k);
            let fin = spec_find(apply_all(rows, es), k);
            &&& fin is Some
            &&& fin.unwrap().buildid == base.buildid
            &&& fin.unwrap().executable == merge_field(
                base.executable,
                last_some(es.map_values(|e: EntryModel| e.executable)),
            )
            &&& fin.unwrap().debuginfo == merge_field(
                base.debuginfo,
                last_some(es.map_values(|e: EntryModel| e.debuginfo)),
            )
            &&& fin.unwrap().source == merge_field(
                base.source,
                last_some(es.map_values(|e: EntryModel| e.source)),
            )
        }),
    decreases es.len(),
{
    let e = es.last();
    let es0 = es.drop_last();
    assert(es[es.len() - 1].buildid == k);
    assert(e.buildid == k);
    assert(forall|i: int| 0 <= i < es0.len() ==> es0[i] == es[i]);
    assert(es =~= es0.push(e));
    lemma_apply_all_push(rows, es0, e);
    lemma_register_find_same(apply_all(rows, es0), e);
    let exs = es.map_values(|x: EntryModel| x.executable);
    let dbs = es.map_values(|x: EntryModel| x.debuginfo);
    let srcs = es.map_values(|x: EntryModel| x.source);
    if es0.len() == 0 {
        assert(apply_all(rows, es0) == rows);
        assert(exs.drop_last() =~= Seq::<Option<Seq<char>>>::empty());
        assert(dbs.drop_last() =~= Seq::<Option<Seq<char>>>::empty());
        assert(srcs.drop_last() =~= Seq::<Option<Seq<char>>>::empty());
        assert(exs.last() == e.executable);
        assert(dbs.last() == e.debuginfo);
        assert(srcs.last() == e.source);
    } else {
        lemma_upsert_last_non_null(rows, es0, k);
        assert(exs.drop_last() =~= es0.map_values(|x: EntryModel| x.executable));
        assert(dbs.drop_last() =~= es0.map_values(|x: EntryModel| x.debuginfo));
        assert(srcs.drop_last() =~= es0.map_values(|x: EntryModel| x.source));
        assert(exs.last() == e.executable);
        assert(dbs.last() == e.debuginfo);
        assert(srcs.last() == e.source);
    }
    let base = base_row(rows, k);
    let fin = spec_find(apply_all(rows, es), k);
    assert(apply_all(rows, es) == spec_register(apply_all(rows, es0), e));
    assert(fin == Some(merge_model(base_row(apply_all(rows, es0), e.buildid), e)));
    assert(exs.len() == es.len() && dbs.len() == es.len() && srcs.len() == es.len());
    if e.executable is Some {
        assert(last_some(exs) == e.executable);
    } else {
        assert(last_some(exs) == last_some(exs.drop_last()));
    }
    if e.debuginfo is Some {
        assert(last_some(dbs) == e.debuginfo);
    } else {
        assert(last_some(dbs) == last_some(dbs.drop_last()));
    }
    if e.source is Some {
        assert(last_some(srcs) == e.source);
    } else {
        assert(last_some(srcs) == last_some(srcs.drop_last()));
    }
    if es0.len() == 0 {
        assert(last_some(Seq::<Option<Seq<char>>>::empty()) == None::<Seq<char>>);
        assert(base_row(apply_all(rows, es0), e.buildid) == base);
    } else {
        assert(base_row(apply_all(rows, es0), e.buildid) == spec_find(apply_all(rows, es0), k).unwrap());
    }
    assert(fin.unwrap().executable =~= merge_field(base.executable, last_some(exs)));
    assert(fin.unwrap().debuginfo =~= merge_field(base.debuginfo, last_some(dbs)));
    assert(fin.unwrap().source =~= merge_field(base.source, last_some(srcs)));
}

/// Upsert law, other keys: a sequence of upserts for key `k` leaves the
/// row of every other key exactly as it was.
pub proof fn lemma_upsert_other_keys(
    rows: Seq<EntryModel>,
    es: Seq<EntryModel>,
    k: Seq<char>,
    other: Seq<char>,
)
    requires
        other != k,
        forall|i: int| 0 <= i < es.len() ==> #[trigger] es[i].buildid == k,
    ensures
        spec_find(apply_all(rows, es), other) == spec_find(rows, other),
    decreases es.len(),
{
    if es.len() > 0 {
        lemma_register_find_other(rows, es.first(), other);
        lemma_upsert_other_keys(spec_register(rows, es.first()), es.drop_first(), k, other);
    }
}

/// The cache: all records, in the order their keys were first seen, and
/// the persisted watermark.
pub struct Cache {
    rows: Vec<Entry>,
    watermark: Timestamp,
}

impl Cache {
    /// All records, as the mathematical model of the cache.
    pub closed spec fn model(&self) -> Seq<EntryModel> {
        self.rows@.map_values(|e: Entry| e@)
    }

    /// The persisted watermark, 0 until one was set.
    pub closed spec fn spec_watermark(&self) -> Timestamp {
        self.watermark
    }

    /// Opens an empty cache with watermark 0.
    pub fn open() -> (r: Cache)
        ensures
            r.model() == Seq::<EntryModel>::empty(),
            r.spec_watermark() == 0,
    {
        let r = Cache { rows: Vec::new(), watermark: 0 };
        proof {
            assert(r.model() =~= Seq::<EntryModel>::empty());
        }
        r
    }

    /// Upserts one entry: each field of the row keyed by the entry's
    /// build-id takes the entry's value where that value is set, and is
    /// left alone where it is not; an unknown key gains a fresh row.
    pub fn register(&mut self, entry: &Entry)
        ensures
            final(self).model() == spec_register(old(self).model(), entry@),
            final(self).spec_watermark() == old(self).spec_watermark(),
    {
        let ghost m0 = self.model();
        let n = self.rows.len();
        let mut i: usize = 0;
        while i < n
            invariant
                n == self.rows.len(),
                m0 == self.model(),
                i <= n,
                forall|j: int| 0 <= j < i ==> #[trigger] self.model()[j].buildid != entry@.buildid,
                *self == *old(self),
            decreases n - i,
        {
            if chars_eq(self.rows[i].buildid.as_str(), entry.buildid.as_str()) {
                proof {
                    lemma_find_idx_first(m0, entry@.buildid, i as int);
                }
                let merged = Entry {
                    buildid: self.rows[i].buildid.clone(),
                    executable: merge_opt(&self.rows[i].executable, &entry.executable),
                    debuginfo: merge_opt(&self.rows[i].debuginfo, &entry.debuginfo),
                    source: merge_opt(&self.rows[i].source, &entry.source),
                };
                proof {
                    assert(merged@ == merge_model(m0[i as int], entry@));
                }
                self.rows[i] = merged;
                proof {
                    assert(final(self).model() =~= spec_register(m0, entry@));
                }
                return;
            }
            i += 1;
        }
        proof {
            lemma_find_idx_first(m0, entry@.buildid, n as int);
        }
        let fresh = Entry {
            buildid: entry.buildid.clone(),
            executable: clone_opt(&entry.executable),
            debuginfo: clone_opt(&entry.debuginfo),
            source: clone_opt(&entry.source),
        };
        proof {
            assert(fresh@ == merge_model(empty_row(entry@.buildid), entry@));
        }
        self.rows.push(fresh);
        proof {
            assert(final(self).model() =~= spec_register(m0, entry@));
        }
    }

    fn find(&self, buildid: &str) -> (r: Option<&Entry>)
        ensures
            match r {
                Some(e) => spec_find(self.model(), buildid@) == Some(e@),
                None => spec_find(self.model(), buildid@) is None,
            },
    {
        let n = self.rows.len();
        let mut i: usize = 0;
        while i < n
            invariant
                n == self.rows.len(),
                i <= n,
                forall|j: int| 0 <= j < i ==> #[trigger] self.model()[j].buildid != buildid@,
            decreases n - i,
        {
            if chars_eq(self.rows[i].buildid.as_str(), buildid) {
                proof {
                    lemma_find_idx_first(self.model(), buildid@, i as int);
                }
                return Some(&self.rows[i]);
            }
            i += 1;
        }
        proof {
            lemma_find_idx_first(self.model(), buildid@, n as int);
        }
        None
    }

    /// The stored debug info path for a build-id, or None if unknown.
    pub fn get_debuginfo(&self, buildid: &str) -> (r: Option<String>)
        ensures
            r.deep_view() == match spec_find(self.model(), buildid@) {
                Some(m) => m.debuginfo,
                None => None::<Seq<char>>,
            },
    {
        match self.find(buildid) {
            Some(e) => clone_opt(&e.debuginfo),
            None => None,
        }
    }

    /// The stored executable path for a build-id, or None if unknown.
    pub fn get_executable(&self, buildid: &str) -> (r: Option<String>)
        ensures
            r.deep_view() == match spec_find(self.model(), buildid@) {
                Some(m) => m.executable,
                None => None::<Seq<char>>,
            },
    {
        match self.find(buildid) {
            Some(e) => clone_opt(&e.executable),
            None => None,
        }
    }

    /// The stored source path for a build-id, or None if unknown.
    pub fn get_source(&self, buildid: &str) -> (r: Option<String>)
        ensures
            r.deep_view() == match spec_find(self.model(), buildid@) {
                Some(m) => m.source,
                None => None::<Seq<char>>,
            },
    {
        match self.find(buildid) {
            Some(e) => clone_opt(&e.source),
            None => None,
        }
    }

    /// The persisted watermark.
    pub fn get_registration_timestamp(&self) -> (r: Timestamp)
        ensures
            r == self.spec_watermark(),
    {
        self.watermark
    }

    /// Overwrites the watermark.
    pub fn set_registration_timestamp(&mut self, t: Timestamp)
        ensures
            final(self).spec_watermark() == t,
            final(self).model() == old(self).model(),
    {
        self.watermark = t;
    }
}

} // verus!
