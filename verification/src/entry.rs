//! The index record: a build-id and the paths known for it.

use vstd::prelude::*;

verus! {

/// One index record. Two scans may each learn part of a record (one the
/// executable, another the debug info); the cache merges them per field.
#[derive(Clone, Debug, PartialEq)]
pub struct Entry {
    /// Lowercase hex build-id; the key of the record.
    pub buildid: String,
    /// Path of the ELF file carrying this build-id, if one was seen.
    pub executable: Option<String>,
    /// Path of the separate debug info file, if known.
    pub debuginfo: Option<String>,
    /// Path of the source derivation, if known.
    pub source: Option<String>,
}

/// The mathematical shape of an index record.
pub struct EntryModel {
    pub buildid: Seq<char>,
    pub executable: Option<Seq<char>>,
    pub debuginfo: Option<Seq<char>>,
    pub source: Option<Seq<char>>,
}

impl View for Entry {
    type V = EntryModel;

    open spec fn view(&self) -> EntryModel {
        EntryModel {
            buildid: self.buildid@,
            executable: self.executable.deep_view(),
            debuginfo: self.debuginfo.deep_view(),
            source: self.source.deep_view(),
        }
    }
}

/// A later non-null value wins; a null leaves the field alone.
pub open spec fn merge_field(base: Option<Seq<char>>, update: Option<Seq<char>>) -> Option<
    Seq<char>,
> {
    if update is Some {
        update
    } else {
        base
    }
}

/// The per-field upsert of one entry into an existing record.
pub open spec fn merge_model(base: EntryModel, e: EntryModel) -> EntryModel {
    EntryModel {
        buildid: base.buildid,
        executable: merge_field(base.executable, e.executable),
        debuginfo: merge_field(base.debuginfo, e.debuginfo),
        source: merge_field(base.source, e.source),
    }
}

/// The record a key has before anything was learned of it.
pub open spec fn empty_row(k: Seq<char>) -> EntryModel {
    EntryModel { buildid: k, executable: None, debuginfo: None, source: None }
}

pub fn clone_opt(o: &Option<String>) -> (r: Option<String>)
    ensures
        r.deep_view() == o.deep_view(),
{
    match o {
        None => None,
        Some(s) => Some(s.clone()),
    }
}

/// Clones `update` where it is set, `base` where it is not.
pub fn merge_opt(base: &Option<String>, update: &Option<String>) -> (r: Option<String>)
    ensures
        r.deep_view() == merge_field(base.deep_view(), update.deep_view()),
{
    match update {
        Some(s) => Some(s.clone()),
        None => clone_opt(base),
    }
}

} // verus!
