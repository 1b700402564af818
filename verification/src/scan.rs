//! Scanning one store path into index entries: the deriver and source
//! classification, the split debug tree walk, and the executable walk.
//!
//! The walker outside the library lists directories and reads files; it
//! hands the names and bytes it saw to these functions, which decide
//! what every observation means.

use vstd::prelude::*;
use crate::elfid::{spec_buildid_of, buildid_of_bytes};
use crate::entry::{Entry, EntryModel, clone_opt};
use crate::storepath::{spec_debuginfo_path, spec_is_debug_output, debuginfo_path_for, is_debug_output};
use crate::text::spec_ends_with;
use crate::text::str_ends_with;

verus! {

/// What is known of a store path's derivation.
pub struct DerivInfo {
    /// The derivation that produced the path, if the store knows it.
    pub deriver: Option<String>,
    /// The source derivation: the deriver itself, when it is present on
    /// disk as a regular file.
    pub source: Option<String>,
}

/// Classifies a deriver query's answer: the deriver is kept as it came,
/// and doubles as the source exactly when it is a regular file.
pub fn classify_deriver(deriver: Option<String>, deriver_is_file: bool) -> (r: DerivInfo)
    ensures
        r.deriver.deep_view() == deriver.deep_view(),
        r.source.deep_view() == if deriver is Some && deriver_is_file {
            deriver.deep_view()
        } else {
            None::<Seq<char>>
        },
{
    match deriver {
        None => DerivInfo { deriver: None, source: None },
        Some(d) => {
            if deriver_is_file {
                let s = d.clone();
                DerivInfo { deriver: Some(d), source: Some(s) }
            } else {
                DerivInfo { deriver: Some(d), source: None }
            }
        },
    }
}

/// Why a deriver query's output names no usable derivation.
#[derive(Clone, Copy, Debug, PartialEq, Eq, Structural)]
pub enum DeriverError {
    /// The output is not one newline-terminated line.
    MalformedOutput,
    /// The tool answered with a placeholder instead of an absolute path.
    NoDeriver,
}

/// What the deriver query's output means: one newline-terminated
/// absolute path, or nothing.
pub open spec fn spec_parse_deriver(out: Seq<char>) -> Result<Seq<char>, DeriverError> {
    if out.len() <= 1 || out.last() != '\n' {
        Err(DeriverError::MalformedOutput)
    } else if out[0] != '/' {
        Err(DeriverError::NoDeriver)
    } else {
        Ok(out.drop_last())
    }
}

/// Parses the store tool's answer to a deriver query: the trailing
/// newline is stripped, and a non-absolute answer (the tool's way of
/// saying it does not know) is no deriver.
pub fn parse_deriver_output(out: &str) -> (r: Result<String, DeriverError>)
    ensures
        (match spec_parse_deriver(out@) {
            Ok(p) => r matches Ok(q) && q@ == p,
            Err(e) => r == Err::<String, DeriverError>(e),
        }),
{
    let n = out.unicode_len();
    if n <= 1 || out.get_char(n - 1) != '\n' {
        return Err(DeriverError::MalformedOutput);
    }
    if out.get_char(0) != '/' {
        return Err(DeriverError::NoDeriver);
    }
    Ok(out.substring_char(0, n - 1).to_owned())
}

/// The first newline in `s`, or -1.
pub open spec fn spec_find_newline(s: Seq<char>) -> int
    decreases s.len(),
{
    if s.len() == 0 {
        -1
    } else if s.first() == '\n' {
        0
    } else {
        let r = spec_find_newline(s.drop_first());
        if r == -1 {
            -1
        } else {
            r + 1
        }
    }
}

pub proof fn lemma_find_newline_first(s: Seq<char>, i: int)
    requires
        0 <= i <= s.len(),
        forall|j: int| 0 <= j < i ==> s[j] != '\n',
        i < s.len() ==> s[i] == '\n',
    ensures
        i < s.len() ==> spec_find_newline(s) == i,
        i == s.len() ==> spec_find_newline(s) == -1,
    decreases s.len(),
{
    if s.len() > 0 {
        if s.first() == '\n' {
        } else {
            assert(forall|j: int| 0 <= j < i - 1 ==> s.drop_first()[j] == s[j + 1]);
            lemma_find_newline_first(s.drop_first(), i - 1);
        }
    }
}

/// The first newline-separated segment of the outputs query's answer
/// that names a debug output, if any.
pub open spec fn spec_first_debug_output(s: Seq<char>) -> Option<Seq<char>>
    decreases s.len(),
{
    let i = spec_find_newline(s);
    if i < 0 {
        if spec_is_debug_output(s) {
            Some(s)
        } else {
            None
        }
    } else if i >= s.len() {
        None
    } else {
        let seg = s.subrange(0, i);
        if spec_is_debug_output(seg) {
            Some(seg)
        } else {
            spec_first_debug_output(s.subrange(i + 1, s.len() as int))
        }
    }
}

/// Finds the debug output among the outputs of a derivation, as the
/// store tool printed them: the first newline-separated path whose name
/// ends in `-debug`.
pub fn first_debug_output(s: &str) -> (r: Option<String>)
    ensures
        (match spec_first_debug_output(s@) {
            Some(p) => r matches Some(q) && q@ == p,
            None => r is None,
        }),
    decreases s@.len(),
{
    let n = s.unicode_len();
    let mut i: usize = 0;
    while i < n && s.get_char(i) != '\n'
        invariant
            i <= n,
            n == s@.len(),
            forall|j: int| 0 <= j < i ==> s@[j] != '\n',
        decreases n - i,
    {
        i += 1;
    }
    proof {
        lemma_find_newline_first(s@, i as int);
    }
    if i == n {
        if is_debug_output(s) {
            Some(s.to_owned())
        } else {
            None
        }
    } else {
        let seg = s.substring_char(0, i);
        if is_debug_output(seg) {
            Some(seg.to_owned())
        } else {
            first_debug_output(s.substring_char(i + 1, n))
        }
    }
}

/// The build-id a debug tree file stands for: the directory name and the
/// file's stem, concatenated.
pub open spec fn spec_debug_buildid(mid: Seq<char>, file: Seq<char>) -> Seq<char>
    recommends
        spec_ends_with(file, ".debug"@),
{
    mid + file.subrange(0, file.len() - 6)
}

/// Where a debug tree file lives under its store path.
pub open spec fn spec_debug_file_path(storepath: Seq<char>, mid: Seq<char>, file: Seq<char>) -> Seq<
    char,
> {
    storepath + "/lib/debug/.build-id/"@ + mid + "/"@ + file
}

/// The entry one file of a split debug tree yields: only names ending in
/// `.debug` count, and such a file names its build-id itself, so the
/// entry carries no executable.
pub open spec fn spec_debug_file_entry(
    storepath: Seq<char>,
    mid: Seq<char>,
    file: Seq<char>,
    source: Option<Seq<char>>,
) -> Option<EntryModel> {
    if spec_ends_with(file, ".debug"@) {
        Some(
            EntryModel {
                buildid: spec_debug_buildid(mid, file),
                executable: None,
                debuginfo: Some(spec_debug_file_path(storepath, mid, file)),
                source: source,
            },
        )
    } else {
        None
    }
}

/// Turns one file of a split debug tree into its entry, if it is one.
/// `mid_name` is the subdirectory (the build-id's first two digits by
/// convention, taken as it stands), `file_name` the file inside it.
pub fn debug_file_entry(storepath: &str, mid_name: &str, file_name: &str, source: &Option<String>) -> (r:
    Option<Entry>)
    ensures
        (match spec_debug_file_entry(storepath@, mid_name@, file_name@, source.deep_view()) {
            Some(m) => r matches Some(e) && e@ == m,
            None => r is None,
        }),
{
    if !str_ends_with(file_name, ".debug") {
        return None;
    }
    proof {
        reveal_strlit(".debug");
    }
    let mut buildid = mid_name.to_owned();
    buildid.push_str(file_name.substring_char(0, file_name.unicode_len() - 6));
    let mut debuginfo = storepath.to_owned();
    debuginfo.push_str("/lib/debug/.build-id/");
    debuginfo.push_str(mid_name);
    debuginfo.push_str("/");
    debuginfo.push_str(file_name);
    Some(
        Entry {
            buildid,
            executable: None,
            debuginfo: Some(debuginfo),
            source: clone_opt(source),
        },
    )
}

/// How the debug info of an ordinary file is decided: no known debug
/// output means none is recorded; a known one predicts the conventional
/// path, which is kept — even when the debug output is not on disk, since
/// it can be realized at read time — unless the debug output is present
/// locally and the prediction is not, an observed inconsistency.
pub open spec fn spec_debuginfo_decision(
    buildid: Seq<char>,
    debug_output: Option<Seq<char>>,
    debug_dir_exists: bool,
    predicted_is_file: bool,
) -> Option<Seq<char>> {
    match debug_output {
        None => None,
        Some(out) => if debug_dir_exists && !predicted_is_file {
            None
        } else {
            Some(spec_debuginfo_path(buildid, out))
        },
    }
}

/// Builds the entry of one ordinary file whose build-id is known.
/// `debug_dir_exists` says whether the debug output is on disk, and
/// `predicted_is_file` whether the predicted debug info path is.
pub fn regular_file_entry(
    buildid: String,
    path: String,
    debug_output: &Option<String>,
    debug_dir_exists: bool,
    predicted_is_file: bool,
    source: &Option<String>,
) -> (r: Entry)
    requires
        debug_output is Some ==> 2 <= buildid@.len(),
    ensures
        r@ == (EntryModel {
            buildid: buildid@,
            executable: Some(path@),
            debuginfo: spec_debuginfo_decision(
                buildid@,
                debug_output.deep_view(),
                debug_dir_exists,
                predicted_is_file,
            ),
            source: source.deep_view(),
        }),
{
    let debuginfo = match debug_output {
        None => None,
        Some(out) => {
            if debug_dir_exists && !predicted_is_file {
                None
            } else {
                Some(debuginfo_path_for(buildid.as_str(), out.as_str()))
            }
        },
    };
    Entry { buildid, executable: Some(path), debuginfo, source: clone_opt(source) }
}

/// Scans one regular file of an ordinary output. A file whose bytes
/// carry no build-id yields no entry; one that does yields an entry
/// whose build-id is exactly the hex of that note. A build-id shorter
/// than its two-digit directory prefix cannot be placed in a debug
/// output, so such a file is skipped when one is known.
pub fn scan_regular_file(
    data: &[u8],
    path: String,
    debug_output: &Option<String>,
    debug_dir_exists: bool,
    predicted_is_file: bool,
    source: &Option<String>,
) -> (r: Option<Entry>)
    ensures
        (match spec_buildid_of(data@) {
            None => r is None,
            Some(b) => if debug_output is Some && b.len() < 2 {
                r is None
            } else {
                r matches Some(e) && e@ == (EntryModel {
                    buildid: b,
                    executable: Some(path@),
                    debuginfo: spec_debuginfo_decision(
                        b,
                        debug_output.deep_view(),
                        debug_dir_exists,
                        predicted_is_file,
                    ),
                    source: source.deep_view(),
                })
            },
        }),
{
    match buildid_of_bytes(data) {
        None => None,
        Some(buildid) => {
            if debug_output.is_some() && buildid.unicode_len() < 2 {
                None
            } else {
                Some(
                    regular_file_entry(
                        buildid,
                        path,
                        debug_output,
                        debug_dir_exists,
                        predicted_is_file,
                        source,
                    ),
                )
            }
        },
    }
}

/// One subdirectory of a debug tree's `lib/debug` root, with the names
/// of the plain files inside it.
pub struct DebugDir {
    pub name: String,
    pub files: Vec<String>,
}

/// The mathematical shape of one listed subdirectory.
pub struct DebugDirModel {
    pub name: Seq<char>,
    pub files: Seq<Seq<char>>,
}

impl View for DebugDir {
    type V = DebugDirModel;

    open spec fn view(&self) -> DebugDirModel {
        DebugDirModel { name: self.name@, files: self.files.deep_view() }
    }
}

/// The entries of one subdirectory's files, in order.
pub open spec fn spec_dir_entries(
    storepath: Seq<char>,
    mid: Seq<char>,
    files: Seq<Seq<char>>,
    source: Option<Seq<char>>,
) -> Seq<EntryModel>
    decreases files.len(),
{
    if files.len() == 0 {
        Seq::empty()
    } else {
        spec_dir_entries(storepath, mid, files.drop_last(), source) + (match spec_debug_file_entry(
            storepath,
            mid,
            files.last(),
            source,
        ) {
            None => Seq::empty(),
            Some(m) => seq![m],
        })
    }
}

/// The entries of a whole debug tree listing, in order.
pub open spec fn spec_debug_entries(
    storepath: Seq<char>,
    dirs: Seq<DebugDirModel>,
    source: Option<Seq<char>>,
) -> Seq<EntryModel>
    decreases dirs.len(),
{
    if dirs.len() == 0 {
        Seq::empty()
    } else {
        spec_debug_entries(storepath, dirs.drop_last(), source) + spec_dir_entries(
            storepath,
            dirs.last().name,
            dirs.last().files,
            source,
        )
    }
}

/// Scans one listed subdirectory of a debug tree.
pub fn scan_debug_dir(storepath: &str, mid_name: &str, files: &Vec<String>, source: &Option<
    String,
>) -> (out: Vec<Entry>)
    ensures
        out@.map_values(|e: Entry| e@) == spec_dir_entries(
            storepath@,
            mid_name@,
            files.deep_view(),
            source.deep_view(),
        ),
{
    let ghost fm = files.deep_view();
    let mut out: Vec<Entry> = Vec::new();
    let n = files.len();
    let mut i: usize = 0;
    proof {
        assert(out@.map_values(|e: Entry| e@) =~= spec_dir_entries(
            storepath@,
            mid_name@,
            fm.subrange(0, 0),
            source.deep_view(),
        ));
    }
    while i < n
        invariant
            n == files.len(),
            fm == files.deep_view(),
            i <= n,
            out@.map_values(|e: Entry| e@) == spec_dir_entries(
                storepath@,
                mid_name@,
                fm.subrange(0, i as int),
                source.deep_view(),
            ),
        decreases n - i,
    {
        proof {
            assert(fm.subrange(0, i + 1).drop_last() =~= fm.subrange(0, i as int));
            assert(fm.subrange(0, i + 1).last() == fm[i as int]);
            assert(fm[i as int] == files@[i as int]@);
        }
        match debug_file_entry(storepath, mid_name, files[i].as_str(), source) {
            None => (),
            Some(e) => {
                out.push(e);
            },
        }
        proof {
            assert(out@.map_values(|e: Entry| e@) =~= spec_dir_entries(
                storepath@,
                mid_name@,
                fm.subrange(0, i + 1),
                source.deep_view(),
            ));
        }
        i += 1;
    }
    proof {
        assert(fm.subrange(0, n as int) =~= fm);
    }
    out
}

/// Scans a whole split debug tree from its listing: every `.debug` file
/// of every listed subdirectory becomes an entry.
pub fn scan_debug_listing(storepath: &str, dirs: &Vec<DebugDir>, source: &Option<String>) -> (out:
    Vec<Entry>)
    ensures
        out@.map_values(|e: Entry| e@) == spec_debug_entries(
            storepath@,
            dirs@.map_values(|d: DebugDir| d@),
            source.deep_view(),
        ),
{
    let ghost dm = dirs@.map_values(|d: DebugDir| d@);
    let mut out: Vec<Entry> = Vec::new();
    let n = dirs.len();
    let mut i: usize = 0;
    proof {
        assert(out@.map_values(|e: Entry| e@) =~= spec_debug_entries(
            storepath@,
            dm.subrange(0, 0),
            source.deep_view(),
        ));
    }
    while i < n
        invariant
            n == dirs.len(),
            dm == dirs@.map_values(|d: DebugDir| d@),
            i <= n,
            out@.map_values(|e: Entry| e@) == spec_debug_entries(
                storepath@,
                dm.subrange(0, i as int),
                source.deep_view(),
            ),
        decreases n - i,
    {
        proof {
            assert(dm.subrange(0, i + 1).drop_last() =~= dm.subrange(0, i as int));
            assert(dm.subrange(0, i + 1).last() == dm[i as int]);
            assert(dm[i as int] == dirs@[i as int]@);
        }
        let mut found = scan_debug_dir(
            storepath,
            dirs[i].name.as_str(),
            &dirs[i].files,
            source,
        );
        let ghost prev = out@;
        out.append(&mut found);
        proof {
            assert(out@.map_values(|e: Entry| e@) =~= spec_debug_entries(
                storepath@,
                dm.subrange(0, i + 1),
                source.deep_view(),
            ));
        }
        i += 1;
    }
    proof {
        assert(dm.subrange(0, n as int) =~= dm);
    }
    out
}

} // verus!
