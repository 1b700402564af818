//! ELF build-id extraction from file contents.

use vstd::prelude::*;
use object::read::Object;
use crate::hexid::{hex_lower, buildid_hex};

verus! {

/// The GNU build-id note carried by an object file with these bytes,
/// or None if the bytes do not parse as an object file or carry no
/// such note. A function of the bytes alone.
pub uninterp spec fn elf_build_id_of(data: Seq<u8>) -> Option<Seq<u8>>;

/// Relies on object::read::File::parse and object::read::Object::build_id:
/// the GNU build-id note is a function of the file bytes alone. A parse
/// failure, a malformed note and a missing note all come back as None.
#[verifier::external_body]
fn elf_build_id(data: &[u8]) -> (r: Option<Vec<u8>>)
    ensures
        r.deep_view() == elf_build_id_of(data@),
{
    match object::read::File::parse(data) {
        Err(_) => None,
        Ok(file) => match file.build_id() {
            Err(_) => None,
            Ok(note) => note.map(|b| b.to_vec()),
        },
    }
}

/// The build-id of a file with these bytes, as a lowercase hex string,
/// or None if the bytes are not an object file with a build-id note.
pub open spec fn spec_buildid_of(data: Seq<u8>) -> Option<Seq<char>> {
    match elf_build_id_of(data) {
        None => None,
        Some(raw) => Some(hex_lower(raw)),
    }
}

/// Returns the lowercase hex build-id of the file whose contents are
/// `data`, or None if `data` is not an object file carrying one.
pub fn buildid_of_bytes(data: &[u8]) -> (r: Option<String>)
    ensures
        r.deep_view() == spec_buildid_of(data@),
{
    match elf_build_id(data) {
        None => None,
        Some(raw) => {
            proof {
                assert(raw.deep_view() =~= raw@);
            }
            Some(buildid_hex(raw.as_slice()))
        },
    }
}

} // verus!
