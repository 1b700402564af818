//! The scanner: build-id extraction, path prediction, and the entries a
//! store path yields.

use buildid_index::elfid::buildid_of_bytes;
use buildid_index::hexid::buildid_hex;
use buildid_index::scan::{
    classify_deriver, debug_file_entry, first_debug_output, parse_deriver_output,
    regular_file_entry, scan_debug_listing, scan_regular_file, DebugDir, DeriverError,
};
use buildid_index::storepath::{debuginfo_path_for, is_debug_output, valid_store_path};
use buildid_index::entry::Entry;

/// A minimal 64-bit little-endian ELF whose only program header is a
/// PT_NOTE segment carrying a GNU build-id note with the given bytes.
fn elf_with_build_id(id: &[u8]) -> Vec<u8> {
    let mut b: Vec<u8> = Vec::new();
    // ELF identification
    b.extend_from_slice(&[0x7f, b'E', b'L', b'F', 2, 1, 1, 0, 0, 0, 0, 0, 0, 0, 0, 0]);
    b.extend_from_slice(&2u16.to_le_bytes()); // e_type: executable
    b.extend_from_slice(&62u16.to_le_bytes()); // e_machine: x86-64
    b.extend_from_slice(&1u32.to_le_bytes()); // e_version
    b.extend_from_slice(&0u64.to_le_bytes()); // e_entry
    b.extend_from_slice(&64u64.to_le_bytes()); // e_phoff
    b.extend_from_slice(&0u64.to_le_bytes()); // e_shoff
    b.extend_from_slice(&0u32.to_le_bytes()); // e_flags
    b.extend_from_slice(&64u16.to_le_bytes()); // e_ehsize
    b.extend_from_slice(&56u16.to_le_bytes()); // e_phentsize
    b.extend_from_slice(&1u16.to_le_bytes()); // e_phnum
    b.extend_from_slice(&0u16.to_le_bytes()); // e_shentsize
    b.extend_from_slice(&0u16.to_le_bytes()); // e_shnum
    b.extend_from_slice(&0u16.to_le_bytes()); // e_shstrndx
    assert_eq!(b.len(), 64);
    let note_len = 12 + 4 + id.len();
    // program header: one PT_NOTE segment
    b.extend_from_slice(&4u32.to_le_bytes()); // p_type: note
    b.extend_from_slice(&4u32.to_le_bytes()); // p_flags: readable
    b.extend_from_slice(&120u64.to_le_bytes()); // p_offset
    b.extend_from_slice(&0u64.to_le_bytes()); // p_vaddr
    b.extend_from_slice(&0u64.to_le_bytes()); // p_paddr
    b.extend_from_slice(&(note_len as u64).to_le_bytes()); // p_filesz
    b.extend_from_slice(&(note_len as u64).to_le_bytes()); // p_memsz
    b.extend_from_slice(&4u64.to_le_bytes()); // p_align
    assert_eq!(b.len(), 120);
    // the note: GNU build-id
    b.extend_from_slice(&4u32.to_le_bytes()); // n_namesz
    b.extend_from_slice(&(id.len() as u32).to_le_bytes()); // n_descsz
    b.extend_from_slice(&3u32.to_le_bytes()); // n_type: NT_GNU_BUILD_ID
    b.extend_from_slice(b"GNU\0");
    b.extend_from_slice(id);
    b
}

#[test]
fn hex_encoding_is_lowercase_two_digits_per_byte() {
    assert_eq!(buildid_hex(&[0x01, 0x23, 0xab, 0xcd]), "0123abcd");
    assert_eq!(buildid_hex(&[0x00, 0xff]), "00ff");
    assert_eq!(buildid_hex(&[]), "");
}

#[test]
fn build_id_extracted_from_elf_bytes() {
    let elf = elf_with_build_id(&[0x01, 0x23, 0xab, 0xcd]);
    assert_eq!(buildid_of_bytes(&elf), Some("0123abcd".to_owned()));
}

#[test]
fn non_elf_bytes_have_no_build_id() {
    assert_eq!(buildid_of_bytes(b"just some text, no object file"), None);
    assert_eq!(buildid_of_bytes(&[]), None);
}

#[test]
fn predicted_debug_path_follows_convention() {
    assert_eq!(
        debuginfo_path_for("0123abcd", "/nix/store/bbb-hello-debug"),
        "/nix/store/bbb-hello-debug/lib/debug/.build-id/01/23abcd.debug"
    );
}

#[test]
fn ordinary_output_scan_correlates_with_debug_sibling() {
    // An executable with a build-id whose deriver has a debug output that
    // is present on disk together with the predicted file.
    let elf = elf_with_build_id(&[0x01, 0x23, 0xab, 0xcd]);
    let entry = scan_regular_file(
        &elf,
        "/nix/store/aaa-hello/bin/hello".to_owned(),
        &Some("/nix/store/bbb-hello-debug".to_owned()),
        true,
        true,
        &None,
    );
    assert_eq!(
        entry,
        Some(Entry {
            buildid: "0123abcd".to_owned(),
            executable: Some("/nix/store/aaa-hello/bin/hello".to_owned()),
            debuginfo: Some(
                "/nix/store/bbb-hello-debug/lib/debug/.build-id/01/23abcd.debug".to_owned()
            ),
            source: None,
        })
    );
}

#[test]
fn file_without_build_id_yields_no_entry() {
    let entry = scan_regular_file(
        b"#!/bin/sh\necho hello\n",
        "/nix/store/aaa-hello/bin/hello.sh".to_owned(),
        &Some("/nix/store/bbb-hello-debug".to_owned()),
        true,
        true,
        &None,
    );
    assert_eq!(entry, None);
}

#[test]
fn observed_inconsistency_leaves_debuginfo_unset() {
    // The debug output is on disk but the predicted file is not.
    let elf = elf_with_build_id(&[0x01, 0x23, 0xab, 0xcd]);
    let entry = scan_regular_file(
        &elf,
        "/nix/store/aaa-hello/bin/hello".to_owned(),
        &Some("/nix/store/bbb-hello-debug".to_owned()),
        true,
        false,
        &None,
    ).unwrap();
    assert_eq!(entry.debuginfo, None);
    assert_eq!(entry.buildid, "0123abcd");
}

#[test]
fn garbage_collected_debug_output_is_predicted_optimistically() {
    let elf = elf_with_build_id(&[0x01, 0x23, 0xab, 0xcd]);
    let entry = scan_regular_file(
        &elf,
        "/nix/store/aaa-hello/bin/hello".to_owned(),
        &Some("/nix/store/bbb-hello-debug".to_owned()),
        false,
        false,
        &None,
    ).unwrap();
    assert_eq!(
        entry.debuginfo,
        Some("/nix/store/bbb-hello-debug/lib/debug/.build-id/01/23abcd.debug".to_owned())
    );
}

#[test]
fn debug_tree_walk_synthesizes_entries_without_executable() {
    let dirs = vec![DebugDir {
        name: "01".to_owned(),
        files: vec!["23abcd.debug".to_owned(), "README".to_owned()],
    }];
    let entries = scan_debug_listing("/nix/store/bbb-hello-debug", &dirs, &None);
    assert_eq!(
        entries,
        vec![Entry {
            buildid: "0123abcd".to_owned(),
            executable: None,
            debuginfo: Some(
                "/nix/store/bbb-hello-debug/lib/debug/.build-id/01/23abcd.debug".to_owned()
            ),
            source: None,
        }]
    );
}

#[test]
fn debug_file_entry_wants_the_debug_suffix() {
    assert_eq!(
        debug_file_entry("/nix/store/x-debug", "01", "23abcd.dbg", &None),
        None
    );
}

#[test]
fn store_path_classification() {
    assert!(is_debug_output("/nix/store/bbb-hello-debug"));
    assert!(!is_debug_output("/nix/store/aaa-hello"));
    assert!(valid_store_path("/nix/store/aaa-hello"));
    assert!(!valid_store_path("/tmp/aaa-hello"));
    assert!(!valid_store_path("/nix/store/aaa/hello"));
}

#[test]
fn deriver_output_parsing() {
    assert_eq!(
        parse_deriver_output("/nix/store/ccc-hello.drv\n"),
        Ok("/nix/store/ccc-hello.drv".to_owned())
    );
    assert_eq!(
        parse_deriver_output("unknown-deriver\n"),
        Err(DeriverError::NoDeriver)
    );
    assert_eq!(
        parse_deriver_output("/nix/store/ccc-hello.drv"),
        Err(DeriverError::MalformedOutput)
    );
    assert_eq!(parse_deriver_output("\n"), Err(DeriverError::MalformedOutput));
    assert_eq!(parse_deriver_output(""), Err(DeriverError::MalformedOutput));
}

#[test]
fn first_debug_output_finds_the_debug_sibling() {
    assert_eq!(
        first_debug_output("/nix/store/aaa-hello\n/nix/store/bbb-hello-debug\n"),
        Some("/nix/store/bbb-hello-debug".to_owned())
    );
    assert_eq!(first_debug_output("/nix/store/aaa-hello\n"), None);
    assert_eq!(first_debug_output(""), None);
    assert_eq!(
        first_debug_output("/nix/store/x-debug\n/nix/store/y-debug\n"),
        Some("/nix/store/x-debug".to_owned())
    );
}

#[test]
fn deriver_classification() {
    let info = classify_deriver(None, false);
    assert_eq!(info.deriver, None);
    assert_eq!(info.source, None);
    let info = classify_deriver(Some("/nix/store/ccc.drv".to_owned()), true);
    assert_eq!(info.deriver, Some("/nix/store/ccc.drv".to_owned()));
    assert_eq!(info.source, Some("/nix/store/ccc.drv".to_owned()));
    let info = classify_deriver(Some("/nix/store/ccc.drv".to_owned()), false);
    assert_eq!(info.deriver, Some("/nix/store/ccc.drv".to_owned()));
    assert_eq!(info.source, None);
}

#[test]
fn regular_entry_without_known_debug_output() {
    let entry = regular_file_entry(
        "0123abcd".to_owned(),
        "/nix/store/aaa-hello/bin/hello".to_owned(),
        &None,
        false,
        false,
        &Some("/nix/store/ccc.drv".to_owned()),
    );
    assert_eq!(entry.debuginfo, None);
    assert_eq!(entry.source, Some("/nix/store/ccc.drv".to_owned()));
}
