use cobra::archive::{extract_package, is_directory_name, PackageArchive};
use cobra::error::CobraError;
use cobra::hash::{
    compute_hash, compute_hashes_parallel, compute_sha256, verify_package_hash, verify_sha256,
};
use std::io::{Cursor, Write};
use zip::write::FileOptions;
use zip::{CompressionMethod, ZipWriter};

fn wheel(entries: &[(&str, Option<&[u8]>)], method: CompressionMethod) -> Vec<u8> {
    let mut writer = ZipWriter::new(Cursor::new(Vec::new()));
    let options = FileOptions::default().compression_method(method);
    for (name, data) in entries {
        match data {
            Some(bytes) => {
                writer.start_file(*name, options).unwrap();
                writer.write_all(bytes).unwrap();
            }
            None => writer.add_directory(*name, options).unwrap(),
        }
    }
    writer.finish().unwrap().into_inner()
}

#[test]
fn file_entries_become_writes_below_the_root() {
    let bytes = wheel(
        &[
            ("alpha/", None),
            ("alpha/__init__.py", Some(b"print('alpha')\n")),
            ("alpha/data/table.bin", Some(&[0u8, 1, 2, 3, 255])),
            ("alpha-1.0.dist-info/METADATA", Some(b"Name: alpha\n")),
        ],
        CompressionMethod::Deflated,
    );
    let writes = extract_package(bytes, "/work/.cobra_packages").expect("a sound archive");
    let paths: Vec<&str> = writes.iter().map(|w| w.path.as_str()).collect();
    assert_eq!(
        paths,
        vec![
            "/work/.cobra_packages/alpha/__init__.py",
            "/work/.cobra_packages/alpha/data/table.bin",
            "/work/.cobra_packages/alpha-1.0.dist-info/METADATA",
        ]
    );
    assert_eq!(writes[0].data, b"print('alpha')\n");
    assert_eq!(writes[1].data, vec![0u8, 1, 2, 3, 255]);
}

#[test]
fn stored_entries_are_read_too() {
    let bytes = wheel(&[("a.txt", Some(b"plain"))], CompressionMethod::Stored);
    let writes = extract_package(bytes, "root").unwrap();
    assert_eq!(writes.len(), 1);
    assert_eq!(writes[0].path, "root/a.txt");
    assert_eq!(writes[0].data, b"plain");
}

#[test]
fn empty_archive_writes_nothing() {
    let bytes = wheel(&[], CompressionMethod::Stored);
    assert!(extract_package(bytes, "root").unwrap().is_empty());
}

#[test]
fn bytes_that_are_no_archive_are_refused() {
    match extract_package(b"this is no zip container".to_vec(), "root") {
        Err(CobraError::Archive(cause)) => {
            assert!(cause.starts_with("Failed to read archive: "), "{}", cause)
        }
        other => panic!("expected a refused archive, got {:?}", other),
    }
}

#[test]
fn damaged_entry_fails_the_extraction() {
    let mut bytes = wheel(&[("a.txt", Some(b"contents that are stored plainly"))], CompressionMethod::Stored);
    let at = bytes.windows(8).position(|w| w == b"contents").unwrap();
    bytes[at] = b'X';
    match extract_package(bytes, "root") {
        Err(CobraError::Archive(cause)) => {
            assert_eq!(cause, "Failed to read file: Invalid checksum")
        }
        other => panic!("expected a failed read, got {:?}", other),
    }
}

/// Sets the bit of the general purpose flags of every header that says the
/// entry is encrypted.
fn mark_encrypted(bytes: &mut [u8]) {
    for at in 0..bytes.len().saturating_sub(8) {
        if &bytes[at..at + 4] == b"PK\x03\x04" {
            bytes[at + 6] |= 1;
        }
        if &bytes[at..at + 4] == b"PK\x01\x02" {
            bytes[at + 8] |= 1;
        }
    }
}

#[test]
fn encrypted_entry_is_refused_without_a_panic() {
    let mut bytes = wheel(
        &[("secret.txt", Some(b"twelve bytes and some more of them"))],
        CompressionMethod::Stored,
    );
    mark_encrypted(&mut bytes);
    match extract_package(bytes, "root") {
        Err(CobraError::Archive(cause)) => {
            assert!(cause.starts_with("Failed to read file: "), "{}", cause)
        }
        other => panic!("expected a refused entry, got {:?}", other),
    }
}

/// Appends an AES extra field to the only entry of a stored archive whose
/// headers carry no extra field yet, leaving the encryption flag clear.
fn with_aes_extra_field(bytes: &[u8]) -> Vec<u8> {
    let extra: [u8; 11] = [0x01, 0x99, 0x07, 0x00, 0x02, 0x00, b'A', b'E', 0x03, 0x00, 0x00];
    let central = bytes.windows(4).position(|w| w == b"PK\x01\x02").unwrap();
    let end = bytes.windows(4).position(|w| w == b"PK\x05\x06").unwrap();
    let name_len = u16::from_le_bytes([bytes[central + 28], bytes[central + 29]]) as usize;
    let mut out = bytes[..central + 46 + name_len].to_vec();
    out[central + 30] = extra.len() as u8;
    out[central + 31] = 0;
    out.extend_from_slice(&extra);
    out.extend_from_slice(&bytes[central + 46 + name_len..end]);
    let mut tail = bytes[end..].to_vec();
    let size = u32::from_le_bytes([tail[12], tail[13], tail[14], tail[15]]) + extra.len() as u32;
    tail[12..16].copy_from_slice(&size.to_le_bytes());
    out.extend_from_slice(&tail);
    out
}

#[test]
fn entry_with_an_encryption_field_but_no_flag_is_refused_without_a_panic() {
    let plain = wheel(&[("a.txt", Some(b"plain"))], CompressionMethod::Stored);
    let bytes = with_aes_extra_field(&plain);
    let mut archive = PackageArchive::open(bytes).expect("the directory is sound");
    assert_eq!(archive.len(), 1);
    match archive.entry(0, "root") {
        Err(CobraError::Archive(cause)) => {
            assert_eq!(cause, "Failed to read file: entry needs a password")
        }
        other => panic!("expected a refused entry, got {:?}", other),
    }
}

#[test]
fn entries_can_be_read_one_by_one() {
    let bytes = wheel(&[("d/", None), ("d/f", Some(b"x"))], CompressionMethod::Deflated);
    let mut archive = PackageArchive::open(bytes).unwrap();
    assert_eq!(archive.len(), 2);
    assert!(archive.entry(0, "r").unwrap().is_none());
    let write = archive.entry(1, "r").unwrap().expect("a file entry");
    assert_eq!((write.path.as_str(), write.data.as_slice()), ("r/d/f", &b"x"[..]));
    match archive.entry(2, "r") {
        Err(CobraError::Archive(cause)) => {
            assert_eq!(cause, "Failed to read file: specified file not found in archive")
        }
        other => panic!("expected a missing entry, got {:?}", other),
    }
}

#[test]
fn directories_end_in_a_separator() {
    assert!(is_directory_name("pkg/"));
    assert!(is_directory_name("pkg\\"));
    assert!(!is_directory_name("pkg/mod.py"));
    assert!(!is_directory_name(""));
}

#[test]
fn digests_of_known_inputs() {
    assert_eq!(
        compute_hash(b""),
        "af1349b9f5f9a1a6a0404dea36dcc9499bcb25c9adc112b7cc9a93cae41f3262"
    );
    assert_eq!(
        compute_sha256(b"abc"),
        "ba7816bf8f01cfea414140de5dae2223b00361a396177a9cb410ff61f20015ad"
    );
    assert_eq!(
        compute_sha256(b""),
        "e3b0c44298fc1c149afbf4c8996fb92427ae41e4649b934ca495991b7852b855"
    );
}

#[test]
fn digests_are_compared_as_text() {
    let data = b"wheel";
    let blake = compute_hash(data);
    let sha = compute_sha256(data);
    assert!(verify_package_hash(data, &blake));
    assert!(!verify_package_hash(data, &sha));
    assert!(verify_sha256(data, &sha));
    assert!(!verify_sha256(b"wheex", &sha));
    assert!(!verify_package_hash(data, &blake.to_uppercase()));
    let all = compute_hashes_parallel(&vec![data.to_vec(), Vec::new()]);
    assert_eq!(all, vec![blake, compute_hash(b"")]);
}
