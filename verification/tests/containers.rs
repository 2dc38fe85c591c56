use std::io::Write;

use jstrings::archive::{open_jar, walk_jar};
use jstrings::pipeline::{classify_input, InputKind};
use jstrings::props::process_properties_bytes;

/// A class file with the given pool entry payloads, as the decoder expects it.
fn class_bytes(entries: &[Vec<u8>]) -> Vec<u8> {
    let mut b: Vec<u8> = vec![0xCA, 0xFE, 0xBA, 0xBE, 0x00, 0x00, 0x00, 0x34];
    let count = (entries.len() + 1) as u16;
    b.push((count >> 8) as u8);
    b.push((count & 0xFF) as u8);
    for e in entries {
        b.extend_from_slice(e);
    }
    b
}

fn utf8_entry(text: &[u8]) -> Vec<u8> {
    let mut e: Vec<u8> = vec![1];
    e.push((text.len() >> 8) as u8);
    e.push((text.len() & 0xFF) as u8);
    e.extend_from_slice(text);
    e
}

fn string_ref_entry(index: u16) -> Vec<u8> {
    vec![8, (index >> 8) as u8, (index & 0xFF) as u8]
}

/// A ZIP archive holding the given named members.
fn zip_bytes(members: &[(&str, Vec<u8>)]) -> Vec<u8> {
    let cursor = std::io::Cursor::new(Vec::new());
    let mut writer = zip::ZipWriter::new(cursor);
    let options = zip::write::SimpleFileOptions::default();
    for (name, data) in members {
        writer.start_file(*name, options).unwrap();
        writer.write_all(data).unwrap();
    }
    writer.finish().unwrap().into_inner()
}

#[test]
fn corrupt_member_is_skipped_and_the_valid_one_still_speaks() {
    let good = class_bytes(&[utf8_entry(b"secretKey123"), string_ref_entry(1)]);
    let jar = zip_bytes(&[
        ("Broken.class", vec![0xDE, 0xAD, 0xBE, 0xEF, 1, 2, 3]),
        ("Good.class", good),
    ]);
    let mut archive = open_jar(jar).unwrap();
    let strings = walk_jar(&mut archive);
    assert_eq!(strings, vec![b"secretKey123".to_vec()]);
}

#[test]
fn members_with_other_suffixes_are_ignored() {
    let good = class_bytes(&[utf8_entry(b"kept"), string_ref_entry(1)]);
    let jar = zip_bytes(&[
        ("README.txt", b"no strings here".to_vec()),
        ("Good.class", good),
        ("notes.Class", b"case matters".to_vec()),
    ]);
    let mut archive = open_jar(jar).unwrap();
    assert_eq!(walk_jar(&mut archive), vec![b"kept".to_vec()]);
}

#[test]
fn properties_member_contributes_its_values() {
    let jar = zip_bytes(&[
        ("conf/app.properties", b"alpha = one\nbeta = two\n".to_vec()),
        ("data.bin", vec![0, 1, 2]),
    ]);
    let mut archive = open_jar(jar).unwrap();
    assert_eq!(walk_jar(&mut archive), vec![b"one".to_vec(), b"two".to_vec()]);
}

#[test]
fn empty_archive_yields_nothing() {
    let jar = zip_bytes(&[]);
    let mut archive = open_jar(jar).unwrap();
    assert_eq!(walk_jar(&mut archive), Vec::<Vec<u8>>::new());
}

#[test]
fn not_a_zip_fails_to_open() {
    assert!(open_jar(b"this is no archive".to_vec()).is_err());
}

#[test]
fn properties_values_are_emitted_without_keys() {
    let out = process_properties_bytes(&b"greeting = Hello, world!\n".to_vec()).unwrap();
    assert_eq!(out, vec![b"Hello, world!".to_vec()]);
}

#[test]
fn properties_comments_and_continuations() {
    let text = b"# a comment\n! another\nkey = first \\\n    second\n".to_vec();
    let out = process_properties_bytes(&text).unwrap();
    assert_eq!(out, vec![b"first second".to_vec()]);
}

#[test]
fn malformed_properties_fail_whole_file() {
    // An unterminated unicode escape is a fatal parse error.
    let text = b"bad = \\u12\n".to_vec();
    assert!(process_properties_bytes(&text).is_err());
}

#[test]
fn inputs_route_by_suffix() {
    assert_eq!(classify_input(&b"Foo.class".to_vec()), InputKind::Class);
    assert_eq!(classify_input(&b"lib/app.jar".to_vec()), InputKind::Jar);
    assert_eq!(
        classify_input(&b"conf/app.properties".to_vec()),
        InputKind::Properties
    );
    assert_eq!(classify_input(&b"readme.md".to_vec()), InputKind::Other);
    // Case-sensitive, exact suffix match.
    assert_eq!(classify_input(&b"Foo.CLASS".to_vec()), InputKind::Other);
    assert_eq!(classify_input(&b"class".to_vec()), InputKind::Other);
}
