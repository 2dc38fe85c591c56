use jstrings::classfile::{extract_strings, get_string, ClassFile, CpEntry};
use jstrings::decode::{decode_class, FormatError};

/// A class file holding the given pre-encoded pool entry payloads: magic,
/// versions, the JVM count (entries + 1), then the entries back to back.
fn class_bytes(entries: &[Vec<u8>]) -> Vec<u8> {
    let mut b: Vec<u8> = vec![0xCA, 0xFE, 0xBA, 0xBE, 0x00, 0x00, 0x00, 0x34];
    let count = (entries.len() + 1) as u16;
    b.push((count >> 8) as u8);
    b.push((count & 0xFF) as u8);
    for e in entries {
        b.extend_from_slice(e);
    }
    b
}

fn utf8_entry(text: &[u8]) -> Vec<u8> {
    let mut e: Vec<u8> = vec![1];
    e.push((text.len() >> 8) as u8);
    e.push((text.len() & 0xFF) as u8);
    e.extend_from_slice(text);
    e
}

fn string_ref_entry(index: u16) -> Vec<u8> {
    vec![8, (index >> 8) as u8, (index & 0xFF) as u8]
}

#[test]
fn wrong_magic_is_bad_magic() {
    let mut b = class_bytes(&[utf8_entry(b"hello"), string_ref_entry(1)]);
    b[0] = 0xCB;
    assert!(matches!(decode_class(&b), Err(FormatError::BadMagic)));
}

#[test]
fn wrong_magic_beats_garbage_tail() {
    // The magic is judged before any constant is read: the unknown tag 99
    // behind it is never reached.
    let b = vec![0x00, 0x00, 0x00, 0x00, 0x00, 0x00, 0x00, 0x34, 0x00, 0x02, 99];
    assert!(matches!(decode_class(&b), Err(FormatError::BadMagic)));
}

#[test]
fn short_input_is_truncated() {
    assert!(matches!(decode_class(&vec![0xCA, 0xFE]), Err(FormatError::Truncated)));
    assert!(matches!(
        decode_class(&vec![0xCA, 0xFE, 0xBA, 0xBE, 0x00, 0x00]),
        Err(FormatError::Truncated)
    ));
}

#[test]
fn missing_entry_is_truncated() {
    // The count announces one entry but none follows.
    let b = class_bytes(&[vec![]]);
    assert!(matches!(decode_class(&b), Err(FormatError::Truncated)));
}

#[test]
fn short_utf8_payload_is_truncated() {
    // A Utf8 entry announcing 300 bytes of text that are not there.
    let mut e: Vec<u8> = vec![1, 0x01, 0x2C];
    e.extend_from_slice(b"short");
    let b = class_bytes(&[e]);
    assert!(matches!(decode_class(&b), Err(FormatError::Truncated)));
}

#[test]
fn unknown_tag_is_reported_with_its_value() {
    let b = class_bytes(&[vec![99, 0, 0]]);
    assert!(matches!(decode_class(&b), Err(FormatError::UnknownTag(99))));
}

#[test]
fn opaque_tags_occupy_one_slot_each() {
    // Class(7), Integer(3), Long(5), NameAndType(12), then text and a
    // reference to it at JVM index 5. Note the deliberate simplification this
    // pins down: a Long (or Double) takes one slot here, not the two the JVM
    // specification reserves, so indices drift on files with 8-byte constants.
    let b = class_bytes(&[
        vec![7, 0, 1],
        vec![3, 0, 0, 0, 42],
        vec![5, 0, 0, 0, 0, 0, 0, 0, 7],
        vec![12, 0, 1, 0, 2],
        utf8_entry(b"payload"),
        string_ref_entry(5),
    ]);
    let c = decode_class(&b).unwrap();
    assert_eq!(c.constant_pool.len(), 6);
    assert_eq!(extract_strings(&c), vec![b"payload".to_vec()]);
}

#[test]
fn string_ref_resolves_to_utf8_text() {
    let b = class_bytes(&[utf8_entry(b"hello"), string_ref_entry(1)]);
    let c = decode_class(&b).unwrap();
    assert_eq!(get_string(&c, 1), b"hello".to_vec());
}

#[test]
fn dangling_or_mistyped_refs_resolve_to_placeholder() {
    let c = ClassFile {
        magic: 0xCAFEBABE,
        constant_pool: vec![
            CpEntry::Utf8(b"hello".to_vec()),
            CpEntry::Opaque,
            CpEntry::StringRef(2),
        ],
    };
    // Index 0 does not exist in a 1-based pool.
    assert_eq!(get_string(&c, 0), b"?".to_vec());
    // Index past the end.
    assert_eq!(get_string(&c, 4), b"?".to_vec());
    // Index of a slot that is not Utf8 text.
    assert_eq!(get_string(&c, 2), b"?".to_vec());
    // A well-aimed index still resolves.
    assert_eq!(get_string(&c, 1), b"hello".to_vec());
}

#[test]
fn extraction_is_one_line_per_string_ref_in_pool_order() {
    let b = class_bytes(&[
        utf8_entry(b"first"),
        utf8_entry(b"second"),
        string_ref_entry(2),
        string_ref_entry(1),
        string_ref_entry(9),
    ]);
    let c = decode_class(&b).unwrap();
    assert_eq!(
        extract_strings(&c),
        vec![b"second".to_vec(), b"first".to_vec(), b"?".to_vec()]
    );
}

#[test]
fn class_with_one_ref_emits_exactly_hello_in_plain_mode() {
    let b = class_bytes(&[utf8_entry(b"hello"), string_ref_entry(1)]);
    let c = decode_class(&b).unwrap();
    let strings = extract_strings(&c);
    assert_eq!(strings.len(), 1);
    let mut lines: Vec<Vec<u8>> = Vec::new();
    for s in &strings {
        if let Some(line) = jstrings::policy::apply(&jstrings::policy::Mode::Plain, s, 0) {
            lines.push(line);
        }
    }
    assert_eq!(lines, vec![b"hello".to_vec()]);
}
