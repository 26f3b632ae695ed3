use std::io::Read;

use base64::Engine;
use script_bundler::archive::{create_zip, package_bundles, FileObject};

fn doc(name: &str, contents: &[&str]) -> FileObject {
    FileObject {
        script_name: name.to_string(),
        contents: contents.iter().map(|x| x.to_string()).collect(),
    }
}

#[test]
fn archive_has_one_entry_per_script() {
    let files = vec![doc("first", &["l1", "l2"]), doc("second", &["m1"])];
    let bytes = create_zip(files).expect("the archive writer accepted both entries");
    let mut archive = zip::ZipArchive::new(std::io::Cursor::new(bytes)).expect("a readable archive");
    assert_eq!(archive.len(), 2);
    {
        let mut entry = archive.by_index(0).expect("first entry");
        assert_eq!(entry.name(), "first.py");
        let mut text = String::new();
        entry.read_to_string(&mut text).expect("text contents");
        assert_eq!(text, "l1\nl2");
    }
    {
        let mut entry = archive.by_index(1).expect("second entry");
        assert_eq!(entry.name(), "second.py");
        let mut text = String::new();
        entry.read_to_string(&mut text).expect("text contents");
        assert_eq!(text, "m1");
    }
}

#[test]
fn archive_refuses_duplicate_script_names() {
    let files = vec![doc("same", &["a"]), doc("same", &["b"])];
    assert!(create_zip(files).is_none());
    let files = vec![doc("same", &["a"]), doc("same", &["b"])];
    assert!(package_bundles(files).is_none());
}

#[test]
fn empty_document_becomes_empty_entry() {
    let files = vec![doc("empty", &[])];
    let bytes = create_zip(files).expect("the archive writer accepted the entry");
    let mut archive = zip::ZipArchive::new(std::io::Cursor::new(bytes)).expect("a readable archive");
    assert_eq!(archive.len(), 1);
    let mut entry = archive.by_index(0).expect("entry");
    assert_eq!(entry.name(), "empty.py");
    let mut text = String::new();
    entry.read_to_string(&mut text).expect("text contents");
    assert_eq!(text, "");
}

#[test]
fn encoded_archive_decodes_to_archive_bytes() {
    let bytes = create_zip(vec![doc("one", &["x = 1"])]).expect("archive bytes");
    let encoded = package_bundles(vec![doc("one", &["x = 1"])]).expect("encoded archive");
    let decoded = base64::engine::general_purpose::STANDARD
        .decode(encoded.as_bytes())
        .expect("valid base64");
    assert_eq!(decoded, bytes);
}
