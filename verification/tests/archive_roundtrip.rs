use std::io::Read;

use specra::archive::create_archive;
use specra::archive::ArchiveError;
use specra::archive::FileEntry;

fn entry(path: &str, content: &str) -> FileEntry {
    FileEntry { path: path.to_string(), content: content.to_string() }
}

fn unpack(bytes: &[u8]) -> Vec<(String, String)> {
    let decoder = flate2::read::GzDecoder::new(bytes);
    let mut archive = tar::Archive::new(decoder);
    let mut out = Vec::new();
    for e in archive.entries().unwrap() {
        let mut e = e.unwrap();
        let path = e.path().unwrap().to_str().unwrap().to_string();
        let mut content = String::new();
        e.read_to_string(&mut content).unwrap();
        out.push((path, content));
    }
    out
}

#[test]
fn single_file_round_trips() {
    let bytes = create_archive(vec![entry("a.txt", "hi")]).unwrap();
    let files = unpack(&bytes);
    assert_eq!(files.len(), 1);
    assert_eq!(files[0].0, "a.txt");
    assert_eq!(files[0].1, "hi");
}

#[test]
fn several_files_round_trip_in_order() {
    let bytes = create_archive(vec![
        entry("index.html", "<html></html>"),
        entry("assets/site.css", "body {}"),
        entry("empty.txt", ""),
    ])
    .unwrap();
    let files = unpack(&bytes);
    assert_eq!(files.len(), 3);
    assert_eq!(files[0].0, "index.html");
    assert_eq!(files[0].1, "<html></html>");
    assert_eq!(files[1].0, "assets/site.css");
    assert_eq!(files[1].1, "body {}");
    assert_eq!(files[2].0, "empty.txt");
    assert_eq!(files[2].1, "");
}

#[test]
fn empty_archive_round_trips() {
    let bytes = create_archive(vec![]).unwrap();
    let files = unpack(&bytes);
    assert_eq!(files.len(), 0);
}

#[test]
fn output_is_a_gzip_stream() {
    let bytes = create_archive(vec![entry("a.txt", "hi")]).unwrap();
    assert!(bytes.len() > 2);
    assert_eq!(bytes[0], 0x1f);
    assert_eq!(bytes[1], 0x8b);
}

#[test]
fn absolute_path_fails_with_its_path() {
    let r = create_archive(vec![entry("ok.txt", "fine"), entry("/abs.txt", "nope")]);
    match r {
        Err(ArchiveError::EntryFailed { path, .. }) => assert_eq!(path.as_str(), "/abs.txt"),
        _ => panic!("expected a per-entry failure"),
    }
}

#[test]
fn first_rejected_entry_is_named() {
    let r = create_archive(vec![entry("/bad1.txt", "a"), entry("/bad2.txt", "b")]);
    match r {
        Err(ArchiveError::EntryFailed { path, .. }) => assert_eq!(path.as_str(), "/bad1.txt"),
        _ => panic!("expected a per-entry failure"),
    }
}

#[test]
fn long_paths_are_archived() {
    let long = format!("{}/file.txt", "d".repeat(150));
    let bytes = create_archive(vec![entry(&long, "x")]).unwrap();
    let files = unpack(&bytes);
    assert_eq!(files.len(), 1);
    assert_eq!(files[0].0, long);
    assert_eq!(files[0].1, "x");
}
