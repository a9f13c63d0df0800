use std::io::Write;

use knast::image::{Archive, Unpacker, Whiteout};
use knast::tar::{tar_entries, ArchiveError};

fn header(name: &str, prefix: &str, size: usize, kind: u8) -> Vec<u8> {
    let mut h = vec![0u8; 512];
    h[..name.len()].copy_from_slice(name.as_bytes());
    let size_field = format!("{:011o}\0", size);
    h[124..136].copy_from_slice(size_field.as_bytes());
    h[156] = kind;
    h[257..263].copy_from_slice(b"ustar\0");
    h[345..345 + prefix.len()].copy_from_slice(prefix.as_bytes());
    h
}

fn entry(name: &str, prefix: &str, data: &[u8]) -> Vec<u8> {
    let mut out = header(name, prefix, data.len(), b'0');
    out.extend_from_slice(data);
    let pad = (512 - data.len() % 512) % 512;
    out.extend(std::iter::repeat(0u8).take(pad));
    out
}

fn layer() -> Vec<u8> {
    let mut tar = Vec::new();
    tar.extend(header("dir/", "", 0, b'5'));
    tar.extend(entry("dir/.wh.file", "", b""));
    tar.extend(entry("hello.txt", "usr/share", b"hello world"));
    tar.extend(vec![0u8; 1024]);
    tar
}

fn gzip(data: &[u8]) -> Vec<u8> {
    let mut encoder = flate2::write::GzEncoder::new(Vec::new(), flate2::Compression::default());
    encoder.write_all(data).unwrap();
    encoder.finish().unwrap()
}

#[test]
fn test_list_content() {
    let entries = tar_entries(&layer()).unwrap();
    let names: Vec<Vec<u8>> = entries.iter().map(|e| e.pathname.clone()).collect();
    assert_eq!(names, vec![b"dir/".to_vec(), b"dir/.wh.file".to_vec(), b"usr/share/hello.txt".to_vec()]);
    assert_eq!(entries[2].size, 11);
    assert_eq!(entries[2].kind, b'0');
    assert_eq!(entries[0].kind, b'5');
    let data = layer();
    let start = entries[2].offset;
    assert_eq!(&data[start..start + 11], b"hello world");
}

#[test]
fn compressed_layer_entries_feed_whiteouts() {
    let archive = Archive::new(gzip(&layer()));
    let entries = archive.entries().unwrap();
    let paths: Vec<String> = entries.iter().map(|e| e.path_text().unwrap()).collect();
    let removals = Unpacker::new("/dest").handle_whiteouts(&paths);
    assert_eq!(removals.len(), 1);
    assert!(matches!(&removals[0], Whiteout::RemoveFile(p) if p == "/dest/dir/file"));
}

#[test]
fn malformed_streams_are_refused() {
    assert_eq!(Archive::new(b"not gzip".to_vec()).entries().err(), Some(ArchiveError::Malformed));
    let mut cut = layer();
    cut.truncate(700);
    assert_eq!(tar_entries(&cut).err(), Some(ArchiveError::Malformed));
    let mut bad_size = header("x", "", 0, b'0');
    bad_size[124..136].copy_from_slice(b"12x45670000\0");
    assert_eq!(tar_entries(&bad_size).err(), Some(ArchiveError::Malformed));
    assert_eq!(tar_entries(&[]).map(|v| v.len()).ok(), Some(0));
}

fn with_kind(mut block: Vec<u8>, kind: u8) -> Vec<u8> {
    block[156] = kind;
    block
}

#[test]
fn gnu_long_names_name_the_next_entry() {
    let mut tar = with_kind(entry("././@LongLink", "", b"a/very/long/name\0"), b'L');
    tar.extend(with_kind(entry("././@LongLink", "", b"link/target\0"), b'K'));
    tar.extend(entry("a/very/long/na", "", b"x"));
    tar.extend(entry("plain", "", b""));
    let entries = tar_entries(&tar).unwrap();
    let names: Vec<Vec<u8>> = entries.iter().map(|e| e.pathname.clone()).collect();
    assert_eq!(names, vec![b"a/very/long/name".to_vec(), b"plain".to_vec()]);
    assert_eq!(entries[0].size, 1);
}

#[test]
fn pax_path_records_name_the_next_entry() {
    let mut tar = with_kind(entry("pax_global_header", "", b"20 comment=ignored\n"), b'g');
    tar.extend(with_kind(entry("PaxHeader/f", "", b"20 mtime=1234567890\n20 path=a/b/c/d/e/f\n"), b'x'));
    tar.extend(entry("f", "", b"data"));
    tar.extend(with_kind(entry("PaxHeader/g", "", b"20 mtime=1234567890\n"), b'x'));
    tar.extend(entry("dir/.wh.file", "", b""));
    let names: Vec<Vec<u8>> = tar_entries(&tar).unwrap().iter().map(|e| e.pathname.clone()).collect();
    assert_eq!(names, vec![b"a/b/c/d/e/f".to_vec(), b"dir/.wh.file".to_vec()]);
}

#[test]
fn malformed_pax_records_are_refused() {
    let mut tar = with_kind(entry("PaxHeader/f", "", b"99 path=x\n"), b'x');
    tar.extend(entry("f", "", b""));
    assert_eq!(tar_entries(&tar).err(), Some(ArchiveError::Malformed));
    let mut tar = with_kind(entry("PaxHeader/f", "", b"path=x\n"), b'x');
    tar.extend(entry("f", "", b""));
    assert_eq!(tar_entries(&tar).err(), Some(ArchiveError::Malformed));
}

#[test]
fn old_gnu_magic_has_no_prefix() {
    let mut block = entry("name", "ignored/prefix", b"");
    block[257..265].copy_from_slice(b"ustar  \0");
    let names: Vec<Vec<u8>> = tar_entries(&block).unwrap().iter().map(|e| e.pathname.clone()).collect();
    assert_eq!(names, vec![b"name".to_vec()]);
}
