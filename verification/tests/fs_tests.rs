use std::io::Write;

use sys_kaleido::archive::{sevenz, ArchiveEntry};
use sys_kaleido::fs::{decompress, find_common_parent, get_file_type, AppDir, FSError, FileType};

#[test]
fn test_get_file_type() {
    assert_eq!(FileType::Plain, get_file_type("path/test"));
    assert_eq!(FileType::Compression, get_file_type("path/test.zip"));
    assert_eq!(FileType::Compression, get_file_type("path/test.7z"));
    assert_eq!(FileType::Compression, get_file_type("path/test.tar.gz"));
    assert_eq!(FileType::Unknown, get_file_type("path/test.x"));
}

#[test]
fn test_get_file_type_edges() {
    assert_eq!(FileType::Plain, get_file_type(".bashrc"));
    assert_eq!(FileType::Plain, get_file_type("dir/name."));
    assert_eq!(FileType::Compression, get_file_type("a.b.c.gz"));
}

#[test]
fn test_find_common_parent() {
    let root = "C:\\Users\\kaleido\\.sys-kaleido\\tmp";
    let s = "C:\\Users\\kaleido\\.sys-kaleido\\tmp\\a";
    let t = "C:\\Users\\kaleido\\.sys-kaleido\\tmp\\a\\b";
    assert_eq!(find_common_parent(t, s, root), s);
    let s = "C:\\Users\\kaleido\\.sys-kaleido\\tmp\\a\\b";
    let t = "C:\\Users\\kaleido\\.sys-kaleido\\tmp\\a\\b";
    assert_eq!(find_common_parent(t, s, root), s);
    let s = "C:\\Users\\kaleido\\.sys-kaleido\\tmp\\b\\c";
    let t = "C:\\Users\\kaleido\\.sys-kaleido\\tmp\\a\\b";
    assert_eq!(find_common_parent(t, s, root), root);
}

#[test]
fn test_find_common_parent_diverging_below_root() {
    let root = "/home/u/.sys-kaleido/tmp";
    let t = "/home/u/.sys-kaleido/tmp/a/x/1";
    let s = "/home/u/.sys-kaleido/tmp/a/y/2";
    assert_eq!(find_common_parent(t, s, root), "/home/u/.sys-kaleido/tmp/a");
}

#[test]
fn test_find_common_parent_is_order_robust() {
    let root = "/tmp";
    let t = "/tmp/a/x";
    let s = "/tmp/a/y";
    assert_eq!(
        find_common_parent(t, s, root),
        find_common_parent(s, t, root)
    );
}

#[test]
fn test_app_dir_layout() {
    let dirs = AppDir::new("/home/u");
    assert_eq!(dirs.get_home_dir(), "/home/u/.sys-kaleido");
    assert_eq!(dirs.get_log_dir(), "/home/u/.sys-kaleido/log");
    assert_eq!(dirs.get_bin_dir(), "/home/u/.sys-kaleido/bin");
    assert_eq!(dirs.get_packages_dir(), "/home/u/.sys-kaleido/packages");
    assert_eq!(dirs.get_alias_dir(), "/home/u/.sys-kaleido/alias");
}

fn make_zip(entries: &[(&str, bool)]) -> Vec<u8> {
    let cursor = std::io::Cursor::new(Vec::new());
    let mut writer = zip::ZipWriter::new(cursor);
    let options = zip::write::SimpleFileOptions::default();
    for (name, is_dir) in entries {
        if *is_dir {
            writer.add_directory(*name, options).unwrap();
        } else {
            writer.start_file(*name, options).unwrap();
            writer.write_all(b"payload").unwrap();
        }
    }
    writer.finish().unwrap().into_inner()
}

fn make_targz(first_entry: &str) -> Vec<u8> {
    let encoder = flate2::write::GzEncoder::new(Vec::new(), flate2::Compression::default());
    let mut builder = tar::Builder::new(encoder);
    let data = b"payload";
    let mut header = tar::Header::new_gnu();
    header.set_size(data.len() as u64);
    header.set_cksum();
    builder.append_data(&mut header, first_entry, &data[..]).unwrap();
    builder.into_inner().unwrap().finish().unwrap()
}

fn make_sevenz(entries: &[(&str, bool)]) -> Vec<u8> {
    let cursor = std::io::Cursor::new(Vec::new());
    let mut writer = sevenz_rust::SevenZWriter::new(cursor).unwrap();
    for (name, is_dir) in entries {
        let mut entry = sevenz_rust::SevenZArchiveEntry::default();
        entry.name = (*name).to_string();
        entry.is_directory = *is_dir;
        if *is_dir {
            writer.push_archive_entry::<&[u8]>(entry, None).unwrap();
        } else {
            entry.has_stream = true;
            writer.push_archive_entry(entry, Some(&b"payload"[..])).unwrap();
        }
    }
    writer.finish().unwrap().into_inner()
}

// the entry table of a 7z archive, as the driver would list it
fn sevenz_entries(data: &[u8]) -> Vec<ArchiveEntry> {
    let mut cursor = std::io::Cursor::new(data);
    let archive = sevenz_rust::Archive::read(&mut cursor, data.len() as u64, &[]).unwrap();
    archive
        .files
        .iter()
        .map(|f| ArchiveEntry { path: f.name.clone(), is_dir: f.is_directory })
        .collect()
}

#[test]
fn test_decompress_zip_with_directory_entries() {
    let data = make_zip(&[("pkg/", true), ("pkg/bin", false)]);
    let folder = decompress("release.zip", "/tmp/work", &data, &Vec::new()).unwrap();
    assert_eq!(folder, Some("pkg".to_string()));
}

#[test]
fn test_decompress_zip_lca_from_files() {
    let data = make_zip(&[("app/f1", false), ("app/sub/f2", false)]);
    let folder = decompress("release.zip", "/tmp/work", &data, &Vec::new()).unwrap();
    assert_eq!(folder, Some("app".to_string()));
}

#[test]
fn test_decompress_zip_root_files_have_no_folder() {
    let data = make_zip(&[("app/f1", false), ("loose", false)]);
    let folder = decompress("release.zip", "/tmp/work", &data, &Vec::new()).unwrap();
    assert_eq!(folder, None);
}

#[test]
fn test_decompress_targz_first_entry() {
    let data = make_targz("tool-1.0/bin/tool");
    let folder = decompress("release.tar.gz", "/tmp/work", &data, &Vec::new()).unwrap();
    assert_eq!(folder, Some("tool-1.0".to_string()));
}

#[test]
fn test_decompress_sevenz_outermost_directory() {
    let data = make_sevenz(&[("pkg/inner", true), ("pkg", true), ("pkg/inner/file", false)]);
    let entries = sevenz_entries(&data);
    let folder = decompress("release.7z", "/tmp/work", &data, &entries).unwrap();
    assert_eq!(folder, Some("pkg".to_string()));
}

#[test]
fn test_sevenz_inference_on_entry_table() {
    let entries = vec![
        ArchiveEntry { path: "pkg/inner".to_string(), is_dir: true },
        ArchiveEntry { path: "pkg".to_string(), is_dir: true },
        ArchiveEntry { path: "pkg/inner/file".to_string(), is_dir: false },
    ];
    assert_eq!(sevenz(&entries, "/tmp/work"), Some("pkg".to_string()));
    assert_eq!(sevenz(&Vec::new(), "/tmp/work"), None);
}

#[test]
fn test_decompress_without_extension_is_unsupported() {
    let err = decompress("plainfile", "/tmp/work", &vec![1u8, 2u8], &Vec::new()).unwrap_err();
    assert!(matches!(err, FSError::UnsupportedFile(_)));
}

#[test]
fn test_decompress_corrupt_targz_reports_io_error() {
    let err = decompress("broken.tar.gz", "/tmp/work", &vec![0u8; 4], &Vec::new()).unwrap_err();
    assert!(matches!(err, FSError::Io(_)));
}

#[test]
fn test_decompress_corrupt_zip_reports_zip_error() {
    let err = decompress("broken.zip", "/tmp/work", &vec![0u8; 4], &Vec::new()).unwrap_err();
    assert!(matches!(err, FSError::Zip(_)));
}
