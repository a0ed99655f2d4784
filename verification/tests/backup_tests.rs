use plumai::backup::backup_folder_name;
use plumai::backup::cleanup_old_backups;
use plumai::backup::compress_project;
use plumai::backup::decompress_project;
use plumai::backup::list_backups;
use plumai::backup::BackupInfo;
use plumai::backup::FileEntry;
use plumai::clock::format_stamp;
use plumai::clock::Stamp;

fn stamp() -> Stamp {
    Stamp { year: 2024, month: 1, day: 2, hour: 3, minute: 4, second: 5 }
}

fn files() -> Vec<FileEntry> {
    vec![
        FileEntry { path: "project.json".to_string(), bytes: vec![0x7b, 0x7d] },
        FileEntry { path: "chapters/chapter-c1.json".to_string(), bytes: vec![9, 8, 7, 6, 5] },
        FileEntry { path: "images/chapters/pic.png".to_string(), bytes: vec![0x89, 0x50, 0x4e, 0x47] },
    ]
}

fn info(name: &str, mtime: i64) -> BackupInfo {
    BackupInfo { name: name.to_string(), mtime }
}

#[test]
fn test_format_stamp() {
    assert_eq!(format_stamp(&stamp()), "20240102-030405");
    let late = Stamp { year: 999, month: 12, day: 31, hour: 23, minute: 59, second: 58 };
    assert_eq!(format_stamp(&late), "09991231-235958");
}

#[test]
fn test_compress_names_archive() {
    let archive = compress_project(&files(), "my-book-p1-id-00", &stamp()).unwrap();
    assert_eq!(archive.name, "my-book-p1-id-00-20240102-030405.pluma");
    assert!(!archive.bytes.is_empty());
}

#[test]
fn test_compress_then_decompress_restores_files() {
    let archive = compress_project(&files(), "my-book-p1-id-00", &stamp()).unwrap();
    let (folder, restored) = decompress_project(&archive.name, &archive.bytes).unwrap();
    assert_eq!(folder, "my-book-p1-id-00");
    assert_eq!(restored.len(), 3);
    for (a, b) in files().iter().zip(restored.iter()) {
        assert_eq!(a.path, b.path);
        assert_eq!(a.bytes, b.bytes);
    }
}

#[test]
fn test_decompress_then_compress_is_stable() {
    // Restoring a backup and compressing the restored files again keeps
    // the same relative paths with byte-identical contents; only the
    // timestamp in the file name moves.
    let first = compress_project(&files(), "my-book-p1-id-00", &stamp()).unwrap();
    let (_, restored) = decompress_project(&first.name, &first.bytes).unwrap();
    let later = Stamp { year: 2024, month: 1, day: 2, hour: 9, minute: 9, second: 9 };
    let second = compress_project(&restored, "my-book-p1-id-00", &later).unwrap();
    assert_eq!(second.name, "my-book-p1-id-00-20240102-090909.pluma");
    let (folder, again) = decompress_project(&second.name, &second.bytes).unwrap();
    assert_eq!(folder, "my-book-p1-id-00");
    assert_eq!(again.len(), restored.len());
    for (a, b) in restored.iter().zip(again.iter()) {
        assert_eq!(a.path, b.path);
        assert_eq!(a.bytes, b.bytes);
    }
}

#[test]
fn test_decompress_rejects_junk() {
    let junk = vec![1u8, 2, 3, 4];
    assert!(decompress_project("whatever.pluma", &junk).is_err());
}

#[test]
fn test_backup_folder_name_strips_stamp() {
    assert_eq!(backup_folder_name("my-book-p1-20240102-030405"), "my-book-p1");
    // A name without the eight-and-six shape is kept whole.
    assert_eq!(backup_folder_name("my-book"), "my-book");
    assert_eq!(backup_folder_name("my-book-123-45"), "my-book-123-45");
    assert_eq!(backup_folder_name("nodashes"), "nodashes");
}

#[test]
fn test_list_backups_filters_and_sorts() {
    let entries = vec![
        info("my-book-20240101-000000.pluma", 10),
        info("other-20240101-000000.pluma", 99),
        info("my-book-20240103-000000.pluma", 30),
        info("my-book-20240102-000000.pluma", 20),
        info("my-book-notes.txt", 50),
    ];
    let sorted = list_backups(&entries, "my-book");
    assert_eq!(sorted.len(), 3);
    assert_eq!(sorted[0].name, "my-book-20240103-000000.pluma");
    assert_eq!(sorted[1].name, "my-book-20240102-000000.pluma");
    assert_eq!(sorted[2].name, "my-book-20240101-000000.pluma");
}

#[test]
fn test_cleanup_old_backups_keeps_newest_five() {
    // Seven backups, keep five: exactly the two oldest go.
    let mut entries = Vec::new();
    for day in 1..=7 {
        entries.push(info(&format!("my-book-2024010{}-000000.pluma", day), day as i64));
    }
    let removed = cleanup_old_backups(&entries, "my-book", 5);
    assert_eq!(removed.len(), 2);
    assert_eq!(removed[0].name, "my-book-20240102-000000.pluma");
    assert_eq!(removed[1].name, "my-book-20240101-000000.pluma");
}

#[test]
fn test_cleanup_old_backups_under_limit_removes_nothing() {
    let entries = vec![info("my-book-20240101-000000.pluma", 1)];
    let removed = cleanup_old_backups(&entries, "my-book", 5);
    assert_eq!(removed.len(), 0);
}
