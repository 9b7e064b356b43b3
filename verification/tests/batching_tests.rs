use zipper::err::AppError;
use zipper::unzipper::{unzip_folder, unzip_mdr_folder};
use zipper::zipper::{
    zip_mdr_files_in_multiple_folders, zip_mdr_files_in_single_folder, zip_mdr_folder,
    FileEntry, FolderListing, GroupEntry,
};
use zipper::SourceDetails;

fn files_of(n: usize, stem: &str) -> Vec<FileEntry> {
    let mut v = Vec::new();
    for i in 0..n {
        v.push(FileEntry { name: format!("{}_{}.json", stem, i), data: Vec::new() })
    }
    v
}

fn group_of(name: &str, n: usize) -> GroupEntry {
    GroupEntry { name: name.to_string(), files: files_of(n, name) }
}

fn source(name: &str, grouped: bool) -> SourceDetails {
    SourceDetails {
        id: 100120,
        database_name: name.to_string(),
        local_folder: String::new(),
        local_files_grouped: grouped,
        grouping_range_by_id: None,
    }
}

#[test]
fn naming_determinism_for_25000_files() {
    let files = files_of(25000, "f");
    let (archs, count) = zip_mdr_files_in_single_folder("src", "240101", &files).unwrap();
    assert_eq!(count, 25000);
    assert_eq!(archs.len(), 3);
    assert_eq!(archs[0].name, "src 240101 1 to 10000.zip");
    assert_eq!(archs[1].name, "src 240101 10001 to 20000.zip");
    assert_eq!(archs[2].name, "src 240101 20001 to 25000.zip");
}

#[test]
fn batch_completeness_counts() {
    let files = files_of(25000, "f");
    let (archs, _) = zip_mdr_files_in_single_folder("src", "240101", &files).unwrap();
    let mut seen: Vec<String> = Vec::new();
    let mut total = 0;
    for (k, a) in archs.iter().enumerate() {
        let entries = unzip_folder("dest", &a.bytes).unwrap();
        if k < archs.len() - 1 {
            assert_eq!(entries.len(), 10000);
        }
        total += entries.len();
        for e in entries {
            seen.push(e.name);
        }
    }
    assert_eq!(total, 25000);
    for i in 0..25000 {
        assert_eq!(seen[i], format!("f_{}.json", i));
    }
}

#[test]
fn empty_folder_yields_no_archive() {
    let files = files_of(0, "f");
    let (archs, count) = zip_mdr_files_in_single_folder("src", "240101", &files).unwrap();
    assert_eq!(count, 0);
    assert!(archs.is_empty());
}

#[test]
fn round_trip_reproduces_contents() {
    let files = vec![
        FileEntry { name: "a.json".to_string(), data: b"alpha contents".to_vec() },
        FileEntry { name: "b.json".to_string(), data: b"beta".to_vec() },
        FileEntry { name: "c.json".to_string(), data: vec![0u8, 1, 2, 255, 254] },
    ];
    let (archs, count) = zip_mdr_files_in_single_folder("db", "240101", &files).unwrap();
    assert_eq!(count, 3);
    assert_eq!(archs.len(), 1);
    assert_eq!(archs[0].name, "db 240101 1 to 3.zip");
    let out = unzip_folder("dest", &archs[0].bytes).unwrap();
    assert_eq!(out.len(), 3);
    for (orig, ext) in files.iter().zip(out.iter()) {
        assert_eq!(orig.name, ext.name);
        assert_eq!(orig.data, ext.data);
    }
}

#[test]
fn grouped_threshold_closure() {
    let groups = vec![
        group_of("g1", 4000),
        group_of("g2", 4000),
        group_of("g3", 4000),
        group_of("g4", 100),
    ];
    let (archs, count) = zip_mdr_files_in_multiple_folders("db", "240101", &groups).unwrap();
    assert_eq!(count, 4);
    // the first archive closes with the third group (cumulative 12000 >= 10000);
    // the fourth group's archive never reaches the threshold and is closed at
    // end of input.
    assert_eq!(archs.len(), 2);
    assert_eq!(archs[0].name, "db 240101 g1 to g3.zip");
    assert_eq!(archs[1].name, "db 240101 g4 to g4.zip");
    let first = unzip_folder("dest", &archs[0].bytes).unwrap();
    assert_eq!(first.len(), 12000);
    assert_eq!(first[0].name, "g1/g1_0.json");
    let second = unzip_folder("dest", &archs[1].bytes).unwrap();
    assert_eq!(second.len(), 100);
    assert_eq!(second[0].name, "g4/g4_0.json");
}

#[test]
fn grouped_exact_threshold_closes_without_empty_archive() {
    let groups = vec![group_of("g1", 10000)];
    let (archs, count) = zip_mdr_files_in_multiple_folders("db", "240101", &groups).unwrap();
    assert_eq!(count, 1);
    assert_eq!(archs.len(), 1);
    assert_eq!(archs[0].name, "db 240101 g1 to g1.zip");
}

#[test]
fn grouped_empty_input_and_empty_groups() {
    let (archs, count) = zip_mdr_files_in_multiple_folders("db", "240101", &Vec::new()).unwrap();
    assert_eq!(count, 0);
    assert!(archs.is_empty());
    // a group without files starts no archive of its own; the next group with
    // files does
    let groups = vec![group_of("g1", 0), group_of("g2", 3)];
    let (archs, count) = zip_mdr_files_in_multiple_folders("db", "240101", &groups).unwrap();
    assert_eq!(count, 2);
    assert_eq!(archs.len(), 1);
    assert_eq!(archs[0].name, "db 240101 g2 to g2.zip");
    let entries = unzip_folder("dest", &archs[0].bytes).unwrap();
    assert_eq!(entries.len(), 3);
}

#[test]
fn blank_database_name_rejected_for_zip() {
    let src = source("   ", false);
    let listing = FolderListing::Flat(files_of(2, "f"));
    let err = match zip_mdr_folder(&src, &listing) {
        Err(e) => e,
        Ok(_) => panic!("a blank database name must be rejected"),
    };
    assert!(matches!(err, AppError::FileSystemError(_, _)));
}

#[test]
fn blank_database_name_rejected_for_unzip() {
    let src = source("", true);
    let err = unzip_mdr_folder(&src, "dest", Vec::new()).unwrap_err();
    assert!(matches!(err, AppError::FileSystemError(_, _)));
}

#[test]
fn zip_mdr_folder_dispatches_flat() {
    let src = source("geo", false);
    let listing = FolderListing::Flat(files_of(5, "f"));
    let (archs, count) = zip_mdr_folder(&src, &listing).unwrap();
    assert_eq!(count, 5);
    assert_eq!(archs.len(), 1);
    assert!(archs[0].name.starts_with("geo "));
    assert!(archs[0].name.ends_with(" 1 to 5.zip"));
}

#[test]
fn zip_mdr_folder_dispatches_grouped() {
    let src = source("geo", true);
    let listing = FolderListing::Grouped(vec![group_of("aa", 2), group_of("bb", 3)]);
    let (archs, count) = zip_mdr_folder(&src, &listing).unwrap();
    assert_eq!(count, 2);
    assert_eq!(archs.len(), 1);
    assert!(archs[0].name.starts_with("geo "));
    assert!(archs[0].name.ends_with(" aa to bb.zip"));
}

#[test]
fn unzip_mdr_folder_skips_non_zip_files() {
    let files = files_of(4, "f");
    let (archs, _) = zip_mdr_files_in_single_folder("db", "240101", &files).unwrap();
    let inputs = vec![
        FileEntry { name: "first.zip".to_string(), data: archs[0].bytes.clone() },
        FileEntry { name: "notes.txt".to_string(), data: b"not an archive".to_vec() },
        FileEntry { name: "SECOND.ZIP".to_string(), data: archs[0].bytes.clone() },
    ];
    let src = source("db", false);
    let (out, count) = unzip_mdr_folder(&src, "unzipped/db", inputs).unwrap();
    assert_eq!(count, 8);
    assert_eq!(out.len(), 8);
    assert_eq!(out[0].name, "f_0.json");
    assert_eq!(out[4].name, "f_0.json");
}

#[test]
fn unzip_mdr_folder_rejects_corrupt_archive() {
    let inputs = vec![FileEntry { name: "bad.zip".to_string(), data: b"garbage".to_vec() }];
    let src = source("db", false);
    let err = unzip_mdr_folder(&src, "unzipped/db", inputs).unwrap_err();
    assert!(matches!(err, AppError::UnzipError(_, _)));
}

#[test]
fn duplicate_entry_names_fail_the_archive() {
    let files = vec![
        FileEntry { name: "same.json".to_string(), data: b"one".to_vec() },
        FileEntry { name: "same.json".to_string(), data: b"two".to_vec() },
    ];
    let err = match zip_mdr_files_in_single_folder("db", "240101", &files) {
        Err(e) => e,
        Ok(_) => panic!("duplicate entry names must be rejected"),
    };
    assert!(matches!(err, AppError::ZipError(_, _)));
}

#[test]
fn unzip_folder_rejects_non_archive_bytes() {
    let err = unzip_folder("unzipped/db", &b"not a zip at all".to_vec()).unwrap_err();
    match err {
        AppError::UnzipError(_, p) => assert_eq!(p, "unzipped/db"),
        other => panic!("unexpected error kind: {:?}", other),
    }
}
