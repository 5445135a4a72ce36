//! The virtual drive.

use ironrdp_web::backend::OpenHandle;
use ironrdp_web::drive::{DriveSeedFile, VirtualDrive};
use ironrdp_web::filetime::{
    filetime_from_unix_millis, VIRTUAL_DRIVE_FILETIME, WINDOWS_EPOCH_OFFSET_100NS,
};

fn seed(name: &str, size: u64) -> DriveSeedFile {
    DriveSeedFile { name: name.to_owned(), size, last_modified: 1_704_067_200_000 }
}

#[test]
fn confines_paths_and_enumerates_immediate_children() {
    assert!(VirtualDrive::normalize("../secret").is_err());
    let drive = VirtualDrive::from_seed_files(vec![
        DriveSeedFile { name: "notes/readme.txt".to_owned(), size: 2, last_modified: 1_704_067_200_000 },
        DriveSeedFile { name: "top.txt".to_owned(), size: 3, last_modified: 1_704_067_200_000 },
    ]);
    assert!(drive.is_dir("notes"));
    assert_eq!(drive.file_size("notes/readme.txt"), Some(2));
    assert_eq!(drive.file_data("notes/readme.txt"), None);
    assert_eq!(drive.children(""), vec![("notes".to_owned(), true, 0, VIRTUAL_DRIVE_FILETIME), ("top.txt".to_owned(), false, 3, filetime_from_unix_millis(1_704_067_200_000))]);
}

#[test]
fn renaming_a_directory_keeps_its_children_reachable() {
    let mut drive = VirtualDrive::from_seed_files(vec![
        DriveSeedFile { name: "incoming/nested/readme.txt".to_owned(), size: 2, last_modified: 1_704_067_200_000 },
    ]);
    assert!(drive.rename("incoming", "archive".to_owned()));
    assert!(!drive.is_dir("incoming"));
    assert!(drive.is_dir("archive/nested"));
    assert_eq!(drive.file_size("archive/nested/readme.txt"), Some(2));
}

#[test]
fn directory_wildcard_keeps_the_open_nested_directory_path() {
    let drive = VirtualDrive::from_seed_files(vec![
        DriveSeedFile { name: "Grandstream/9.127/readme.txt".to_owned(), size: 2, last_modified: 1_704_067_200_000 },
    ]);
    assert_eq!(
        drive.directory_query_path("Grandstream/9.127", "*"),
        Ok("Grandstream/9.127".to_owned())
    );
    assert_eq!(
        drive.directory_query_path("Grandstream/9.127", "\\*"),
        Ok("Grandstream/9.127".to_owned())
    );
    assert_eq!(
        drive.directory_query_path("Grandstream", "9.127\\*"),
        Ok("Grandstream/9.127".to_owned())
    );
}

#[test]
fn child_enumeration_does_not_retarget_its_open_parent_handle() {
    let drive = VirtualDrive::from_seed_files(vec![
        DriveSeedFile { name: "Grandstream/9.127/readme.txt".to_owned(), size: 2, last_modified: 1_704_067_200_000 },
        DriveSeedFile { name: "Grandstream/11.110/notes.txt".to_owned(), size: 3, last_modified: 1_704_067_200_000 },
    ]);
    let mut handle = OpenHandle { path: "Grandstream".to_owned(), directory: true, children: None, written: false };
    let target = drive.directory_query_path(&handle.path, "9.127\\*").expect("relative child query");
    handle.children = Some(drive.children(&target));

    assert_eq!(target, "Grandstream/9.127");
    assert_eq!(handle.path, "Grandstream", "enumeration must not retarget the opened directory");
    assert_eq!(handle.children, Some(vec![("readme.txt".to_owned(), false, 2, filetime_from_unix_millis(1_704_067_200_000))]));
}

#[test]
fn filetimes_of_known_instants() {
    assert_eq!(filetime_from_unix_millis(0), WINDOWS_EPOCH_OFFSET_100NS);
    assert_eq!(filetime_from_unix_millis(1_704_067_200_000), VIRTUAL_DRIVE_FILETIME);
    assert_eq!(filetime_from_unix_millis(-1), WINDOWS_EPOCH_OFFSET_100NS - 10_000);
}

#[test]
fn filetimes_saturate() {
    assert_eq!(filetime_from_unix_millis(i64::MAX), i64::MAX);
    assert_eq!(filetime_from_unix_millis(i64::MIN), i64::MIN + WINDOWS_EPOCH_OFFSET_100NS);
    assert!(filetime_from_unix_millis(5) < filetime_from_unix_millis(6));
}

#[test]
fn seeding_skips_rejected_names_and_keeps_the_later_of_two() {
    let drive = VirtualDrive::from_seed_files(vec![
        seed("../x", 1),
        seed("\\", 2),
        seed("a\\b", 3),
        seed("/a/b", 4),
    ]);
    assert_eq!(drive.file_size("a/b"), Some(4));
    assert_eq!(drive.file_size(""), None);
    assert!(drive.is_dir(""));
    assert_eq!(drive.children("").len(), 1);
}

#[test]
fn an_empty_drive_has_a_root() {
    let drive = VirtualDrive::from_seed_files(Vec::new());
    assert!(drive.is_dir(""));
    assert_eq!(drive.metadata(""), Some((true, 0, VIRTUAL_DRIVE_FILETIME)));
    assert_eq!(drive.metadata("x"), None);
    assert!(drive.children("").is_empty());
    assert!(drive.children("nowhere").is_empty());
}

#[test]
fn children_come_in_ascending_order_without_duplicates() {
    let drive = VirtualDrive::from_seed_files(vec![
        seed("b/2", 1),
        seed("a", 2),
        seed("b/1", 3),
        seed("B", 4),
        seed("\u{e9}", 5),
        seed("b-c", 6),
    ]);
    let names: Vec<String> = drive.children("").into_iter().map(|child| child.0).collect();
    assert_eq!(names, vec!["B", "a", "b", "b-c", "\u{e9}"]);
    let nested: Vec<(String, usize)> =
        drive.children("b").into_iter().map(|child| (child.0, child.2)).collect();
    assert_eq!(nested, vec![("1".to_owned(), 3), ("2".to_owned(), 1)]);
}

#[test]
fn created_files_start_empty_and_bring_their_parents() {
    let mut drive = VirtualDrive::from_seed_files(Vec::new());
    {
        let file = drive.create_file("x/y/z.txt".to_owned());
        assert_eq!(file.size, 0);
        assert_eq!(file.data, Some(Vec::new()));
        assert_eq!(file.last_modified, VIRTUAL_DRIVE_FILETIME);
        file.data = Some(vec![1, 2]);
        file.size = 2;
    }
    assert!(drive.is_dir("x"));
    assert!(drive.is_dir("x/y"));
    assert_eq!(drive.file_data("x/y/z.txt"), Some(&[1u8, 2][..]));
    assert_eq!(drive.create_file("x/y/z.txt".to_owned()).size, 2);
}

#[test]
fn removing_an_entry_leaves_what_lies_below() {
    let mut drive = VirtualDrive::from_seed_files(vec![seed("d/f", 1)]);
    drive.remove("d");
    assert!(!drive.is_dir("d"));
    assert_eq!(drive.file_size("d/f"), Some(1));
    assert!(!drive.can_list(""));
    assert!(drive.can_list("d"));
    drive.create_dir("d".to_owned());
    assert!(drive.can_list(""));
}

#[test]
fn a_file_shadows_a_directory_of_its_name() {
    let mut drive = VirtualDrive::from_seed_files(vec![seed("d/f", 1), seed("g", 7)]);
    assert!(drive.rename("g", "d".to_owned()));
    assert!(drive.is_dir("d"));
    assert_eq!(drive.metadata("d").map(|m| (m.0, m.1)), Some((false, 7)));
}

#[test]
fn renaming_a_file_moves_it_alone() {
    let mut drive = VirtualDrive::from_seed_files(vec![seed("a/one", 1), seed("a/two", 2)]);
    assert!(drive.rename("a/one", "b/c/uno".to_owned()));
    assert_eq!(drive.file_size("a/one"), None);
    assert_eq!(drive.file_size("b/c/uno"), Some(1));
    assert_eq!(drive.file_size("a/two"), Some(2));
    assert!(drive.is_dir("b/c"));
}

#[test]
fn renaming_nothing_or_the_root_fails() {
    let mut drive = VirtualDrive::from_seed_files(vec![seed("a", 1)]);
    assert!(!drive.rename("missing", "b".to_owned()));
    assert!(!drive.rename("", "b".to_owned()));
    assert!(!drive.is_dir("b"));
}

#[test]
fn renaming_back_restores_the_drive() {
    let mut drive = VirtualDrive::from_seed_files(vec![seed("a/b/c", 1), seed("ab", 2)]);
    let before_names = (drive.children(""), drive.children("a"), drive.children("a/b"));
    assert!(drive.rename("a", "z".to_owned()));
    assert!(!drive.is_dir("a"));
    assert_eq!(drive.file_size("ab"), Some(2));
    assert!(drive.rename("z", "a".to_owned()));
    assert_eq!((drive.children(""), drive.children("a"), drive.children("a/b")), before_names);
}

#[test]
fn renaming_a_directory_below_itself_leaves_a_gap() {
    let mut drive = VirtualDrive::from_seed_files(vec![seed("a/f", 1)]);
    assert!(drive.rename("a", "a/b".to_owned()));
    assert_eq!(drive.file_size("a/b/f"), Some(1));
    assert!(!drive.is_dir("a"));
    assert!(!drive.can_list(""));
}

#[test]
fn renaming_a_directory_to_the_root_keeps_the_separator() {
    let mut drive = VirtualDrive::from_seed_files(vec![seed("d/f", 1)]);
    assert!(drive.rename("d", String::new()));
    assert_eq!(drive.file_size("/f"), Some(1));
    assert!(!drive.is_dir("d"));
}

#[test]
fn a_query_is_taken_from_the_root_before_the_open_directory() {
    let drive = VirtualDrive::from_seed_files(vec![seed("a/b/x", 1), seed("b/y", 1)]);
    assert_eq!(drive.directory_query_path("a", "b\\*"), Ok("b".to_owned()));
    assert_eq!(drive.directory_query_path("a", "b/x"), Ok("a/b/x".to_owned()));
    assert_eq!(drive.directory_query_path("a", "none"), Ok("none".to_owned()));
    assert_eq!(drive.directory_query_path("", "b"), Ok("b".to_owned()));
    assert_eq!(drive.directory_query_path("a", "..\\b"), Err(()));
}

#[test]
fn directories_keep_one_time() {
    let mut drive = VirtualDrive::from_seed_files(vec![seed("a/b/c", 1)]);
    drive.create_dir("d/e".to_owned());
    drive.create_file("f/g".to_owned()).last_modified = 5;
    assert!(drive.rename("a", "h/i".to_owned()));
    drive.remove("d/e");
    for dir in ["", "d", "f", "h", "h/i", "h/i/b"] {
        assert_eq!(drive.metadata(dir), Some((true, 0, VIRTUAL_DRIVE_FILETIME)));
    }
}
