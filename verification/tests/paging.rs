use can_message_data_generator::pager::{
    Entry, EntryMode, FileStatus, FileStatusType, WebhdfsPager,
};

fn file(name: &str, length: u64, time: i64) -> FileStatus {
    FileStatus {
        path_suffix: name.as_bytes().to_vec(),
        ty: FileStatusType::File,
        length,
        modification_time: time,
    }
}

fn dir(name: &str) -> FileStatus {
    FileStatus {
        path_suffix: name.as_bytes().to_vec(),
        ty: FileStatusType::Directory,
        length: 0,
        modification_time: 0,
    }
}

fn path_of(e: &Entry) -> String {
    String::from_utf8(e.path.clone()).unwrap()
}

#[test]
fn pager_builds_entries_in_reverse() {
    let statuses = vec![file("a.txt", 5, 99), dir("sub"), file("b//", 7, 3)];
    let mut pager = WebhdfsPager::new("dir", statuses);

    let entries = pager.next().unwrap();
    assert_eq!(entries.len(), 3);

    // Last status first; a file's path loses its trailing slashes.
    assert_eq!(path_of(&entries[0]), "dir/b");
    assert_eq!(entries[0].mode, EntryMode::File);
    assert_eq!(entries[0].content_length, 7);
    assert_eq!(entries[0].last_modified_ms, 3);

    // A directory's path gains one slash.
    assert_eq!(path_of(&entries[1]), "dir/sub/");
    assert_eq!(entries[1].mode, EntryMode::Dir);

    assert_eq!(path_of(&entries[2]), "dir/a.txt");
    assert_eq!(entries[2].content_length, 5);
    assert_eq!(entries[2].last_modified_ms, 99);

    // The statuses are consumed.
    assert!(pager.next().is_none());
}

#[test]
fn pager_with_empty_base_path() {
    let statuses = vec![file("top.log", 1, 2)];
    let mut pager = WebhdfsPager::new("", statuses);
    let entries = pager.next().unwrap();
    assert_eq!(path_of(&entries[0]), "top.log");
}

#[test]
fn pager_empty_statuses_gives_none() {
    let mut pager = WebhdfsPager::new("dir", Vec::new());
    assert!(pager.next().is_none());
}
