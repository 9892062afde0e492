use media_scanner::daemon_actions;
use media_scanner::scanner_from_library;
use media_scanner::DaemonAction;
use media_scanner::FsEvent;
use media_scanner::Library;
use media_scanner::MediaScanner;
use media_scanner::MediaStore;
use media_scanner::MediaType;
use media_scanner::ProbeData;
use media_scanner::ScanEntry;
use media_scanner::ScannerError;

fn probe(corrupt: bool) -> ProbeData {
    ProbeData {
        quality: Some("1080p".to_string()),
        codec: Some("h264".to_string()),
        container: Some("matroska".to_string()),
        audio: Some("aac".to_string()),
        original_resolution: Some("1920x1080".to_string()),
        duration: Some(1320),
        corrupt: Some(corrupt),
    }
}

fn library(id: i32, kind: MediaType) -> Library {
    Library {
        id,
        name: "Shows".to_string(),
        location: "/media/shows".to_string(),
        media_type: kind,
    }
}

fn tv_store() -> MediaStore {
    MediaStore::new(vec![library(1, MediaType::Tv), library(2, MediaType::Movie)])
}

fn entry(path: &str, with_probe: bool) -> ScanEntry {
    ScanEntry { path: path.to_string(), probe: if with_probe { Some(probe(false)) } else { None } }
}

#[test]
fn scan_mounts_only_visible_supported_files() {
    let mut store = tv_store();
    let scanner = MediaScanner::new(MediaType::Tv, &store, 1).unwrap();
    let entries = vec![
        entry("/media/shows/Show.S01E02.mkv", true),
        entry("/media/shows/Show.S01E03.avi", true),
        entry("/media/shows/readme.txt", true),
        entry("/media/shows/.hidden.mkv", true),
    ];
    scanner.start(&mut store, &entries);
    assert_eq!(store.files.len(), 2);
    assert!(store.get_by_path("/media/shows/Show.S01E02.mkv").is_some());
    assert!(store.get_by_path("/media/shows/Show.S01E03.avi").is_some());
    assert!(store.get_by_path("/media/shows/readme.txt").is_none());
    assert!(store.get_by_path("/media/shows/.hidden.mkv").is_none());
    let m = store.get_by_path("/media/shows/Show.S01E02.mkv").unwrap();
    assert_eq!(m.raw_name, "Show");
    assert_eq!(m.season, Some(1));
    assert_eq!(m.episode, Some(2));
    assert_eq!(m.library_id, 1);
}

#[test]
fn hidden_directory_is_skipped_at_any_depth() {
    let mut store = tv_store();
    let scanner = MediaScanner::new(MediaType::Tv, &store, 1).unwrap();
    let entries = vec![
        entry("/media/shows/.trash/Show.S01E02.mkv", true),
        entry("/media/shows/a/b/c/Show.S02E01.nfo", true),
        entry("/media/shows/a/b/c/Show.S02E01.mp4", true),
    ];
    scanner.start(&mut store, &entries);
    assert_eq!(store.files.len(), 1);
    assert!(store.get_by_path("/media/shows/a/b/c/Show.S02E01.mp4").is_some());
}

#[test]
fn mounting_twice_gives_same_record_and_no_second_probe() {
    let mut store = tv_store();
    let scanner = MediaScanner::new(MediaType::Tv, &store, 1).unwrap();
    let path = "/media/shows/Show.S01E02.mkv";
    let mut probes = 0;
    let mut mount = |store: &mut MediaStore| {
        let data = if scanner.needs_probe(store, path) {
            probes += 1;
            Some(probe(false))
        } else {
            None
        };
        scanner.mount_file(store, path, data).unwrap()
    };
    let first = mount(&mut store);
    let second = mount(&mut store);
    assert_eq!(first.id, second.id);
    assert_eq!(probes, 1);
    assert_eq!(store.files.len(), 1);
}

#[test]
fn corrupt_file_is_still_catalogued() {
    let mut store = tv_store();
    let scanner = MediaScanner::new(MediaType::Tv, &store, 1).unwrap();
    let m = scanner.mount_file(&mut store, "/media/shows/Show.S01E02.mkv", Some(probe(true))).unwrap();
    assert_eq!(m.corrupt, Some(true));
    assert_eq!(m.codec, Some("h264".to_string()));
    assert_eq!(m.duration, Some(1320));
    assert_eq!(store.get_by_path("/media/shows/Show.S01E02.mkv").unwrap().corrupt, Some(true));
}

#[test]
fn delete_notification_removes_record() {
    let mut store = tv_store();
    let scanner = MediaScanner::new(MediaType::Tv, &store, 1).unwrap();
    let path = "/media/shows/Show.S01E02.mkv";
    scanner.mount_file(&mut store, path, Some(probe(false))).unwrap();
    let actions = daemon_actions(&FsEvent::Remove(path.to_string()));
    assert_eq!(actions.len(), 1);
    for a in actions {
        match a {
            DaemonAction::Delete(p) => assert!(store.delete(&p)),
            other => panic!("unexpected action {:?}", other),
        }
    }
    assert!(store.get_by_path(path).is_none());
    assert_eq!(store.files.len(), 0);
}

#[test]
fn kind_mismatch_is_refused_with_both_kinds() {
    let store = tv_store();
    let r = MediaScanner::new(MediaType::Movie, &store, 1);
    assert_eq!(
        r.unwrap_err(),
        ScannerError::InvalidLibraryType { expected: MediaType::Movie, got: MediaType::Tv }
    );
    let r = MediaScanner::new(MediaType::Tv, &store, 2);
    assert_eq!(
        r.unwrap_err(),
        ScannerError::InvalidLibraryType { expected: MediaType::Tv, got: MediaType::Movie }
    );
}

#[test]
fn missing_library_is_reported() {
    let store = tv_store();
    assert_eq!(MediaScanner::new(MediaType::Tv, &store, 7).unwrap_err(), ScannerError::LibraryDoesntExist(7));
    assert_eq!(scanner_from_library(&store, 9).unwrap_err(), ScannerError::LibraryDoesntExist(9));
}

#[test]
fn scanner_from_library_takes_declared_kind() {
    let store = tv_store();
    let s = scanner_from_library(&store, 2).unwrap();
    assert_eq!(s.media_type, MediaType::Movie);
    assert_eq!(s.library.id, 2);
    let s = scanner_from_library(&store, 1).unwrap();
    assert_eq!(s.media_type, MediaType::Tv);
}

#[test]
fn one_failing_file_does_not_stop_the_others() {
    let mut store = tv_store();
    let scanner = MediaScanner::new(MediaType::Tv, &store, 1).unwrap();
    let entries = vec![
        entry("/media/shows/Show.S01E01.mkv", true),
        entry("/media/shows/Show.S01E02.mkv", false),
        entry("/media/shows/Show.S01E03.mkv", true),
        entry("/media/shows/S01E04.mkv", true),
        entry("/media/shows/Show.S01E05.mkv", true),
    ];
    scanner.start(&mut store, &entries);
    assert_eq!(store.files.len(), 3);
    assert!(store.get_by_path("/media/shows/Show.S01E02.mkv").is_none());
    assert!(store.get_by_path("/media/shows/Show.S01E05.mkv").is_some());
    assert_eq!(scanner.orphan_titles(&store), vec!["Show".to_string()]);
}

#[test]
fn fresh_file_is_orphan_until_linked() {
    let mut store = tv_store();
    let scanner = MediaScanner::new(MediaType::Tv, &store, 1).unwrap();
    let m = scanner.mount_file(&mut store, "/media/shows/Show.S01E02.mkv", Some(probe(false))).unwrap();
    assert_eq!(m.media_id, None);
    assert_eq!(store.orphans(1), vec![m.id]);
    scanner.link_title(&mut store, "Other", 40);
    assert_eq!(store.orphans(1), vec![m.id]);
    scanner.link_title(&mut store, "Show", 41);
    assert!(store.orphans(1).is_empty());
    assert_eq!(store.get_one(m.id).unwrap().media_id, Some(41));
    scanner.link_title(&mut store, "Show", 42);
    assert_eq!(store.get_one(m.id).unwrap().media_id, Some(41));
    assert!(scanner.orphan_titles(&store).is_empty());
}

#[test]
fn orphan_titles_are_distinct_and_per_library() {
    let mut store = MediaStore::new(vec![library(1, MediaType::Movie), library(2, MediaType::Movie)]);
    let a = MediaScanner::new(MediaType::Movie, &store, 1).unwrap();
    let b = MediaScanner::new(MediaType::Movie, &store, 2).unwrap();
    a.mount_file(&mut store, "/m/Heat.1995.mkv", Some(probe(false))).unwrap();
    a.mount_file(&mut store, "/m/cut/Heat.1995.mp4", Some(probe(false))).unwrap();
    a.mount_file(&mut store, "/m/Alien.1979.avi", Some(probe(false))).unwrap();
    b.mount_file(&mut store, "/n/Ran.1985.mkv", Some(probe(false))).unwrap();
    assert_eq!(a.orphan_titles(&store), vec!["Heat".to_string(), "Alien".to_string()]);
    assert_eq!(b.orphan_titles(&store), vec!["Ran".to_string()]);
    let heat = store.get_by_path("/m/Heat.1995.mkv").unwrap();
    assert_eq!(heat.raw_year, Some(1995));
}

#[test]
fn mount_errors() {
    let mut store = tv_store();
    let scanner = MediaScanner::new(MediaType::Tv, &store, 1).unwrap();
    assert_eq!(
        scanner.mount_file(&mut store, "/media/shows/", Some(probe(false))).unwrap_err(),
        ScannerError::UnknownError
    );
    assert_eq!(
        scanner.mount_file(&mut store, "/media/shows/S01E04.mkv", Some(probe(false))).unwrap_err(),
        ScannerError::FilenameParserError
    );
    assert_eq!(
        scanner.mount_file(&mut store, "/media/shows/Show.S12345678901E01.mkv", Some(probe(false))).unwrap_err(),
        ScannerError::FilenameParserError
    );
    assert_eq!(
        scanner.mount_file(&mut store, "/media/shows/Show.S01E02.mkv", None).unwrap_err(),
        ScannerError::FFProbeError
    );
    store.next_id = i32::MAX;
    assert_eq!(
        scanner.mount_file(&mut store, "/media/shows/Show.S01E02.mkv", Some(probe(false))).unwrap_err(),
        ScannerError::InternalDbError
    );
    assert_eq!(store.files.len(), 0);
}

#[test]
fn ids_are_sequential() {
    let mut store = tv_store();
    let scanner = MediaScanner::new(MediaType::Tv, &store, 1).unwrap();
    let a = scanner.mount_file(&mut store, "/media/shows/Show.S01E01.mkv", Some(probe(false))).unwrap();
    let b = scanner.mount_file(&mut store, "/media/shows/Show.S01E02.mkv", Some(probe(false))).unwrap();
    assert_eq!(a.id, 1);
    assert_eq!(b.id, 2);
    assert_eq!(store.get_one(2).unwrap().target_file, "/media/shows/Show.S01E02.mkv");
    assert!(store.get_one(3).is_none());
}

#[test]
fn walk_root_prefers_override() {
    let store = tv_store();
    let scanner = MediaScanner::new(MediaType::Tv, &store, 1).unwrap();
    assert_eq!(scanner.walk_root(None), "/media/shows");
    assert_eq!(scanner.walk_root(Some("/tmp/x")), "/tmp/x");
}
