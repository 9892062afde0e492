use media_scanner::bare_file_name;
use media_scanner::daemon_actions;
use media_scanner::file_name;
use media_scanner::has_supported_extension;
use media_scanner::is_heuristic_safe;
use media_scanner::is_hidden_path;
use media_scanner::parse_file_name;
use media_scanner::should_mount;
use media_scanner::ApiMediaType;
use media_scanner::DaemonAction;
use media_scanner::FsEvent;
use media_scanner::MediaType;

#[test]
fn hidden_components() {
    assert!(is_hidden_path(".hidden.mkv"));
    assert!(is_hidden_path("/media/.cache/a.mkv"));
    assert!(!is_hidden_path("/media/shows/a.b.mkv"));
    assert!(!is_hidden_path(""));
}

#[test]
fn supported_extensions() {
    assert!(has_supported_extension("/a/b.mkv"));
    assert!(has_supported_extension("/a/b.mp4"));
    assert!(has_supported_extension("/a/b.avi"));
    assert!(!has_supported_extension("/a/readme.txt"));
    assert!(!has_supported_extension("/a/mkv"));
    assert!(!has_supported_extension("/a/b.MKV"));
    assert!(!has_supported_extension("/a/.mkv"));
    assert!(!has_supported_extension("/a/b.mkv.part"));
    assert!(should_mount("/a/b/c/d/e.mkv"));
    assert!(!should_mount("/a/.b/e.mkv"));
    assert!(!should_mount("/a/b/e.srt"));
}

#[test]
fn file_names() {
    assert_eq!(file_name("/a/b/Show.S01E02.mkv"), Some("Show.S01E02.mkv".to_string()));
    assert_eq!(file_name("plain"), Some("plain".to_string()));
    assert_eq!(file_name("/a/b/"), None);
    assert_eq!(file_name("/a/.."), None);
    assert_eq!(bare_file_name("/a/b/Show.S01E02.mkv"), Some("Show.S01E02".to_string()));
    assert_eq!(bare_file_name("/a/b/noext"), Some("noext".to_string()));
    assert_eq!(bare_file_name("/a/b/.rc"), Some(".rc".to_string()));
    assert_eq!(bare_file_name("/"), None);
}

#[test]
fn heuristic_reads_fields() {
    let p = parse_file_name("Doctor.Who.(2003).S01E01").unwrap();
    assert_eq!(p.title, "Doctor Who");
    assert_eq!(p.year, Some(2003));
    assert_eq!(p.season, Some(1));
    assert_eq!(p.episode, Some(1));
    assert!(parse_file_name("S01E01").is_none());
    assert!(parse_file_name("Show.S99999999999E01").is_none());
}

#[test]
fn heuristic_guard() {
    assert!(is_heuristic_safe("Show.S01E02.123456789"));
    assert!(!is_heuristic_safe("Show.1234567890"));
    assert!(!is_heuristic_safe("Show.S\u{0663}E01"));
    assert!(is_heuristic_safe("Amélie.2001"));
}

#[test]
fn daemon_decisions() {
    let r = daemon_actions(&FsEvent::Create("/m/a.mkv".to_string()));
    assert!(matches!(r.as_slice(), [DaemonAction::Mount(p)] if p == "/m/a.mkv"));
    let r = daemon_actions(&FsEvent::Write("/m/a.txt".to_string()));
    assert!(r.is_empty());
    let r = daemon_actions(&FsEvent::Create("/m/.a.mkv".to_string()));
    assert!(r.is_empty());
    let r = daemon_actions(&FsEvent::Rename("/m/a.part".to_string(), "/m/a.mkv".to_string()));
    assert!(matches!(r.as_slice(), [DaemonAction::Delete(f), DaemonAction::Mount(t)] if f == "/m/a.part" && t == "/m/a.mkv"));
    let r = daemon_actions(&FsEvent::Rename("/m/a.mkv".to_string(), "/m/a.bak".to_string()));
    assert!(matches!(r.as_slice(), [DaemonAction::Delete(f)] if f == "/m/a.mkv"));
    let r = daemon_actions(&FsEvent::DirCreate("/m/new".to_string()));
    assert!(matches!(r.as_slice(), [DaemonAction::Walk(p)] if p == "/m/new"));
    let r = daemon_actions(&FsEvent::DirCreate("/m/.git".to_string()));
    assert!(r.is_empty());
}

#[test]
fn media_type_names() {
    assert_eq!(ApiMediaType::Movie.as_str(), "movie");
    assert_eq!(ApiMediaType::Tv.as_str(), "tv");
    assert_eq!(ApiMediaType::from_library(MediaType::Tv), ApiMediaType::Tv);
    assert_eq!(ApiMediaType::from_library(MediaType::Movie), ApiMediaType::Movie);
}
