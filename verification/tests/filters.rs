use opus_daemon::event::{EventKind, RawEvent};
use opus_daemon::normalizer::{default_extensions, Normalizer};
use opus_daemon::path::{chars_of, find_extension, find_last, malformed, tail_equals, under};

fn chars(s: &str) -> Vec<char> {
    s.chars().collect()
}

fn audio() -> Normalizer {
    Normalizer::new(&vec!["flac".to_string(), "wav".to_string()], "/music/out")
}

fn raw(path: &str, kind: EventKind, at: u64) -> RawEvent {
    RawEvent::new(path.to_string(), kind, at)
}

#[test]
fn chars_of_keeps_every_character() {
    assert_eq!(chars_of("a/b.flac"), chars("a/b.flac"));
    assert_eq!(chars_of(""), Vec::<char>::new());
    assert_eq!(chars_of("né.wav"), vec!['n', 'é', '.', 'w', 'a', 'v']);
}

#[test]
fn find_last_gives_the_last_occurrence() {
    assert_eq!(find_last(&chars("a/b/c"), '/'), Some(3));
    assert_eq!(find_last(&chars("abc"), '/'), None);
    assert_eq!(find_last(&chars(""), '/'), None);
    assert_eq!(find_last(&chars("/"), '/'), Some(0));
}

#[test]
fn extension_is_what_follows_the_last_dot_of_the_file_name() {
    assert_eq!(find_extension(&chars("/music/a.flac")), Some(9));
    assert_eq!(find_extension(&chars("a.tar.gz")), Some(6));
    assert_eq!(find_extension(&chars("song.wav")), Some(5));
}

#[test]
fn paths_without_extension() {
    // no dot at all
    assert_eq!(find_extension(&chars("/music/readme")), None);
    // the dot belongs to a directory, not to the file name
    assert_eq!(find_extension(&chars("/music.d/readme")), None);
    // hidden file: the dot opens the file name
    assert_eq!(find_extension(&chars("/music/.flac")), None);
    assert_eq!(find_extension(&chars(".flac")), None);
    // nothing after the dot
    assert_eq!(find_extension(&chars("/music/a.")), None);
    // a directory
    assert_eq!(find_extension(&chars("/music/a.flac/")), None);
    assert_eq!(find_extension(&chars("")), None);
    assert_eq!(find_extension(&chars("..")), None);
}

#[test]
fn hidden_file_with_extension() {
    assert_eq!(find_extension(&chars(".a.flac")), Some(3));
}

#[test]
fn tail_equals_compares_the_rest() {
    assert!(tail_equals(&chars("a.flac"), 2, &chars("flac")));
    assert!(!tail_equals(&chars("a.flac"), 2, &chars("flaC")));
    assert!(!tail_equals(&chars("a.flac"), 2, &chars("fla")));
    assert!(!tail_equals(&chars("a.flac"), 3, &chars("flac")));
    assert!(tail_equals(&chars("abc"), 3, &chars("")));
}

#[test]
fn under_goes_by_components() {
    assert!(under(&chars("/music/out/a.opus"), &chars("/music/out")));
    assert!(under(&chars("/music/out"), &chars("/music/out")));
    assert!(under(&chars("/music/out/"), &chars("/music/out")));
    assert!(under(&chars("/music/out/a"), &chars("/music/out/")));
    assert!(!under(&chars("/music/output/a.flac"), &chars("/music/out")));
    assert!(!under(&chars("/music/ou"), &chars("/music/out")));
    assert!(!under(&chars("/music/in/a.flac"), &chars("/music/out")));
    assert!(!under(&chars("/music/out/a"), &chars("")));
    assert!(!under(&chars(""), &chars("")));
}

#[test]
fn malformed_paths() {
    assert!(malformed(&chars("")));
    assert!(malformed(&chars("a\0b.flac")));
    assert!(!malformed(&chars("a.flac")));
}

#[test]
fn allowed_extension_passes_unchanged() {
    let n = audio();
    let e = n.normalize(&raw("/music/in/a.flac", EventKind::Created, 17)).unwrap();
    assert_eq!(e.path, "/music/in/a.flac");
    assert_eq!(e.kind, EventKind::Created);
    assert_eq!(e.at, 17);
    let e = n.normalize(&raw("/music/in/b.wav", EventKind::Modified, 18)).unwrap();
    assert_eq!(e.path, "/music/in/b.wav");
    assert_eq!(e.kind, EventKind::Modified);
    assert_eq!(e.at, 18);
}

#[test]
fn other_extensions_are_dropped() {
    let n = audio();
    assert!(n.normalize(&raw("/music/in/a.txt", EventKind::Created, 1)).is_none());
    assert!(n.normalize(&raw("/music/in/a.opus", EventKind::Modified, 1)).is_none());
    assert!(n.normalize(&raw("/music/in/flac", EventKind::Modified, 1)).is_none());
    assert!(n.normalize(&raw("/music/in/a.flac.part", EventKind::Modified, 1)).is_none());
}

#[test]
fn extensions_are_compared_as_written() {
    let n = audio();
    assert!(n.normalize(&raw("/music/in/a.FLAC", EventKind::Created, 1)).is_none());
}

#[test]
fn directories_are_dropped() {
    let n = audio();
    assert!(n.normalize(&raw("/music/in/", EventKind::Created, 1)).is_none());
    assert!(n.normalize(&raw("/music/in/album.flac/", EventKind::Modified, 1)).is_none());
}

#[test]
fn output_directory_is_excluded_for_every_kind() {
    let n = audio();
    assert!(n.normalize(&raw("/music/out/a.flac", EventKind::Created, 1)).is_none());
    assert!(n.normalize(&raw("/music/out/a.flac", EventKind::Modified, 1)).is_none());
    assert!(n.normalize(&raw("/music/out/a.flac", EventKind::Removed, 1)).is_none());
    assert!(n.normalize(&raw("/music/out", EventKind::Removed, 1)).is_none());
    // a sibling whose name merely starts alike is not under it
    assert!(n.normalize(&raw("/music/output/a.flac", EventKind::Created, 1)).is_some());
}

#[test]
fn removals_skip_the_extension_test() {
    let n = audio();
    let e = n.normalize(&raw("/music/in/a.txt", EventKind::Removed, 9)).unwrap();
    assert_eq!(e.path, "/music/in/a.txt");
    assert_eq!(e.kind, EventKind::Removed);
    assert_eq!(e.at, 9);
    assert!(n.normalize(&raw("/music/in/", EventKind::Removed, 9)).is_some());
}

#[test]
fn malformed_paths_are_dropped_for_every_kind() {
    let n = audio();
    assert!(n.normalize(&raw("", EventKind::Removed, 1)).is_none());
    assert!(n.normalize(&raw("", EventKind::Created, 1)).is_none());
    assert!(n.normalize(&raw("a\0.flac", EventKind::Modified, 1)).is_none());
    assert!(n.normalize(&raw("a\0.flac", EventKind::Removed, 1)).is_none());
}

#[test]
fn further_directories_can_be_excluded() {
    let mut n = audio();
    assert!(n.normalize(&raw("/music/tmp/a.flac", EventKind::Created, 1)).is_some());
    n.exclude("/music/tmp");
    assert!(n.normalize(&raw("/music/tmp/a.flac", EventKind::Created, 1)).is_none());
    assert!(n.normalize(&raw("/music/out/a.flac", EventKind::Created, 1)).is_none());
    assert!(n.normalize(&raw("/music/in/a.flac", EventKind::Created, 1)).is_some());
}

#[test]
fn empty_allow_list_lets_only_removals_through() {
    let n = Normalizer::new(&Vec::new(), "out");
    assert!(n.normalize(&raw("a.flac", EventKind::Created, 1)).is_none());
    assert!(n.normalize(&raw("a.flac", EventKind::Removed, 1)).is_some());
}

#[test]
fn default_extensions_are_audio_formats() {
    let exts = default_extensions();
    assert_eq!(exts, vec!["flac", "wav", "mp3", "m4a", "ogg", "aiff"]);
    let n = Normalizer::new(&exts, "/out");
    for e in ["flac", "wav", "mp3", "m4a", "ogg", "aiff"] {
        assert!(n.normalize(&raw(&format!("/in/a.{}", e), EventKind::Created, 1)).is_some());
    }
    assert!(n.normalize(&raw("/in/a.opus", EventKind::Created, 1)).is_none());
}

#[test]
fn marked_directories_are_dropped_unless_removed() {
    let n = audio();
    let dir = |kind| RawEvent::for_directory("/music/in/album.flac".to_string(), kind, 3);
    assert!(dir(EventKind::Created).directory);
    assert!(!raw("/music/in/album.flac", EventKind::Created, 3).directory);
    assert!(n.normalize(&dir(EventKind::Created)).is_none());
    assert!(n.normalize(&dir(EventKind::Modified)).is_none());
    let e = n.normalize(&dir(EventKind::Removed)).unwrap();
    assert_eq!((e.path.as_str(), e.kind, e.at), ("/music/in/album.flac", EventKind::Removed, 3));
    // the same name as a file passes
    assert!(n.normalize(&raw("/music/in/album.flac", EventKind::Created, 3)).is_some());
}
