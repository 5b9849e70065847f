use std::io::Write;

use ziplookup::report::Event;
use ziplookup::sampler::TRACE_SOME;
use ziplookup::walk::file_verdict;
use ziplookup::walk::FileVerdict;
use ziplookup::walk::Walk;

fn archive_of(entries: &[(String, Vec<u8>)]) -> Vec<u8> {
    let mut writer = zip::ZipWriter::new(std::io::Cursor::new(Vec::new()));
    let options = zip::write::SimpleFileOptions::default()
        .compression_method(zip::CompressionMethod::Stored);
    for (name, content) in entries {
        writer.start_file(name.as_str(), options).unwrap();
        writer.write_all(content).unwrap();
    }
    writer.finish().unwrap().into_inner()
}

fn entry(name: &str, content: &[u8]) -> (String, Vec<u8>) {
    (name.to_string(), content.to_vec())
}

fn traces(events: &[Event]) -> usize {
    events.iter().filter(|event| matches!(event, Event::Visited { .. })).count()
}

#[test]
fn a_file_named_as_the_key_matches_whatever_its_case() {
    assert_eq!(file_verdict("Foo.TXT", "foo.txt"), FileVerdict::Match);
    assert_eq!(file_verdict("foo.txt", "foo.txt"), FileVerdict::Match);
    assert_eq!(file_verdict("JndiLookup.class", "jndilookup.class"), FileVerdict::Match);
}

#[test]
fn a_file_of_another_name_is_passed_over() {
    assert_eq!(file_verdict("Foo.TXT", "foo"), FileVerdict::Pass);
    assert_eq!(file_verdict("Foo.TXT.bak", "foo.txt"), FileVerdict::Pass);
    assert_eq!(file_verdict("aFoo.TXT", "foo.txt"), FileVerdict::Pass);
    assert_eq!(file_verdict("", "foo.txt"), FileVerdict::Pass);
}

#[test]
fn a_container_file_is_scanned() {
    assert_eq!(file_verdict("archive.zip", "foo.txt"), FileVerdict::Scan);
    assert_eq!(file_verdict("Broken.ZIP", "foo.txt"), FileVerdict::Scan);
    assert_eq!(file_verdict("app.war", "foo.txt"), FileVerdict::Scan);
    assert_eq!(file_verdict("lib.Jar", "foo.txt"), FileVerdict::Scan);
    assert_eq!(file_verdict("all.EAR", "foo.txt"), FileVerdict::Scan);
}

#[test]
fn a_container_file_is_not_matched_by_its_own_name() {
    assert_eq!(file_verdict("archive.zip", "archive.zip"), FileVerdict::Scan);
}

#[test]
fn a_file_name_is_compared_whole() {
    assert_eq!(file_verdict("a\\foo.txt", "foo.txt"), FileVerdict::Pass);
    assert_eq!(file_verdict("a\\Foo.txt", "a\\foo.txt"), FileVerdict::Match);
}

#[test]
fn a_new_walk_has_the_start_to_list() {
    let walk = Walk::new("start", 16384);
    assert_eq!(walk.pending, vec!["start"]);
    assert_eq!(walk.trace_each, 16384);
    assert_eq!(walk.trace_counter, 0);
}

#[test]
fn the_walk_ends_when_nothing_is_left() {
    let mut walk = Walk::new(7u32, 0);
    assert_eq!(walk.next_directory(), Some((7, false)));
    assert_eq!(walk.next_directory(), None);
    assert_eq!(walk.next_directory(), None);
    assert_eq!(walk.trace_counter, 1);
}

#[test]
fn the_directory_noted_last_is_listed_first() {
    let mut walk = Walk::new("root".to_string(), 0);
    assert_eq!(walk.next_directory(), Some(("root".to_string(), false)));
    walk.note_directory("root/a".to_string());
    walk.note_directory("root/b".to_string());
    assert_eq!(walk.next_directory(), Some(("root/b".to_string(), false)));
    walk.note_directory("root/b/c".to_string());
    assert_eq!(walk.next_directory(), Some(("root/b/c".to_string(), false)));
    assert_eq!(walk.next_directory(), Some(("root/a".to_string(), false)));
    assert_eq!(walk.next_directory(), None);
    assert_eq!(walk.trace_counter, 4);
}

#[test]
fn noting_a_directory_is_no_visit() {
    let mut walk = Walk::new(0u8, 1);
    walk.note_directory(1);
    walk.note_directory(2);
    assert_eq!(walk.pending, vec![0, 1, 2]);
    assert_eq!(walk.trace_counter, 0);
    assert_eq!(walk.trace_each, 1);
}

#[test]
fn directory_visits_are_sampled() {
    let mut walk = Walk::new(0u32, 2);
    walk.note_directory(1);
    walk.note_directory(2);
    walk.note_directory(3);
    assert_eq!(walk.next_directory(), Some((3, false)));
    assert_eq!(walk.next_directory(), Some((2, true)));
    assert_eq!(walk.next_directory(), Some((1, false)));
    assert_eq!(walk.next_directory(), Some((0, true)));
    assert_eq!(walk.next_directory(), None);
}

#[test]
fn a_container_file_is_scanned_with_the_full_budget() {
    let mut data = archive_of(&[entry("target.txt", b"x")]);
    for level in (1..=9).rev() {
        data = archive_of(&[(format!("l{}.zip", level), data), entry("Target.TXT", b"y")]);
    }
    let mut walk = Walk::new((), 0);
    let mut events = Vec::new();
    walk.scan_file("dir/top.zip", &data, "target.txt", &mut events);
    let mut paths = vec!["dir/top.zip".to_string()];
    for level in 1..=8 {
        let deeper = format!("{}[l{}.zip]", paths[level - 1], level);
        paths.push(deeper);
    }
    let mut expected = vec![Event::TooDeep { archive: paths[8].clone(), name: "l9.zip".to_string() }];
    for path in paths.iter().rev() {
        expected.push(Event::Found { path: format!("{}[Target.TXT]", path) });
    }
    assert_eq!(events, expected);
    assert_eq!(events.len(), 10);
    assert_eq!(walk.trace_counter, 18);
    assert_eq!(walk.pending, vec![()]);
}

#[test]
fn directories_and_entries_share_one_counter() {
    let data = archive_of(&[entry("a", b"1"), entry("b", b"2")]);
    let mut walk = Walk::new(0u8, 3);
    let mut events = Vec::new();
    assert_eq!(walk.next_directory(), Some((0, false)));
    walk.scan_file("first.zip", &data, "none", &mut events);
    assert_eq!(events, vec![Event::Visited { path: "first.zip[b]".to_string() }]);
    walk.note_directory(1);
    walk.scan_file("second.zip", &data, "none", &mut events);
    assert_eq!(walk.trace_counter, 2);
    assert_eq!(walk.next_directory(), Some((1, true)));
    assert_eq!(events.len(), 1);
}

#[test]
fn trace_some_traces_two_of_32768_visits_of_either_kind() {
    let entries: Vec<(String, Vec<u8>)> =
        (0..11_384).map(|number| (format!("e{}", number), Vec::new())).collect();
    let data = archive_of(&entries);
    let mut walk = Walk::new(0u32, TRACE_SOME);
    let mut events = Vec::new();
    let mut traced = 0;
    for directory in 1..10_000u32 {
        walk.note_directory(directory);
    }
    for _ in 0..5_000 {
        if walk.next_directory().unwrap().1 {
            traced += 1;
        }
    }
    walk.scan_file("one.zip", &data, "none", &mut events);
    for _ in 0..5_000 {
        if walk.next_directory().unwrap().1 {
            traced += 1;
        }
    }
    walk.scan_file("two.zip", &data, "none", &mut events);
    assert_eq!(walk.next_directory(), None);
    assert_eq!(traced + traces(&events), 2);
    assert_eq!(events.len(), traces(&events));
    assert_eq!(walk.trace_counter, 0);
}

#[test]
fn a_broken_container_file_leaves_the_walk_as_it_was() {
    let mut walk = Walk::new("root", 1);
    walk.note_directory("next");
    let mut events = Vec::new();
    walk.scan_file("root/broken.zip", &b"junk".to_vec(), "foo.txt", &mut events);
    assert_eq!(events.len(), 1);
    assert!(matches!(&events[0], Event::NotOpened { path, .. } if path == "root/broken.zip"));
    assert_eq!(file_verdict("Foo.TXT", "foo.txt"), FileVerdict::Match);
    assert_eq!(walk.pending, vec!["root", "next"]);
    assert_eq!(walk.trace_counter, 0);
}
