use ziplookup::report::directory_line;
use ziplookup::report::Event;

#[test]
fn a_match_is_printed_as_its_path_alone() {
    let event = Event::Found { path: "dir/archive.zip[bar/baz.txt]".to_string() };
    assert!(event.is_match());
    assert_eq!(event.line(), "dir/archive.zip[bar/baz.txt]");
}

#[test]
fn a_traced_entry_is_printed_behind_its_mark() {
    let event = Event::Visited { path: "a.zip[b.txt]".to_string() };
    assert!(!event.is_match());
    assert_eq!(event.line(), "A> a.zip[b.txt]");
}

#[test]
fn a_traced_directory_is_printed_behind_its_mark() {
    assert_eq!(directory_line("start/sub dir"), "F> start/sub dir");
    assert_eq!(directory_line(""), "F> ");
}

#[test]
fn failures_are_diagnostics_that_name_their_subject_and_cause() {
    let event = Event::NotOpened { path: "dir/broken.zip".to_string(), cause: "no archive".to_string() };
    assert!(!event.is_match());
    assert_eq!(event.line(), "failed to open dir/broken.zip as a ZIP archive: no archive");
    let event = Event::NotFetched {
        archive: "a.zip".to_string(),
        name: "x/y.txt".to_string(),
        cause: "bad header".to_string(),
    };
    assert!(!event.is_match());
    assert_eq!(event.line(), "failed to obtain x/y.txt from a.zip: bad header");
    let event = Event::NotRead {
        archive: "a.zip[b.jar]".to_string(),
        name: "c.war".to_string(),
        cause: "bad checksum".to_string(),
    };
    assert!(!event.is_match());
    assert_eq!(event.line(), "failed to read c.war from a.zip[b.jar]: bad checksum");
}

#[test]
fn an_archive_past_the_limit_is_a_diagnostic_of_its_own() {
    let event = Event::TooDeep { archive: "a.zip[b.zip]".to_string(), name: "c.zip".to_string() };
    assert!(!event.is_match());
    assert_eq!(
        event.line(),
        "c.zip in a.zip[b.zip] is apparently an archive but we have exceeded the maximum depth"
    );
}
