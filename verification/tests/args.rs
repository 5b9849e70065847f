use ziplookup::args::parse_arguments;
use ziplookup::args::Invocation;

fn texts(args: &[&str]) -> Vec<Option<String>> {
    args.iter().map(|arg| Some(arg.to_string())).collect()
}

fn invocation(trace_each: usize, start_at: usize, name: &str) -> Option<Invocation> {
    Some(Invocation { trace_each, start_at, search_name_lower: name.to_string() })
}

#[test]
fn two_arguments_ask_for_a_search_without_tracing() {
    assert_eq!(parse_arguments(&texts(&["ziplookup", "dir", "name.txt"])), invocation(0, 1, "name.txt"));
}

#[test]
fn the_search_name_is_put_in_lower_case() {
    assert_eq!(parse_arguments(&texts(&["ziplookup", "Dir", "Foo.TXT"])), invocation(0, 1, "foo.txt"));
    assert_eq!(
        parse_arguments(&texts(&["ziplookup", "--trace", "Dir", "JndiLookup.class"])),
        invocation(1, 2, "jndilookup.class")
    );
}

#[test]
fn trace_flag_traces_every_visit() {
    assert_eq!(parse_arguments(&texts(&["ziplookup", "--trace", "dir", "name"])), invocation(1, 2, "name"));
}

#[test]
fn trace_some_flag_traces_every_16384th_visit() {
    assert_eq!(
        parse_arguments(&texts(&["ziplookup", "--trace-some", "dir", "name"])),
        invocation(16384, 2, "name")
    );
}

#[test]
fn too_few_arguments_are_refused() {
    assert_eq!(parse_arguments(&texts(&[])), None);
    assert_eq!(parse_arguments(&texts(&["ziplookup"])), None);
    assert_eq!(parse_arguments(&texts(&["ziplookup", "dir"])), None);
}

#[test]
fn too_many_arguments_are_refused() {
    assert_eq!(parse_arguments(&texts(&["ziplookup", "dir", "name", "more"])), None);
    assert_eq!(parse_arguments(&texts(&["ziplookup", "--trace", "dir", "name", "more"])), None);
    assert_eq!(parse_arguments(&texts(&["ziplookup", "--trace-some", "dir", "name", "more"])), None);
}

#[test]
fn a_flag_with_one_argument_is_refused() {
    assert_eq!(parse_arguments(&texts(&["ziplookup", "--trace", "name"])), None);
    assert_eq!(parse_arguments(&texts(&["ziplookup", "--trace-some", "name"])), None);
}

#[test]
fn an_unknown_flag_is_taken_as_the_directory() {
    assert_eq!(parse_arguments(&texts(&["ziplookup", "--verbose", "name"])), invocation(0, 1, "name"));
    assert_eq!(parse_arguments(&texts(&["ziplookup", "--TRACE", "name"])), invocation(0, 1, "name"));
    assert_eq!(parse_arguments(&texts(&["ziplookup", "--trace", "--trace-some", "x"])), invocation(1, 2, "x"));
}

#[test]
fn a_flag_is_looked_for_in_the_first_place_only() {
    assert_eq!(parse_arguments(&texts(&["ziplookup", "dir", "--trace"])), invocation(0, 1, "--trace"));
    assert_eq!(parse_arguments(&texts(&["ziplookup", "dir", "--trace", "name"])), None);
}

#[test]
fn a_search_name_that_is_no_text_is_refused() {
    let args = vec![Some("ziplookup".to_string()), Some("dir".to_string()), None];
    assert_eq!(parse_arguments(&args), None);
    let args = vec![Some("ziplookup".to_string()), Some("--trace".to_string()), Some("dir".to_string()), None];
    assert_eq!(parse_arguments(&args), None);
}

#[test]
fn a_directory_that_is_no_text_is_accepted() {
    let args = vec![Some("ziplookup".to_string()), None, Some("Name".to_string())];
    assert_eq!(parse_arguments(&args), invocation(0, 1, "name"));
    let args = vec![None, Some("--trace-some".to_string()), None, Some("Name".to_string())];
    assert_eq!(parse_arguments(&args), invocation(16384, 2, "name"));
}
