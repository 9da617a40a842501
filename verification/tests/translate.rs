use porcelain::config::{ArgDescriptor, Configuration};
use porcelain::matches::MatchResult;
use porcelain::translate::{plan, translate, Plan};

fn descriptor(key: &str, map: Option<&str>) -> ArgDescriptor {
    ArgDescriptor { key: String::from(key), map: map.map(String::from) }
}

fn configuration(humanize: Option<&str>, args: Vec<ArgDescriptor>) -> Configuration {
    Configuration { executable: String::from("tool"), humanize: humanize.map(String::from), args }
}

fn supplied(entries: &[(&str, Option<&str>)]) -> MatchResult {
    let mut result = MatchResult::new();
    for (key, value) in entries {
        result.record(String::from(*key), value.map(String::from));
    }
    result
}

#[test]
fn nothing_supplied_gives_no_tokens() {
    let config = configuration(
        Some("--color"),
        vec![descriptor("verbose", Some("-v")), descriptor("output", Some("-o"))],
    );
    assert_eq!(translate(&config, &MatchResult::new(), false), Vec::<String>::new());
}

#[test]
fn absent_key_contributes_nothing() {
    let config = configuration(
        None,
        vec![
            descriptor("verbose", Some("-v")),
            descriptor("quiet", Some("-q")),
            descriptor("output", Some("-o")),
        ],
    );
    let found = supplied(&[("verbose", None), ("output", Some("out.txt"))]);
    assert_eq!(translate(&config, &found, false), vec!["-v", "-o", "out.txt"]);
}

#[test]
fn mapped_flag_without_value_is_one_token() {
    let config = configuration(None, vec![descriptor("verbose", Some("-x"))]);
    let found = supplied(&[("verbose", None)]);
    assert_eq!(translate(&config, &found, false), vec!["-x"]);
}

#[test]
fn mapped_flag_with_value_is_two_tokens() {
    let config = configuration(None, vec![descriptor("output", Some("-x"))]);
    let found = supplied(&[("output", Some("V"))]);
    assert_eq!(translate(&config, &found, false), vec!["-x", "V"]);
}

#[test]
fn value_without_map_passes_alone() {
    let config = configuration(None, vec![descriptor("path", None)]);
    let found = supplied(&[("path", Some("src/main.rs"))]);
    assert_eq!(translate(&config, &found, false), vec!["src/main.rs"]);
}

#[test]
fn flag_without_map_and_value_is_dropped() {
    let config =
        configuration(None, vec![descriptor("dry", None), descriptor("verbose", Some("-v"))]);
    let found = supplied(&[("dry", None), ("verbose", None)]);
    assert_eq!(translate(&config, &found, false), vec!["-v"]);
}

#[test]
fn empty_value_is_kept_as_a_token() {
    let config = configuration(None, vec![descriptor("name", Some("-n"))]);
    let found = supplied(&[("name", Some(""))]);
    assert_eq!(translate(&config, &found, false), vec!["-n", ""]);
}

#[test]
fn tokens_follow_the_order_of_declaration() {
    let config = configuration(
        None,
        vec![
            descriptor("c", Some("-c")),
            descriptor("a", Some("-a")),
            descriptor("b", Some("-b")),
        ],
    );
    let found = supplied(&[("a", Some("1")), ("b", None), ("c", Some("3"))]);
    assert_eq!(translate(&config, &found, false), vec!["-c", "3", "-a", "1", "-b"]);
}

#[test]
fn humanize_needs_a_terminal() {
    let config = configuration(Some("--color"), vec![descriptor("verbose", Some("-v"))]);
    let found = supplied(&[("verbose", None)]);
    assert_eq!(translate(&config, &found, false), vec!["-v"]);
    assert_eq!(translate(&config, &MatchResult::new(), false), Vec::<String>::new());
}

#[test]
fn humanize_stands_first_on_a_terminal() {
    let config = configuration(Some("--color"), vec![descriptor("verbose", Some("-v"))]);
    let found = supplied(&[("verbose", None)]);
    assert_eq!(translate(&config, &found, true), vec!["--color", "-v"]);
    assert_eq!(translate(&config, &MatchResult::new(), true), vec!["--color"]);
}

#[test]
fn terminal_without_humanize_adds_nothing() {
    let config = configuration(None, vec![descriptor("verbose", Some("-v"))]);
    let found = supplied(&[("verbose", None)]);
    assert_eq!(translate(&config, &found, true), vec!["-v"]);
}

#[test]
fn undeclared_key_is_ignored() {
    let config = configuration(None, vec![descriptor("verbose", Some("-v"))]);
    let found = supplied(&[("other", Some("x"))]);
    assert_eq!(translate(&config, &found, false), Vec::<String>::new());
}

#[test]
fn verbose_with_value_hello() {
    let config = Configuration {
        executable: String::from("echo"),
        humanize: None,
        args: vec![descriptor("verbose", Some("-v"))],
    };
    let found = supplied(&[("verbose", Some("hello"))]);
    assert_eq!(translate(&config, &found, false), vec!["-v", "hello"]);
    assert_eq!(translate(&config, &found, true), vec!["-v", "hello"]);
    assert_eq!(
        plan(&config, &found, false),
        Plan::Launch {
            executable: String::from("echo"),
            arguments: vec![String::from("-v"), String::from("hello")],
        }
    );
}

#[test]
fn version_flag_decides_alone() {
    let config = configuration(Some("--color"), vec![descriptor("verbose", Some("-v"))]);
    let found = supplied(&[("verbose", None), ("version", None)]);
    assert_eq!(plan(&config, &found, false), Plan::ShowVersion);
    assert_eq!(plan(&config, &found, true), Plan::ShowVersion);
    assert_eq!(plan(&config, &supplied(&[("version", None)]), true), Plan::ShowVersion);
}

#[test]
fn plan_without_version_launches() {
    let config = configuration(Some("--color"), vec![descriptor("verbose", Some("-v"))]);
    let found = supplied(&[("verbose", None)]);
    assert_eq!(
        plan(&config, &found, true),
        Plan::Launch {
            executable: String::from("tool"),
            arguments: vec![String::from("--color"), String::from("-v")],
        }
    );
    assert_eq!(
        plan(&config, &MatchResult::new(), false),
        Plan::Launch { executable: String::from("tool"), arguments: vec![] }
    );
}

#[test]
fn match_result_answers_by_key() {
    let found = supplied(&[("verbose", None), ("output", Some("a.txt"))]);
    assert!(found.is_present("verbose"));
    assert!(found.is_present("output"));
    assert!(!found.is_present("quiet"));
    assert_eq!(found.value_of("verbose"), None);
    assert_eq!(found.value_of("output"), Some(&String::from("a.txt")));
    assert_eq!(found.value_of("quiet"), None);
    assert!(!MatchResult::new().is_present("verbose"));
}

#[test]
fn later_record_replaces_earlier() {
    let found = supplied(&[("output", Some("a.txt")), ("output", Some("b.txt"))]);
    assert_eq!(found.value_of("output"), Some(&String::from("b.txt")));
    let found = supplied(&[("output", Some("a.txt")), ("output", None)]);
    assert!(found.is_present("output"));
    assert_eq!(found.value_of("output"), None);
}
