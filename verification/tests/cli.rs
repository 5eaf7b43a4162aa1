use runner_config::{CliConfig, ConfigError};

fn tokens(items: &[&str]) -> Vec<String> {
    items.iter().map(|item| item.to_string()).collect()
}

fn parse(items: &[&str]) -> CliConfig {
    match CliConfig::from_os(tokens(items)) {
        Ok(flags) => flags,
        Err(error) => panic!("{}", error.to_text()),
    }
}

fn failure(items: &[&str]) -> String {
    match CliConfig::from_os(tokens(items)) {
        Ok(_) => panic!("the tokens were accepted"),
        Err(error) => error.to_text(),
    }
}

const HEADING: &str = "error during config parsing: ";

#[test]
fn config_error_shows_its_message_after_the_heading() {
    let error = ConfigError::new("something".to_string());
    assert_eq!(error.to_text(), "error during config parsing: something");
}

#[test]
fn config_error_hands_its_message_back() {
    let error = ConfigError::new("something".to_string());
    assert_eq!(error.message(), "something");
}

#[test]
fn config_error_with_empty_message() {
    assert_eq!(ConfigError::new(String::new()).to_text(), "error during config parsing: ");
}

#[test]
fn flag_names_are_spelled_as_documented() {
    assert_eq!(CliConfig::CMD_USER_RUST_TESTS, "--rust-test");
    assert_eq!(CliConfig::CMD_USER_RUST_BENCHMARKS, "--rust-bench");
    assert_eq!(CliConfig::CMD_USER_DISALLOW_FOCUS, "--disallow-focus");
    assert_eq!(CliConfig::CMD_USER_ALLOW_FOCUS, "--allow-focus");
    assert_eq!(CliConfig::CMD_USER_DISALLOW_SKIP, "--disallow-skip");
    assert_eq!(CliConfig::CMD_USER_ALLOW_SKIP, "--allow-skip");
    assert_eq!(CliConfig::CMD_USER_MUTE_KEYWORD, "--mute-keyword");
    assert_eq!(CliConfig::CMD_USER_IGNORE_KEYWORDS, "--ignore-keywords");
    assert_eq!(CliConfig::CMD_USER_MUTE_FILTERS, "--mute-filters");
    assert_eq!(CliConfig::CMD_USER_KEYWORD, "--keyword");
    assert_eq!(CliConfig::CMD_USER_FILTERS, "--filters");
}

#[test]
fn get_arg_takes_the_first_occurrence_off_the_list() {
    let mut args = tokens(&["a", "--rust-test", "b", "--rust-test"]);
    assert!(CliConfig::get_arg(&mut args, "--rust-test"));
    assert_eq!(args, tokens(&["a", "b", "--rust-test"]));
}

#[test]
fn get_arg_leaves_the_list_alone_when_the_flag_is_missing() {
    let mut args = tokens(&["a", "--rust-tests", "--rust-tes"]);
    assert!(!CliConfig::get_arg(&mut args, "--rust-test"));
    assert_eq!(args, tokens(&["a", "--rust-tests", "--rust-tes"]));
}

#[test]
fn get_arg_on_an_empty_list() {
    let mut args = Vec::new();
    assert!(!CliConfig::get_arg(&mut args, "--rust-test"));
    assert!(args.is_empty());
}

#[test]
fn get_arg_is_case_sensitive() {
    let mut args = tokens(&["--Rust-Test"]);
    assert!(!CliConfig::get_arg(&mut args, "--rust-test"));
    assert_eq!(args, tokens(&["--Rust-Test"]));
}

#[test]
fn get_arg_with_value_splits_the_value_at_commas() {
    let mut args = tokens(&["x", "--filters=a,b,c", "y"]);
    let values = CliConfig::get_arg_with_value(&mut args, "--filters");
    assert_eq!(values, tokens(&["a", "b", "c"]));
    assert_eq!(args, tokens(&["x", "y"]));
}

#[test]
fn get_arg_with_value_takes_only_the_first_token() {
    let mut args = tokens(&["--keyword=one", "--keyword=two"]);
    let values = CliConfig::get_arg_with_value(&mut args, "--keyword");
    assert_eq!(values, tokens(&["one"]));
    assert_eq!(args, tokens(&["--keyword=two"]));
}

#[test]
fn get_arg_with_value_of_an_empty_value_is_one_empty_string() {
    let mut args = tokens(&["--filters="]);
    let values = CliConfig::get_arg_with_value(&mut args, "--filters");
    assert_eq!(values, tokens(&[""]));
    assert!(args.is_empty());
}

#[test]
fn get_arg_with_value_keeps_what_follows_the_first_equals_sign() {
    let mut args = tokens(&["--keyword=a=b"]);
    let values = CliConfig::get_arg_with_value(&mut args, "--keyword");
    assert_eq!(values, tokens(&["a=b"]));
    assert!(args.is_empty());
}

#[test]
fn get_arg_with_value_wants_the_equals_sign() {
    let mut args = tokens(&["--keyword", "--keywords=a", "--keywor=a"]);
    let values = CliConfig::get_arg_with_value(&mut args, "--keyword");
    assert!(values.is_empty());
    assert_eq!(args, tokens(&["--keyword", "--keywords=a", "--keywor=a"]));
}

#[test]
fn check_mutually_exclusive_args_fails_only_when_both_are_set() {
    assert!(CliConfig::check_mutually_exclusive_args(false, false, "--a", "--b").is_ok());
    assert!(CliConfig::check_mutually_exclusive_args(true, false, "--a", "--b").is_ok());
    assert!(CliConfig::check_mutually_exclusive_args(false, true, "--a", "--b").is_ok());
    assert!(CliConfig::check_mutually_exclusive_args(true, true, "--a", "--b").is_err());
}

#[test]
fn check_mutually_exclusive_args_names_both_arguments() {
    let error = CliConfig::check_mutually_exclusive_args(true, true, "--a", "--b")
        .err()
        .unwrap();
    assert_eq!(
        error.to_text(),
        "error during config parsing: command line arguments --a and --b are mutually exclusive"
    );
}

#[test]
fn check_unrecognized_args_accepts_an_empty_list() {
    assert!(CliConfig::check_unrecognized_args(&Vec::new()).is_ok());
}

#[test]
fn check_unrecognized_args_lists_every_token() {
    let error = CliConfig::check_unrecognized_args(&tokens(&["--foo", "bar"]))
        .err()
        .unwrap();
    assert_eq!(
        error.to_text(),
        "error during config parsing: unrecognized args provided: [\n    \"--foo\",\n    \"bar\",\n]"
    );
}

#[test]
fn check_unrecognized_args_lays_plain_tokens_out_as_a_debug_listing() {
    let rest = tokens(&["--foo", "--bar=1", "baz"]);
    let error = CliConfig::check_unrecognized_args(&rest).err().unwrap();
    assert_eq!(
        error.to_text(),
        format!("{}unrecognized args provided: {:#?}", HEADING, rest)
    );
}

#[test]
fn check_unrecognized_args_writes_tokens_as_given() {
    let error = CliConfig::check_unrecognized_args(&tokens(&["a\"b"]))
        .err()
        .unwrap();
    assert_eq!(
        error.to_text(),
        "error during config parsing: unrecognized args provided: [\n    \"a\"b\",\n]"
    );
}

#[test]
fn the_default_record_sets_nothing() {
    let flags = CliConfig::default();
    assert!(!flags.disallow_focus());
    assert!(!flags.allow_focus());
    assert!(!flags.disallow_skip());
    assert!(!flags.allow_skip());
    assert!(!flags.mute_keyword());
    assert!(!flags.ignore_keywords());
    assert!(!flags.mute_filters());
    assert!(!flags.run_rust_tests());
    assert!(!flags.run_rust_benchmarks());
    assert_eq!(flags.keyword(), "");
    assert!(flags.filters().is_empty());
}

#[test]
fn no_tokens_set_no_flags() {
    let flags = parse(&[]);
    assert!(!flags.disallow_focus());
    assert!(!flags.allow_focus());
    assert!(!flags.disallow_skip());
    assert!(!flags.allow_skip());
    assert!(!flags.mute_keyword());
    assert!(!flags.ignore_keywords());
    assert!(!flags.mute_filters());
    assert!(!flags.run_rust_tests());
    assert!(!flags.run_rust_benchmarks());
    assert_eq!(flags.keyword(), "");
    assert!(flags.filters().is_empty());
}

#[test]
fn every_bare_flag_sets_its_field() {
    assert!(parse(&["--rust-test"]).run_rust_tests());
    assert!(parse(&["--rust-bench"]).run_rust_benchmarks());
    assert!(parse(&["--disallow-focus"]).disallow_focus());
    assert!(parse(&["--allow-focus"]).allow_focus());
    assert!(parse(&["--disallow-skip"]).disallow_skip());
    assert!(parse(&["--allow-skip"]).allow_skip());
    assert!(parse(&["--mute-keyword"]).mute_keyword());
    assert!(parse(&["--ignore-keywords"]).ignore_keywords());
    assert!(parse(&["--mute-filters"]).mute_filters());
}

#[test]
fn a_bare_flag_sets_no_other_field() {
    let flags = parse(&["--rust-test"]);
    assert!(flags.run_rust_tests());
    assert!(!flags.run_rust_benchmarks());
    assert!(!flags.disallow_focus());
    assert!(!flags.allow_focus());
    assert!(!flags.disallow_skip());
    assert!(!flags.allow_skip());
    assert!(!flags.mute_keyword());
    assert!(!flags.ignore_keywords());
    assert!(!flags.mute_filters());
    assert_eq!(flags.keyword(), "");
    assert!(flags.filters().is_empty());
}

#[test]
fn all_flags_that_go_together_in_any_order() {
    let flags = parse(&[
        "--filters=x,y",
        "--ignore-keywords",
        "--keyword=net",
        "--allow-skip",
        "--disallow-focus",
        "--rust-bench",
        "--rust-test",
    ]);
    assert!(flags.run_rust_tests());
    assert!(flags.run_rust_benchmarks());
    assert!(flags.disallow_focus());
    assert!(!flags.allow_focus());
    assert!(!flags.disallow_skip());
    assert!(flags.allow_skip());
    assert!(!flags.mute_keyword());
    assert!(flags.ignore_keywords());
    assert!(!flags.mute_filters());
    assert_eq!(flags.keyword(), "net");
    assert_eq!(flags.filters(), &tokens(&["x", "y"]));
}

#[test]
fn filters_keep_their_order() {
    assert_eq!(parse(&["--filters=a,b,c"]).filters(), &tokens(&["a", "b", "c"]));
}

#[test]
fn a_single_filter_is_a_list_of_one() {
    assert_eq!(parse(&["--filters=x"]).filters(), &tokens(&["x"]));
}

#[test]
fn filters_without_a_value_are_one_empty_filter() {
    assert_eq!(parse(&["--filters="]).filters(), &tokens(&[""]));
}

#[test]
fn keyword_is_the_text_after_the_equals_sign() {
    assert_eq!(parse(&["--keyword=net"]).keyword(), "net");
}

#[test]
fn keyword_ends_at_the_first_comma() {
    assert_eq!(parse(&["--keyword=net,disk"]).keyword(), "net");
}

#[test]
fn keyword_may_hold_an_equals_sign() {
    assert_eq!(parse(&["--keyword=a=b"]).keyword(), "a=b");
}

#[test]
fn keyword_without_a_value_is_unset() {
    assert_eq!(parse(&["--keyword="]).keyword(), "");
}

#[test]
fn allow_and_disallow_focus_are_mutually_exclusive() {
    let expected = "error during config parsing: command line arguments --allow-focus and \
                    --disallow-focus are mutually exclusive";
    assert_eq!(failure(&["--allow-focus", "--disallow-focus"]), expected);
    assert_eq!(failure(&["--disallow-focus", "--allow-focus"]), expected);
    assert_eq!(
        failure(&["--rust-test", "--disallow-focus", "--keyword=x", "--allow-focus", "--foo"]),
        expected
    );
}

#[test]
fn allow_and_disallow_skip_are_mutually_exclusive() {
    let expected = "error during config parsing: command line arguments --allow-skip and \
                    --disallow-skip are mutually exclusive";
    assert_eq!(failure(&["--allow-skip", "--disallow-skip"]), expected);
    assert_eq!(failure(&["--disallow-skip", "--allow-skip"]), expected);
}

#[test]
fn mute_keyword_and_keyword_are_mutually_exclusive() {
    let expected = "error during config parsing: command line arguments --mute-keyword and \
                    --keyword are mutually exclusive";
    assert_eq!(failure(&["--mute-keyword", "--keyword=net"]), expected);
    assert_eq!(failure(&["--keyword=net", "--mute-keyword"]), expected);
}

#[test]
fn mute_keyword_goes_with_a_keyword_without_value() {
    let flags = parse(&["--mute-keyword", "--keyword="]);
    assert!(flags.mute_keyword());
    assert_eq!(flags.keyword(), "");
}

#[test]
fn mute_keyword_goes_with_a_value_that_begins_with_a_comma() {
    let flags = parse(&["--mute-keyword", "--keyword=,a"]);
    assert!(flags.mute_keyword());
    assert_eq!(flags.keyword(), "");
}

#[test]
fn mute_keyword_with_a_second_keyword_token_fails() {
    assert_eq!(
        failure(&["--mute-keyword", "--keyword=", "--keyword=net"]),
        "error during config parsing: unrecognized args provided: [\n    \"--keyword=net\",\n]"
    );
}

#[test]
fn mute_filters_and_filters_are_mutually_exclusive() {
    let expected = "error during config parsing: command line arguments --mute-filters and \
                    --filters are mutually exclusive";
    assert_eq!(failure(&["--mute-filters", "--filters=a"]), expected);
    assert_eq!(failure(&["--filters=a,b", "--mute-filters"]), expected);
}

#[test]
fn mute_filters_and_filters_without_value_are_mutually_exclusive() {
    assert_eq!(
        failure(&["--mute-filters", "--filters="]),
        "error during config parsing: command line arguments --mute-filters and --filters are \
         mutually exclusive"
    );
}

#[test]
fn rules_are_held_against_the_tokens_in_order() {
    let everything = [
        "--allow-focus",
        "--disallow-focus",
        "--allow-skip",
        "--disallow-skip",
        "--mute-keyword",
        "--keyword=k",
        "--mute-filters",
        "--filters=f",
        "--foo",
    ];
    assert!(failure(&everything).contains("--allow-focus and --disallow-focus"));
    assert!(failure(&everything[2..]).contains("--allow-skip and --disallow-skip"));
    assert!(failure(&everything[4..]).contains("--mute-keyword and --keyword"));
    assert!(failure(&everything[6..]).contains("--mute-filters and --filters"));
    assert!(failure(&everything[8..]).contains("unrecognized args provided"));
}

#[test]
fn an_unrecognized_token_fails_and_is_named() {
    let message = failure(&["--foo"]);
    assert!(message.contains("--foo"));
    assert_eq!(
        message,
        "error during config parsing: unrecognized args provided: [\n    \"--foo\",\n]"
    );
}

#[test]
fn an_unrecognized_token_among_recognised_ones_fails() {
    let message = failure(&["--rust-test", "--foo", "--keyword=net", "--filters=a"]);
    assert_eq!(
        message,
        "error during config parsing: unrecognized args provided: [\n    \"--foo\",\n]"
    );
}

#[test]
fn every_leftover_token_is_listed_in_order() {
    assert_eq!(
        failure(&["b", "--rust-test", "a", "--allow-skip", "c"]),
        "error during config parsing: unrecognized args provided: [\n    \"b\",\n    \"a\",\n    \
         \"c\",\n]"
    );
}

#[test]
fn a_flag_given_twice_leaves_its_second_occurrence_over() {
    assert_eq!(
        failure(&["--rust-test", "--rust-test"]),
        "error during config parsing: unrecognized args provided: [\n    \"--rust-test\",\n]"
    );
}

#[test]
fn a_valued_flag_given_twice_leaves_its_second_token_over() {
    assert_eq!(
        failure(&["--filters=a", "--filters=b"]),
        "error during config parsing: unrecognized args provided: [\n    \"--filters=b\",\n]"
    );
}

#[test]
fn a_valued_flag_without_equals_sign_is_not_recognized() {
    assert_eq!(
        failure(&["--keyword"]),
        "error during config parsing: unrecognized args provided: [\n    \"--keyword\",\n]"
    );
    assert!(failure(&["--filters"]).contains("\"--filters\""));
}

#[test]
fn a_longer_name_is_not_recognized() {
    assert!(failure(&["--keywords=net"]).contains("\"--keywords=net\""));
    assert!(failure(&["--rust-tests"]).contains("\"--rust-tests\""));
    assert!(failure(&["--rust-test=1"]).contains("\"--rust-test=1\""));
}

#[test]
fn flags_are_case_sensitive() {
    assert!(failure(&["--Rust-Test"]).contains("\"--Rust-Test\""));
    assert!(failure(&["--KEYWORD=net"]).contains("\"--KEYWORD=net\""));
}

#[test]
fn the_empty_token_is_not_recognized() {
    assert_eq!(
        failure(&[""]),
        "error during config parsing: unrecognized args provided: [\n    \"\",\n]"
    );
}
