use chmodrt::opts::{create, parse, validate};

fn args(words: &[&str]) -> Vec<String> {
    words.iter().map(|word| word.to_string()).collect()
}

const HELP: &str = "Try '--help' for more information.";

#[test]
fn flags_and_free_arguments_are_told_apart() {
    let options = create();
    let matches = parse(&args(&["chmodrt", "-d", "755", "a", "--verbose", "b"]), &options).unwrap();
    assert!(matches.opt_present("d"));
    assert!(matches.opt_present("dir"));
    assert!(matches.opt_present("v"));
    assert!(!matches.opt_present("f"));
    assert!(!matches.opt_present("V"));
    assert_eq!(matches.free, args(&["755", "a", "b"]));
    assert_eq!(validate(&matches), Ok(()));
}

#[test]
fn every_flag_is_defined() {
    let options = create();
    let matches = parse(&args(&["chmodrt"]), &options).unwrap();
    for name in [
        "d", "dir", "D", "dry-run", "f", "file", "h", "help", "i", "interactive", "s", "suppress",
        "v", "verbose", "V", "version",
    ] {
        assert!(matches.opt_defined(name), "{}", name);
        assert!(!matches.opt_present(name), "{}", name);
    }
}

#[test]
fn the_first_argument_is_passed_over() {
    let options = create();
    let matches = parse(&args(&["-x", "-f", "644", "a"]), &options).unwrap();
    assert!(matches.opt_present("f"));
    assert_eq!(matches.free, args(&["644", "a"]));
}

#[test]
fn no_argument_at_all_is_no_failure() {
    let options = create();
    let matches = parse(&args(&[]), &options).unwrap();
    assert!(matches.free.is_empty());
}

#[test]
fn an_unknown_option_is_reported_in_lowercase() {
    let options = create();
    let error = parse(&args(&["chmodrt", "-X", "755", "a"]), &options).unwrap_err();
    assert_eq!(error, format!("unrecognized option: 'x'\n{}", HELP));
}

#[test]
fn a_flag_given_twice_is_reported() {
    let options = create();
    let error = parse(&args(&["chmodrt", "-d", "--dir", "755", "a"]), &options).unwrap_err();
    assert_eq!(error, format!("option 'dir' given more than once\n{}", HELP));
}

#[test]
fn a_flag_takes_no_argument() {
    let options = create();
    let error = parse(&args(&["chmodrt", "--file=644", "a"]), &options).unwrap_err();
    assert_eq!(error, format!("option 'file' does not take an argument\n{}", HELP));
}

#[test]
fn interactive_and_suppress_conflict() {
    let options = create();
    let matches = parse(&args(&["chmodrt", "-i", "-s", "-d", "755", "a"]), &options).unwrap();
    assert_eq!(
        validate(&matches),
        Err(format!("conflicting options: 'interactive', 'suppress'\n{}", HELP))
    );
}

#[test]
fn a_type_is_needed() {
    let options = create();
    let matches = parse(&args(&["chmodrt", "755", "a"]), &options).unwrap();
    assert_eq!(validate(&matches), Err(format!("missing type option: 'dir', 'file'\n{}", HELP)));
}

#[test]
fn files_and_directories_may_both_be_asked_for() {
    let options = create();
    let matches = parse(&args(&["chmodrt", "-d", "-f", "755", "a"]), &options).unwrap();
    assert_eq!(validate(&matches), Ok(()));
}

#[test]
fn a_mode_and_a_path_are_needed() {
    let options = create();
    let matches = parse(&args(&["chmodrt", "-f", "644"]), &options).unwrap();
    assert_eq!(
        validate(&matches),
        Err(format!("a mode and at least one path must be provided\n{}", HELP))
    );
    let matches = parse(&args(&["chmodrt", "-f"]), &options).unwrap();
    assert_eq!(
        validate(&matches),
        Err(format!("a mode and at least one path must be provided\n{}", HELP))
    );
}

#[test]
fn the_mode_must_be_numeric() {
    let options = create();
    let matches = parse(&args(&["chmodrt", "-f", "u+x", "a"]), &options).unwrap();
    assert_eq!(
        validate(&matches),
        Err(format!("mode must be an octal between one and four digits\n{}", HELP))
    );
    let matches = parse(&args(&["chmodrt", "-f", "77777", "a"]), &options).unwrap();
    assert_eq!(
        validate(&matches),
        Err(format!("mode must be an octal between one and four digits\n{}", HELP))
    );
}

#[test]
fn the_conflict_is_found_before_the_missing_type() {
    let options = create();
    let matches = parse(&args(&["chmodrt", "-i", "-s"]), &options).unwrap();
    assert_eq!(
        validate(&matches),
        Err(format!("conflicting options: 'interactive', 'suppress'\n{}", HELP))
    );
}

#[test]
fn what_follows_two_dashes_is_free() {
    let options = create();
    let matches = parse(&args(&["chmodrt", "-f", "644", "--", "-d"]), &options).unwrap();
    assert!(!matches.opt_present("d"));
    assert_eq!(matches.free, args(&["644", "-d"]));
    assert_eq!(validate(&matches), Ok(()));
}
