use whacky::parse::{parse_args, ExitIntent};
use whacky::text::parse_i32;

fn parse(tokens: &[&str]) -> ExitIntent {
    let args: Vec<String> = tokens.iter().map(|t| t.to_string()).collect();
    parse_args(&args)
}

#[test]
fn empty_input_is_usage_error() {
    assert!(matches!(parse(&[]), ExitIntent::UsageError));
}

#[test]
fn help_flag_takes_help_path() {
    assert!(matches!(parse(&["--help"]), ExitIntent::Help));
    assert!(matches!(parse(&["-h"]), ExitIntent::Help));
    assert!(matches!(parse(&["--help", "anything", "else"]), ExitIntent::Help));
}

#[test]
fn version_flag_takes_version_path() {
    assert!(matches!(parse(&["--version"]), ExitIntent::Version));
    assert!(matches!(parse(&["-v"]), ExitIntent::Version));
}

#[test]
fn unknown_first_token_is_usage_error() {
    assert!(matches!(parse(&["-x"]), ExitIntent::UsageError));
    assert!(matches!(parse(&["run", "-c", "50"]), ExitIntent::UsageError));
}

#[test]
fn chance_without_command_proceeds_with_none() {
    match parse(&["--chance", "50"]) {
        ExitIntent::Proceed(o) => {
            assert_eq!(o.chance, 50);
            assert!(o.command.is_none());
        }
        _ => panic!("expected Proceed"),
    }
}

#[test]
fn chance_missing_value_is_usage_error() {
    assert!(matches!(parse(&["--chance"]), ExitIntent::UsageError));
    assert!(matches!(parse(&["-c"]), ExitIntent::UsageError));
}

#[test]
fn non_numeric_chance_is_usage_error() {
    assert!(matches!(parse(&["--chance", "abc"]), ExitIntent::UsageError));
}

#[test]
fn chance_with_separator_and_command() {
    match parse(&["--chance", "100", "--", "true"]) {
        ExitIntent::Proceed(o) => {
            assert_eq!(o.chance, 100);
            let cmd = o.command.expect("expected a command");
            assert_eq!(cmd.program_name, "true");
            assert!(cmd.command_args.is_empty());
        }
        _ => panic!("expected Proceed"),
    }
}

#[test]
fn chance_with_command_without_separator() {
    match parse(&["-c", "10", "echo", "hi", "there"]) {
        ExitIntent::Proceed(o) => {
            assert_eq!(o.chance, 10);
            let cmd = o.command.expect("expected a command");
            assert_eq!(cmd.program_name, "echo");
            assert_eq!(cmd.command_args, vec!["hi".to_string(), "there".to_string()]);
        }
        _ => panic!("expected Proceed"),
    }
}

#[test]
fn only_one_leading_separator_is_consumed() {
    match parse(&["-c", "30", "--", "--", "ls", "-l"]) {
        ExitIntent::Proceed(o) => {
            assert_eq!(o.chance, 30);
            let cmd = o.command.expect("expected a command");
            assert_eq!(cmd.program_name, "--");
            assert_eq!(cmd.command_args, vec!["ls".to_string(), "-l".to_string()]);
        }
        _ => panic!("expected Proceed"),
    }
}

#[test]
fn separator_alone_means_no_command() {
    match parse(&["-c", "70", "--"]) {
        ExitIntent::Proceed(o) => {
            assert_eq!(o.chance, 70);
            assert!(o.command.is_none());
        }
        _ => panic!("expected Proceed"),
    }
}

#[test]
fn negative_and_oversized_chances_parse_unclamped() {
    match parse(&["-c", "-5"]) {
        ExitIntent::Proceed(o) => assert_eq!(o.chance, -5),
        _ => panic!("expected Proceed"),
    }
    match parse(&["-c", "250"]) {
        ExitIntent::Proceed(o) => assert_eq!(o.chance, 250),
        _ => panic!("expected Proceed"),
    }
}

#[test]
fn reparsing_the_same_tokens_yields_the_same_intent() {
    let tokens = ["-c", "42", "--", "echo", "hello"];
    for _ in 0..3 {
        match (parse(&tokens), parse(&tokens)) {
            (ExitIntent::Proceed(a), ExitIntent::Proceed(b)) => {
                assert_eq!(a.chance, b.chance);
                let ca = a.command.expect("expected a command");
                let cb = b.command.expect("expected a command");
                assert_eq!(ca.program_name, cb.program_name);
                assert_eq!(ca.command_args, cb.command_args);
            }
            _ => panic!("expected Proceed from both parses"),
        }
    }
}

#[test]
fn integer_grammar_accepts_signs_and_limits() {
    assert_eq!(parse_i32("50"), Some(50));
    assert_eq!(parse_i32("+7"), Some(7));
    assert_eq!(parse_i32("-7"), Some(-7));
    assert_eq!(parse_i32("0"), Some(0));
    assert_eq!(parse_i32("2147483647"), Some(2147483647));
    assert_eq!(parse_i32("-2147483648"), Some(-2147483648));
}

#[test]
fn integer_grammar_rejects_malformed_and_oversized() {
    assert_eq!(parse_i32(""), None);
    assert_eq!(parse_i32("-"), None);
    assert_eq!(parse_i32("+"), None);
    assert_eq!(parse_i32("abc"), None);
    assert_eq!(parse_i32("1x"), None);
    assert_eq!(parse_i32(" 1"), None);
    assert_eq!(parse_i32("1 "), None);
    assert_eq!(parse_i32("2147483648"), None);
    assert_eq!(parse_i32("-2147483649"), None);
    assert_eq!(parse_i32("99999999999999999999"), None);
}
