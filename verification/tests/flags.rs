use feedline::args::{
    choose_verbosity, keep_input_line, parse_bool, reads_stdin, ColorOption,
};
use feedline::config::Config;
use feedline::print::{required_verbosity, Printer};
use feedline::status::STATUS;
use feedline::verbosity::Verbosity;

#[test]
fn parse_bool_accepts_true_tokens() {
    for token in ["true", "1", "yes", "y", "TRUE", "Yes", "Y", "tRuE"] {
        assert_eq!(parse_bool(token), Ok(true));
    }
}

#[test]
fn parse_bool_accepts_false_tokens() {
    for token in ["false", "0", "no", "n", "FALSE", "No", "N", "fAlSe"] {
        assert_eq!(parse_bool(token), Ok(false));
    }
}

#[test]
fn parse_bool_rejects_other_tokens() {
    assert_eq!(
        parse_bool("maybe"),
        Err("invalid boolean value: maybe".to_string())
    );
    assert_eq!(parse_bool("2"), Err("invalid boolean value: 2".to_string()));
    assert_eq!(parse_bool(""), Err("invalid boolean value: ".to_string()));
    assert_eq!(
        parse_bool(" true"),
        Err("invalid boolean value:  true".to_string())
    );
}

#[test]
fn choose_verbosity_resolution() {
    assert_eq!(choose_verbosity(false, 0), Verbosity::NORMAL);
    assert_eq!(choose_verbosity(false, 1), Verbosity::VERBOSE);
    assert_eq!(choose_verbosity(false, 3), Verbosity::VERBOSE);
    assert_eq!(choose_verbosity(true, 0), Verbosity::QUIET);
    assert_eq!(choose_verbosity(true, 3), Verbosity::QUIET);
}

#[test]
fn reads_stdin_decision() {
    assert!(reads_stdin(true, false));
    assert!(!reads_stdin(true, true));
    assert!(!reads_stdin(false, false));
    assert!(!reads_stdin(false, true));
}

#[test]
fn keep_input_line_discards_blank_lines() {
    assert!(!keep_input_line(""));
    assert!(!keep_input_line("   "));
    assert!(!keep_input_line("\t"));
    assert!(!keep_input_line(" \t "));
    assert!(keep_input_line("a"));
    assert!(keep_input_line(" a.txt "));
    assert!(keep_input_line("dir/file"));
}

#[test]
fn printer_color_choice() {
    assert!(Printer::new(&ColorOption::ALWAYS, Verbosity::NORMAL, false).use_color);
    assert!(Printer::new(&ColorOption::ALWAYS, Verbosity::NORMAL, true).use_color);
    assert!(!Printer::new(&ColorOption::NEVER, Verbosity::NORMAL, true).use_color);
    assert!(!Printer::new(&ColorOption::AUTO, Verbosity::NORMAL, false).use_color);
    assert!(Printer::new(&ColorOption::AUTO, Verbosity::NORMAL, true).use_color);
}

#[test]
fn printer_verbosity_filter() {
    let quiet = Printer::new(&ColorOption::NEVER, Verbosity::QUIET, false);
    let normal = Printer::new(&ColorOption::NEVER, Verbosity::NORMAL, false);
    let verbose = Printer::new(&ColorOption::NEVER, Verbosity::VERBOSE, false);

    assert!(quiet.should_print(&Verbosity::QUIET));
    assert!(!quiet.should_print(&Verbosity::NORMAL));
    assert!(!quiet.should_print(&Verbosity::VERBOSE));

    assert!(normal.should_print(&Verbosity::QUIET));
    assert!(normal.should_print(&Verbosity::NORMAL));
    assert!(!normal.should_print(&Verbosity::VERBOSE));

    assert!(verbose.should_print(&Verbosity::VERBOSE));
}

#[test]
fn required_verbosity_by_status() {
    assert_eq!(required_verbosity(&STATUS::ERROR), Verbosity::QUIET);
    assert_eq!(required_verbosity(&STATUS::SUCCESS), Verbosity::NORMAL);
    assert_eq!(required_verbosity(&STATUS::SKIP), Verbosity::NORMAL);
    assert_eq!(required_verbosity(&STATUS::WARN), Verbosity::VERBOSE);
}

#[test]
fn config_bundles_values() {
    let config = Config::new(
        Verbosity::VERBOSE,
        vec!["a.txt".to_string(), "b.txt".to_string()],
    );
    assert_eq!(config.verbosity, Verbosity::VERBOSE);
    assert_eq!(config.files, vec!["a.txt".to_string(), "b.txt".to_string()]);
}
