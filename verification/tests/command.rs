use tortuga::command::{
    is_tortuga_source, validate, Arguments, Commands, Input, Level, Source, Validation, Verbosity,
};
use tortuga::errors::syntactical::SyntacticalError;

fn verbosity(verbose: usize, debug: bool, trace: bool) -> Verbosity {
    Verbosity {
        verbose,
        debug,
        trace,
    }
}

#[test]
fn each_flag_lowers_the_threshold_of_the_log() {
    assert_eq!(verbosity(0, false, false).level(), Level::Error);
    assert_eq!(verbosity(1, false, false).level(), Level::Warn);
    assert_eq!(verbosity(2, false, false).level(), Level::Info);
    assert_eq!(verbosity(3, false, false).level(), Level::Debug);
    assert_eq!(verbosity(4, false, false).level(), Level::Trace);
    assert_eq!(verbosity(usize::MAX, false, false).level(), Level::Trace);
}

#[test]
fn the_named_flags_win_over_the_count() {
    assert_eq!(verbosity(0, true, false).level(), Level::Debug);
    assert_eq!(verbosity(4, true, false).level(), Level::Debug);
    assert_eq!(verbosity(0, false, true).level(), Level::Trace);
    assert_eq!(verbosity(1, true, true).level(), Level::Trace);
}

#[test]
fn the_input_is_the_expression_or_the_file_or_the_standard_input() {
    let inline = Input {
        path: Some("program.ta".to_string()),
        expression: "1 + 1".to_string(),
    };
    let file = Input {
        path: Some("program.ta".to_string()),
        expression: String::new(),
    };
    let standard = Input {
        path: None,
        expression: String::new(),
    };

    assert!(matches!(inline.source(), Source::Inline(text) if text == "1 + 1"));
    assert!(matches!(file.source(), Source::File(path) if path == "program.ta"));
    assert!(matches!(standard.source(), Source::StandardInput));
}

#[test]
fn without_a_command_the_prompt_is_shown() {
    let nothing = Arguments {
        command: None,
        verbosity: verbosity(0, false, false),
    };
    let run = Arguments {
        command: Some(Commands::Run(tortuga::command::RunCommand {
            input: Input {
                path: None,
                expression: "1".to_string(),
            },
        })),
        verbosity: verbosity(0, false, false),
    };

    assert!(matches!(nothing.command(), Commands::Prompt(_)));
    assert!(matches!(run.command(), Commands::Run(_)));
    assert!(matches!(Commands::default(), Commands::Prompt(_)));
}

#[test]
fn the_prompt_waits_for_the_rest_of_an_incomplete_line() {
    assert_eq!(validate(""), Validation::Valid);
    assert_eq!(validate("  \n\t"), Validation::Valid);
    assert_eq!(validate("; nothing to evaluate"), Validation::Valid);
    assert_eq!(validate("1 + 2"), Validation::Valid);
    assert_eq!(validate("@f(@n) = n"), Validation::Valid);
    assert_eq!(validate("1 +"), Validation::Incomplete);
    assert_eq!(validate("(1 + 2"), Validation::Incomplete);
    assert_eq!(validate("@f(@n) ="), Validation::Incomplete);
    assert_eq!(validate("@x = [ 1"), Validation::Incomplete);
    assert_eq!(validate("1 + )"), Validation::Invalid(SyntacticalError::NoMatch));
    assert_eq!(validate("\u{0E01EF}"), Validation::Invalid(SyntacticalError::NoMatch));
}

#[test]
fn source_files_end_in_ta() {
    assert!(is_tortuga_source("program.ta"));
    assert!(is_tortuga_source(".ta"));
    assert!(is_tortuga_source("\u{3C0}.ta"));
    assert!(!is_tortuga_source("program.wasm"));
    assert!(!is_tortuga_source("program.ta.bak"));
    assert!(!is_tortuga_source("ta"));
    assert!(!is_tortuga_source(""));
    assert!(!is_tortuga_source("program.tA"));
}
