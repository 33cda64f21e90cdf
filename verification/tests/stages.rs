use pipeline_shell::lex::tokenize;
use pipeline_shell::stage::{classify, is_builtin, parse_pipeline, Stage};
use pipeline_shell::text::chars_of;

fn external(program: &str, arguments: &[&str]) -> Stage {
    Stage::External {
        program: program.to_string(),
        arguments: arguments.iter().map(|a| a.to_string()).collect(),
    }
}

#[test]
fn builtin_is_exactly_cd() {
    assert!(is_builtin(&chars_of("cd")));
    assert!(!is_builtin(&chars_of("cdd")));
    assert!(!is_builtin(&chars_of("c")));
    assert!(!is_builtin(&chars_of("CD")));
    assert!(!is_builtin(&chars_of("")));
    assert!(!is_builtin(&chars_of("dc")));
}

#[test]
fn classify_reads_the_first_word() {
    assert_eq!(classify(&tokenize(&chars_of(""))), Stage::Empty);
    assert_eq!(classify(&tokenize(&chars_of("ls -l /tmp"))), external("ls", &["-l", "/tmp"]));
    assert_eq!(classify(&tokenize(&chars_of("true"))), external("true", &[]));
    assert_eq!(
        classify(&tokenize(&chars_of("cd /tmp"))),
        Stage::ChangeDirectory { target: Some("/tmp".to_string()) }
    );
    assert_eq!(classify(&tokenize(&chars_of("cd"))), Stage::ChangeDirectory { target: None });
}

#[test]
fn cd_ignores_further_arguments() {
    assert_eq!(
        classify(&tokenize(&chars_of("cd a b c"))),
        Stage::ChangeDirectory { target: Some("a".to_string()) }
    );
}

#[test]
fn a_line_without_pipe_is_one_stage() {
    assert_eq!(parse_pipeline("ls -l"), vec![external("ls", &["-l"])]);
    assert_eq!(parse_pipeline("cd"), vec![Stage::ChangeDirectory { target: None }]);
    assert_eq!(parse_pipeline(""), vec![Stage::Empty]);
    assert_eq!(parse_pipeline("   "), vec![Stage::Empty]);
}

#[test]
fn stages_keep_the_order_of_the_line() {
    assert_eq!(
        parse_pipeline("cmdA | cmdB x | cmdC"),
        vec![external("cmdA", &[]), external("cmdB", &["x"]), external("cmdC", &[])]
    );
    assert_eq!(
        parse_pipeline("ls|cd /tmp"),
        vec![external("ls", &[]), Stage::ChangeDirectory { target: Some("/tmp".to_string()) }]
    );
}

#[test]
fn blank_segments_are_empty_stages() {
    assert_eq!(parse_pipeline("| ls"), vec![Stage::Empty, external("ls", &[])]);
    assert_eq!(parse_pipeline("ls |"), vec![external("ls", &[]), Stage::Empty]);
    assert_eq!(
        parse_pipeline("ls || ls"),
        vec![external("ls", &[]), Stage::Empty, external("ls", &[])]
    );
    assert_eq!(parse_pipeline("|"), vec![Stage::Empty, Stage::Empty]);
}

#[test]
fn stage_names_are_first_words() {
    assert_eq!(external("grep", &["-v"]).name(), "grep");
    assert_eq!(Stage::ChangeDirectory { target: None }.name(), "cd");
    assert_eq!(Stage::Empty.name(), "Unknown command");
}
