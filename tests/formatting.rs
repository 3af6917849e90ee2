use vidio::cli::{Cli, Commands};
use vidio::report::{enforce_openai_opt_in, ensure_table_headers};
use vidio::transcript::{format_timestamp, format_transcript_line, parse_languages};

#[test]
fn timestamps() {
    assert_eq!(format_timestamp(0), "00:00.000");
    assert_eq!(format_timestamp(65_432), "01:05.432");
    assert_eq!(format_timestamp(3_723_004), "01:02:03.004");
    assert_eq!(format_timestamp(360_000_000), "100:00:00.000");
}

#[test]
fn transcript_lines() {
    assert_eq!(
        format_transcript_line(1_500, 4_250, "  hello world \n"),
        "[00:01.500 - 00:04.250] hello world"
    );
}

#[test]
fn language_lists() {
    assert_eq!(parse_languages("en,es"), vec!["en".to_string(), "es".to_string()]);
    assert_eq!(parse_languages(" en , pt-BR ,"), vec!["en".to_string(), "pt-BR".to_string(), String::new()]);
    assert_eq!(parse_languages(""), vec![String::new()]);
}

#[test]
fn opt_in_gate() {
    assert!(enforce_openai_opt_in(Some(" TRUE ")).is_ok());
    assert!(enforce_openai_opt_in(Some("1")).is_ok());
    assert!(enforce_openai_opt_in(Some("Yes")).is_ok());
    assert!(enforce_openai_opt_in(Some("no")).is_err());
    let e = enforce_openai_opt_in(None).unwrap_err();
    assert!(e.message().contains("YTRANSCRIPT_ALLOW_OPENAI"));
}

#[test]
fn missing_table_headers_are_inserted() {
    let report = "#### 1. Metadata\n\n| Duración | 3 min |\ntext";
    assert_eq!(
        ensure_table_headers(report),
        "#### 1. Metadata\n\n| Campo | Valor |\n|-------|-------|\n| Duración | 3 min |\ntext"
    );
    let ok = "#### 1. Metadata\n| CAMPO | VALOR |\n|---|---|";
    assert_eq!(ensure_table_headers(ok), ok);
    let q = "intro\r\n  #### 5. Preguntas\n";
    assert_eq!(
        ensure_table_headers(q),
        "intro\n  #### 5. Preguntas\n| Pregunta | Timestamp |\n|----------|-----------|"
    );
    assert_eq!(ensure_table_headers("plain"), "plain");
}

#[test]
fn cli_mode_selection() {
    assert!(Cli { command: None, cli: false }.wants_tui());
    assert!(Cli { command: Some(Commands::Tui), cli: false }.wants_tui());
    assert!(!Cli { command: None, cli: true }.wants_tui());
    assert!(!Cli { command: Some(Commands::List), cli: false }.wants_tui());
}

#[test]
fn bare_carriage_return_on_last_line_is_kept() {
    assert_eq!(ensure_table_headers("a\r"), "a\r");
    assert_eq!(ensure_table_headers("a\r\nb\r\n"), "a\nb");
    assert_eq!(ensure_table_headers(""), "");
}
