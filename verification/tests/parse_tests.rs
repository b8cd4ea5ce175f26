use shell_core::parse::{parse_command, RedirKind};
use shell_core::tokenize::{ArgvTokenizer, Token};

#[test]
fn parse_words_and_redirects() {
    let tokens = ArgvTokenizer::tokenize("cat < infile > outfile extra").unwrap();
    let pc = parse_command(&tokens).unwrap();
    assert_eq!(pc.argv, vec!["cat", "extra"]);
    assert_eq!(pc.redirects.len(), 2);
    assert_eq!(pc.redirects[0].kind, RedirKind::Stdin);
    assert_eq!(pc.redirects[0].target, "infile");
    assert_eq!(pc.redirects[1].kind, RedirKind::StdoutTruncate);
    assert_eq!(pc.redirects[1].target, "outfile");
}

#[test]
fn parse_empty_tokens() {
    let pc = parse_command(&[]).unwrap();
    assert!(pc.argv.is_empty());
    assert!(pc.redirects.is_empty());
}

#[test]
fn parse_redirections_only() {
    let tokens = ArgvTokenizer::tokenize("> out 2> err").unwrap();
    let pc = parse_command(&tokens).unwrap();
    assert!(pc.argv.is_empty());
    assert_eq!(pc.redirects.len(), 2);
    assert_eq!(pc.redirects[0].kind, RedirKind::StdoutTruncate);
    assert_eq!(pc.redirects[1].kind, RedirKind::StderrTruncate);
}

#[test]
fn parse_trailing_operator_fails() {
    let tokens = ArgvTokenizer::tokenize("ls >>").unwrap();
    assert_eq!(
        parse_command(&tokens).unwrap_err(),
        "expected filename after '>>'"
    );
}

#[test]
fn parse_operator_before_operator_fails() {
    let tokens = vec![Token::RedirectOut, Token::RedirectIn];
    assert_eq!(
        parse_command(&tokens).unwrap_err(),
        "expected filename after '>'"
    );
}

#[test]
fn parse_error_names_each_operator() {
    let cases: Vec<(Vec<Token>, &str)> = vec![
        (vec![Token::RedirectOut], "expected filename after '>'"),
        (vec![Token::RedirectOutAppend], "expected filename after '>>'"),
        (vec![Token::RedirectErr], "expected filename after '2>'"),
        (vec![Token::RedirectErrAppend], "expected filename after '2>>'"),
        (vec![Token::RedirectIn], "expected filename after '<'"),
    ];
    for (tokens, message) in cases {
        assert_eq!(parse_command(&tokens).unwrap_err(), message);
    }
}

#[test]
fn parse_interleaved_redirections_keep_order() {
    let tokens = ArgvTokenizer::tokenize("2> e cmd > o arg >> a").unwrap();
    let pc = parse_command(&tokens).unwrap();
    assert_eq!(pc.argv, vec!["cmd", "arg"]);
    let kinds: Vec<RedirKind> = pc.redirects.iter().map(|r| r.kind).collect();
    assert_eq!(
        kinds,
        vec![
            RedirKind::StderrTruncate,
            RedirKind::StdoutTruncate,
            RedirKind::StdoutAppend
        ]
    );
    assert_eq!(pc.redirects[2].target, "a");
}

#[test]
fn pipeline_rerun_is_identical() {
    // Tokenizing and parsing are pure: a second run over the same line
    // yields the identical structure.
    let line = "cat < in > out x 'q w'";
    let first = parse_command(&ArgvTokenizer::tokenize(line).unwrap()).unwrap();
    let second = parse_command(&ArgvTokenizer::tokenize(line).unwrap()).unwrap();
    assert_eq!(first.argv, second.argv);
    assert_eq!(first.redirects.len(), second.redirects.len());
    for (a, b) in first.redirects.iter().zip(second.redirects.iter()) {
        assert_eq!(a.kind, b.kind);
        assert_eq!(a.target, b.target);
    }
}
