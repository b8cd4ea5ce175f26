use shell_core::tokenize::{ArgvTokenizer, Token};

#[test]
fn tokenize_basic() {
    assert_eq!(
        ArgvTokenizer::tokenize("ls -la").unwrap(),
        vec![
            Token::Word(String::from("ls")),
            Token::Word(String::from("-la")),
        ]
    );
}

#[test]
fn tokenize_single_quotes() {
    assert_eq!(
        ArgvTokenizer::tokenize("echo 'hello world'").unwrap(),
        vec![
            Token::Word(String::from("echo")),
            Token::Word(String::from("hello world"))
        ]
    )
}

#[test]
fn redirects() {
    assert_eq!(
        ArgvTokenizer::tokenize("cat < infile > outfile").unwrap(),
        vec![
            Token::Word(String::from("cat")),
            Token::RedirectIn,
            Token::Word(String::from("infile")),
            Token::RedirectOut,
            Token::Word(String::from("outfile")),
        ]
    );
}

#[test]
fn redirect_stderr() {
    assert_eq!(
        ArgvTokenizer::tokenize("2> err.txt ls").unwrap(),
        vec![
            Token::RedirectErr,
            Token::Word(String::from("err.txt")),
            Token::Word(String::from("ls"))
        ]
    )
}

#[test]
fn redirect_stdoutappend() {
    assert_eq!(
        ArgvTokenizer::tokenize("ls >> out.txt").unwrap(),
        vec![
            Token::Word(String::from("ls")),
            Token::RedirectOutAppend,
            Token::Word(String::from("out.txt")),
        ]
    );
}

#[test]
fn fd_prefix_terminates_word() {
    // A `2` immediately followed by `>` is a descriptor prefix even on the
    // heel of a word: the pending word is flushed first.
    assert_eq!(
        ArgvTokenizer::tokenize("a2>b").unwrap(),
        vec![
            Token::Word(String::from("a")),
            Token::RedirectErr,
            Token::Word(String::from("b")),
        ]
    );
}

#[test]
fn fd_prefix_one_is_stdout() {
    assert_eq!(
        ArgvTokenizer::tokenize("1> out 1>> more").unwrap(),
        vec![
            Token::RedirectOut,
            Token::Word(String::from("out")),
            Token::RedirectOutAppend,
            Token::Word(String::from("more")),
        ]
    );
}

#[test]
fn digits_without_operator_are_word_characters() {
    assert_eq!(
        ArgvTokenizer::tokenize("12x").unwrap(),
        vec![Token::Word(String::from("12x"))]
    );
}

#[test]
fn stderr_append_form() {
    assert_eq!(
        ArgvTokenizer::tokenize("2>> err").unwrap(),
        vec![Token::RedirectErrAppend, Token::Word(String::from("err"))]
    );
}

#[test]
fn double_quote_escapes_dollar_and_backtick() {
    assert_eq!(
        ArgvTokenizer::tokenize(r#"echo "\$a \` \\ \" \z""#).unwrap(),
        vec![
            Token::Word(String::from("echo")),
            Token::Word(String::from(r#"$a ` \ " \z"#)),
        ]
    );
}

#[test]
fn single_quotes_suppress_operators() {
    assert_eq!(
        ArgvTokenizer::tokenize("echo '2> x'").unwrap(),
        vec![
            Token::Word(String::from("echo")),
            Token::Word(String::from("2> x")),
        ]
    );
}

#[test]
fn backslash_escapes_operator_outside_quotes() {
    assert_eq!(
        ArgvTokenizer::tokenize(r#"echo \> x"#).unwrap(),
        vec![
            Token::Word(String::from("echo")),
            Token::Word(String::from(">")),
            Token::Word(String::from("x")),
        ]
    );
}

#[test]
fn tokenize_unmatched_double_quote() {
    assert_eq!(
        ArgvTokenizer::tokenize(r#"echo "abc"#).unwrap_err(),
        "unmatched quote"
    );
}
