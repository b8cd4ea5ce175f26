//! The parser: consumes the token sequence in one forward pass and produces
//! a structured command — an ordered argument vector plus an ordered list of
//! redirections. Every redirection operator must be immediately followed by
//! exactly one `Word` (its target); absence is a parse error naming the
//! operator.

use vstd::prelude::*;

use crate::tokenize::Token;
use crate::tokenize::TokenModel;

verus! {

/// The five redirection kinds, one per operator token.
#[derive(Debug, Clone, Copy, PartialEq, Eq, Structural)]
pub enum RedirKind {
    StdoutTruncate,
    StdoutAppend,
    StderrTruncate,
    StderrAppend,
    Stdin,
}

/// An instruction to replace one stream with a file-backed handle for the
/// duration of one command.
#[derive(Debug)]
pub struct Redirection {
    pub kind: RedirKind,
    pub target: String,
}

/// The mathematical value of a `Redirection`.
pub struct RedirectionModel {
    pub kind: RedirKind,
    pub target: Seq<char>,
}

impl DeepView for Redirection {
    type V = RedirectionModel;

    open spec fn deep_view(&self) -> RedirectionModel {
        RedirectionModel { kind: self.kind, target: self.target@ }
    }
}

/// A parsed line: ordered argument vector plus ordered redirections. An
/// empty `argv` means the line was blank or held only redirections; such a
/// line is a no-op, not an error.
#[derive(Debug)]
pub struct ParsedCommand {
    pub argv: Vec<String>,
    pub redirects: Vec<Redirection>,
}

/// The mathematical value of a `ParsedCommand`.
pub struct ParsedCommandModel {
    pub argv: Seq<Seq<char>>,
    pub redirects: Seq<RedirectionModel>,
}

impl DeepView for ParsedCommand {
    type V = ParsedCommandModel;

    open spec fn deep_view(&self) -> ParsedCommandModel {
        ParsedCommandModel { argv: self.argv.deep_view(), redirects: self.redirects.deep_view() }
    }
}

/// The characters of a `Word` token.
pub open spec fn word_of(t: TokenModel) -> Seq<char>
    recommends
        t is Word,
{
    match t {
        TokenModel::Word(w) => w,
        _ => Seq::empty(),
    }
}

/// The parser's single forward pass: `toks` is the unconsumed suffix, `argv`
/// and `redirs` what has been gathered so far. `Err(k)` means an operator of
/// kind `k` lacked its target word.
pub open spec fn spec_parse_from(
    toks: Seq<TokenModel>,
    argv: Seq<Seq<char>>,
    redirs: Seq<RedirectionModel>,
) -> Result<ParsedCommandModel, RedirKind>
    decreases toks.len(),
{
    if toks.len() == 0 {
        Ok(ParsedCommandModel { argv, redirects: redirs })
    } else {
        match toks[0] {
            TokenModel::Word(w) => spec_parse_from(toks.skip(1), argv.push(w), redirs),
            TokenModel::RedirectOut => {
                if toks.len() >= 2 && toks[1] is Word {
                    spec_parse_from(
                        toks.skip(2),
                        argv,
                        redirs.push(
                            RedirectionModel {
                                kind: RedirKind::StdoutTruncate,
                                target: word_of(toks[1]),
                            },
                        ),
                    )
                } else {
                    Err(RedirKind::StdoutTruncate)
                }
            },
            TokenModel::RedirectOutAppend => {
                if toks.len() >= 2 && toks[1] is Word {
                    spec_parse_from(
                        toks.skip(2),
                        argv,
                        redirs.push(
                            RedirectionModel {
                                kind: RedirKind::StdoutAppend,
                                target: word_of(toks[1]),
                            },
                        ),
                    )
                } else {
                    Err(RedirKind::StdoutAppend)
                }
            },
            TokenModel::RedirectErr => {
                if toks.len() >= 2 && toks[1] is Word {
                    spec_parse_from(
                        toks.skip(2),
                        argv,
                        redirs.push(
                            RedirectionModel {
                                kind: RedirKind::StderrTruncate,
                                target: word_of(toks[1]),
                            },
                        ),
                    )
                } else {
                    Err(RedirKind::StderrTruncate)
                }
            },
            TokenModel::RedirectErrAppend => {
                if toks.len() >= 2 && toks[1] is Word {
                    spec_parse_from(
                        toks.skip(2),
                        argv,
                        redirs.push(
                            RedirectionModel {
                                kind: RedirKind::StderrAppend,
                                target: word_of(toks[1]),
                            },
                        ),
                    )
                } else {
                    Err(RedirKind::StderrAppend)
                }
            },
            TokenModel::RedirectIn => {
                if toks.len() >= 2 && toks[1] is Word {
                    spec_parse_from(
                        toks.skip(2),
                        argv,
                        redirs.push(
                            RedirectionModel { kind: RedirKind::Stdin, target: word_of(toks[1]) },
                        ),
                    )
                } else {
                    Err(RedirKind::Stdin)
                }
            },
        }
    }
}

/// What parsing a whole token sequence yields.
pub open spec fn spec_parse(toks: Seq<TokenModel>) -> Result<ParsedCommandModel, RedirKind> {
    spec_parse_from(toks, Seq::empty(), Seq::empty())
}

/// The error message identifying which operator lacked its target.
pub open spec fn parse_error_message(k: RedirKind) -> Seq<char> {
    match k {
        RedirKind::StdoutTruncate => "expected filename after '>'"@,
        RedirKind::StdoutAppend => "expected filename after '>>'"@,
        RedirKind::StderrTruncate => "expected filename after '2>'"@,
        RedirKind::StderrAppend => "expected filename after '2>>'"@,
        RedirKind::Stdin => "expected filename after '<'"@,
    }
}

proof fn lemma_skip_skip(s: Seq<TokenModel>, i: int, k: int)
    requires
        0 <= i,
        0 <= k,
        i + k <= s.len(),
    ensures
        s.skip(i).skip(k) == s.skip(i + k),
{
    assert(s.skip(i).skip(k) =~= s.skip(i + k));
}

/// A token sequence ending in a redirection operator never parses: some
/// operator in it is left without its target word.
pub proof fn lemma_trailing_operator_fails(toks: Seq<TokenModel>)
    requires
        toks.len() > 0,
        !(toks.last() is Word),
    ensures
        spec_parse(toks) is Err,
{
    lemma_trailing_operator_fails_from(toks, Seq::empty(), Seq::empty());
}

proof fn lemma_trailing_operator_fails_from(
    toks: Seq<TokenModel>,
    argv: Seq<Seq<char>>,
    redirs: Seq<RedirectionModel>,
)
    requires
        toks.len() > 0,
        !(toks.last() is Word),
    ensures
        spec_parse_from(toks, argv, redirs) is Err,
    decreases toks.len(),
{
    if toks.len() == 1 {
        // The sole token is an operator with nothing after it.
    } else {
        match toks[0] {
            TokenModel::Word(w) => {
                assert(toks.skip(1).last() == toks.last());
                lemma_trailing_operator_fails_from(toks.skip(1), argv.push(w), redirs);
            },
            _ => {
                if toks[1] is Word {
                    // The target word cannot be the final token, so at least
                    // one more token follows it.
                    assert(toks.len() >= 3);
                    assert(toks.skip(2).last() == toks.last());
                    lemma_trailing_operator_fails_from(
                        toks.skip(2),
                        argv,
                        spec_parse_redirs_step(toks, redirs),
                    );
                }
            },
        }
    }
}

/// The redirection list after consuming the operator at the head of `toks`
/// together with its target word.
pub open spec fn spec_parse_redirs_step(
    toks: Seq<TokenModel>,
    redirs: Seq<RedirectionModel>,
) -> Seq<RedirectionModel>
    recommends
        toks.len() >= 2,
        !(toks[0] is Word),
        toks[1] is Word,
{
    match toks[0] {
        TokenModel::RedirectOut => redirs.push(
            RedirectionModel { kind: RedirKind::StdoutTruncate, target: word_of(toks[1]) },
        ),
        TokenModel::RedirectOutAppend => redirs.push(
            RedirectionModel { kind: RedirKind::StdoutAppend, target: word_of(toks[1]) },
        ),
        TokenModel::RedirectErr => redirs.push(
            RedirectionModel { kind: RedirKind::StderrTruncate, target: word_of(toks[1]) },
        ),
        TokenModel::RedirectErrAppend => redirs.push(
            RedirectionModel { kind: RedirKind::StderrAppend, target: word_of(toks[1]) },
        ),
        _ => redirs.push(
            RedirectionModel { kind: RedirKind::Stdin, target: word_of(toks[1]) },
        ),
    }
}

/// Parses a token sequence into an argument vector and redirections; fails
/// exactly where the model does, with a message naming the operator that
/// lacked its target.
pub fn parse_command(tokens: &[Token]) -> (r: Result<ParsedCommand, String>)
    ensures
        match r {
            Ok(pc) => spec_parse(tokens.deep_view()) == Ok::<ParsedCommandModel, RedirKind>(
                pc.deep_view(),
            ),
            Err(msg) => spec_parse(tokens.deep_view()) matches Err(k) && msg@
                == parse_error_message(k),
        },
{
    let ghost td = tokens.deep_view();
    let n = tokens.len();
    let mut argv: Vec<String> = Vec::new();
    let mut redirs: Vec<Redirection> = Vec::new();
    let mut i: usize = 0;
    proof {
        assert(td.skip(0) =~= td);
        assert(argv.deep_view() =~= Seq::<Seq<char>>::empty());
        assert(redirs.deep_view() =~= Seq::<RedirectionModel>::empty());
    }
    while i < n
        invariant
            n == tokens@.len(),
            td == tokens.deep_view(),
            i <= n,
            spec_parse_from(td.skip(i as int), argv.deep_view(), redirs.deep_view()) == spec_parse(
                td,
            ),
        decreases n - i,
    {
        let ghost rest = td.skip(i as int);
        proof {
            assert(rest[0] == td[i as int]);
        }
        match &tokens[i] {
            Token::Word(w) => {
                let ghost argv0 = argv.deep_view();
                argv.push(w.clone());
                proof {
                    assert(argv.deep_view() =~= argv0.push(w@));
                    lemma_skip_skip(td, i as int, 1);
                }
                i = i + 1;
            },
            Token::RedirectOut => {
                if i + 1 < n {
                    proof {
                        assert(rest[1] == td[i + 1]);
                    }
                    match &tokens[i + 1] {
                        Token::Word(w) => {
                            let ghost r0 = redirs.deep_view();
                            redirs.push(
                                Redirection { kind: RedirKind::StdoutTruncate, target: w.clone() },
                            );
                            proof {
                                assert(redirs.deep_view() =~= r0.push(
                                    RedirectionModel {
                                        kind: RedirKind::StdoutTruncate,
                                        target: w@,
                                    },
                                ));
                                lemma_skip_skip(td, i as int, 2);
                            }
                            i = i + 2;
                        },
                        _ => {
                            return Err("expected filename after '>'".to_owned());
                        },
                    }
                } else {
                    return Err("expected filename after '>'".to_owned());
                }
            },
            Token::RedirectOutAppend => {
                if i + 1 < n {
                    proof {
                        assert(rest[1] == td[i + 1]);
                    }
                    match &tokens[i + 1] {
                        Token::Word(w) => {
                            let ghost r0 = redirs.deep_view();
                            redirs.push(
                                Redirection { kind: RedirKind::StdoutAppend, target: w.clone() },
                            );
                            proof {
                                assert(redirs.deep_view() =~= r0.push(
                                    RedirectionModel { kind: RedirKind::StdoutAppend, target: w@ },
                                ));
                                lemma_skip_skip(td, i as int, 2);
                            }
                            i = i + 2;
                        },
                        _ => {
                            return Err("expected filename after '>>'".to_owned());
                        },
                    }
                } else {
                    return Err("expected filename after '>>'".to_owned());
                }
            },
            Token::RedirectErr => {
                if i + 1 < n {
                    proof {
                        assert(rest[1] == td[i + 1]);
                    }
                    match &tokens[i + 1] {
                        Token::Word(w) => {
                            let ghost r0 = redirs.deep_view();
                            redirs.push(
                                Redirection { kind: RedirKind::StderrTruncate, target: w.clone() },
                            );
                            proof {
                                assert(redirs.deep_view() =~= r0.push(
                                    RedirectionModel {
                                        kind: RedirKind::StderrTruncate,
                                        target: w@,
                                    },
                                ));
                                lemma_skip_skip(td, i as int, 2);
                            }
                            i = i + 2;
                        },
                        _ => {
                            return Err("expected filename after '2>'".to_owned());
                        },
                    }
                } else {
                    return Err("expected filename after '2>'".to_owned());
                }
            },
            Token::RedirectErrAppend => {
                if i + 1 < n {
                    proof {
                        assert(rest[1] == td[i + 1]);
                    }
                    match &tokens[i + 1] {
                        Token::Word(w) => {
                            let ghost r0 = redirs.deep_view();
                            redirs.push(
                                Redirection { kind: RedirKind::StderrAppend, target: w.clone() },
                            );
                            proof {
                                assert(redirs.deep_view() =~= r0.push(
                                    RedirectionModel { kind: RedirKind::StderrAppend, target: w@ },
                                ));
                                lemma_skip_skip(td, i as int, 2);
                            }
                            i = i + 2;
                        },
                        _ => {
                            return Err("expected filename after '2>>'".to_owned());
                        },
                    }
                } else {
                    return Err("expected filename after '2>>'".to_owned());
                }
            },
            Token::RedirectIn => {
                if i + 1 < n {
                    proof {
                        assert(rest[1] == td[i + 1]);
                    }
                    match &tokens[i + 1] {
                        Token::Word(w) => {
                            let ghost r0 = redirs.deep_view();
                            redirs.push(
                                Redirection { kind: RedirKind::Stdin, target: w.clone() },
                            );
                            proof {
                                assert(redirs.deep_view() =~= r0.push(
                                    RedirectionModel { kind: RedirKind::Stdin, target: w@ },
                                ));
                                lemma_skip_skip(td, i as int, 2);
                            }
                            i = i + 2;
                        },
                        _ => {
                            return Err("expected filename after '<'".to_owned());
                        },
                    }
                } else {
                    return Err("expected filename after '<'".to_owned());
                }
            },
        }
    }
    proof {
        assert(td.skip(n as int).len() == 0);
    }
    Ok(ParsedCommand { argv, redirects: redirs })
}

} // verus!
