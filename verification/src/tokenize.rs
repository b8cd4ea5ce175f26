//! The tokenizer: turns a raw input line into a flat sequence of lexical
//! tokens (words and redirection operators), resolving quoting and escaping.
//!
//! `spec_tokenize` is the mathematical model: a single-character state
//! machine over the three lexing modes, consuming the line from the front.
//! `ArgvTokenizer::tokenize` is proved to return exactly what the model says.

use vstd::prelude::*;
use vstd::string::StrSliceExecFns;

use crate::text::chars_to_string;
use crate::text::is_space;
use crate::text::is_space_char;

verus! {

/// A lexical unit: a literal word, or one of the five redirection operators
/// (`<`, `>`, `>>`, `2>`, `2>>`).
#[derive(Clone, PartialEq, Debug)]
pub enum Token {
    Word(String),
    RedirectIn,
    RedirectOut,
    RedirectOutAppend,
    RedirectErr,
    RedirectErrAppend,
}

/// The mathematical value of a `Token`: the word's characters, or the
/// operator itself.
pub enum TokenModel {
    Word(Seq<char>),
    RedirectIn,
    RedirectOut,
    RedirectOutAppend,
    RedirectErr,
    RedirectErrAppend,
}

impl DeepView for Token {
    type V = TokenModel;

    open spec fn deep_view(&self) -> TokenModel {
        match self {
            Token::Word(s) => TokenModel::Word(s@),
            Token::RedirectIn => TokenModel::RedirectIn,
            Token::RedirectOut => TokenModel::RedirectOut,
            Token::RedirectOutAppend => TokenModel::RedirectOutAppend,
            Token::RedirectErr => TokenModel::RedirectErr,
            Token::RedirectErrAppend => TokenModel::RedirectErrAppend,
        }
    }
}

/// One lexing mode is active at a time; quoting does not nest.
#[derive(Clone, Copy, PartialEq, Eq, Structural)]
pub enum LexMode {
    Normal,
    InSingle,
    InDouble,
}

/// Emits the pending word buffer as a `Word` token if it is non-empty.
pub open spec fn flush_buf(buf: Seq<char>, out: Seq<TokenModel>) -> Seq<TokenModel> {
    if buf.len() > 0 {
        out.push(TokenModel::Word(buf))
    } else {
        out
    }
}

/// The tokenizer's state machine, run to the end of the input: `rest` is the
/// unconsumed part of the line, `buf` the pending word, `out` the tokens
/// emitted so far. `None` means the line ended inside a quote.
pub open spec fn spec_tok(
    rest: Seq<char>,
    mode: LexMode,
    buf: Seq<char>,
    out: Seq<TokenModel>,
) -> Option<Seq<TokenModel>>
    decreases rest.len(),
{
    if rest.len() == 0 {
        match mode {
            LexMode::Normal => Some(flush_buf(buf, out)),
            _ => None,
        }
    } else {
        let c = rest[0];
        match mode {
            LexMode::Normal => {
                if c == '\'' {
                    spec_tok(rest.skip(1), LexMode::InSingle, buf, out)
                } else if c == '"' {
                    spec_tok(rest.skip(1), LexMode::InDouble, buf, out)
                } else if c == '\\' {
                    if rest.len() >= 2 {
                        spec_tok(rest.skip(2), LexMode::Normal, buf.push(rest[1]), out)
                    } else {
                        spec_tok(rest.skip(1), LexMode::Normal, buf, out)
                    }
                } else if c == '2' {
                    if rest.len() >= 2 && rest[1] == '>' {
                        if rest.len() >= 3 && rest[2] == '>' {
                            spec_tok(
                                rest.skip(3),
                                LexMode::Normal,
                                Seq::empty(),
                                flush_buf(buf, out).push(TokenModel::RedirectErrAppend),
                            )
                        } else {
                            spec_tok(
                                rest.skip(2),
                                LexMode::Normal,
                                Seq::empty(),
                                flush_buf(buf, out).push(TokenModel::RedirectErr),
                            )
                        }
                    } else {
                        spec_tok(rest.skip(1), LexMode::Normal, buf.push('2'), out)
                    }
                } else if c == '1' {
                    if rest.len() >= 2 && rest[1] == '>' {
                        if rest.len() >= 3 && rest[2] == '>' {
                            spec_tok(
                                rest.skip(3),
                                LexMode::Normal,
                                Seq::empty(),
                                flush_buf(buf, out).push(TokenModel::RedirectOutAppend),
                            )
                        } else {
                            spec_tok(
                                rest.skip(2),
                                LexMode::Normal,
                                Seq::empty(),
                                flush_buf(buf, out).push(TokenModel::RedirectOut),
                            )
                        }
                    } else {
                        spec_tok(rest.skip(1), LexMode::Normal, buf.push('1'), out)
                    }
                } else if c == '>' {
                    if rest.len() >= 2 && rest[1] == '>' {
                        spec_tok(
                            rest.skip(2),
                            LexMode::Normal,
                            Seq::empty(),
                            flush_buf(buf, out).push(TokenModel::RedirectOutAppend),
                        )
                    } else {
                        spec_tok(
                            rest.skip(1),
                            LexMode::Normal,
                            Seq::empty(),
                            flush_buf(buf, out).push(TokenModel::RedirectOut),
                        )
                    }
                } else if c == '<' {
                    spec_tok(
                        rest.skip(1),
                        LexMode::Normal,
                        Seq::empty(),
                        flush_buf(buf, out).push(TokenModel::RedirectIn),
                    )
                } else if is_space_char(c) {
                    spec_tok(rest.skip(1), LexMode::Normal, Seq::empty(), flush_buf(buf, out))
                } else {
                    spec_tok(rest.skip(1), LexMode::Normal, buf.push(c), out)
                }
            },
            LexMode::InSingle => {
                if c == '\'' {
                    spec_tok(rest.skip(1), LexMode::Normal, buf, out)
                } else {
                    spec_tok(rest.skip(1), LexMode::InSingle, buf.push(c), out)
                }
            },
            LexMode::InDouble => {
                if c == '"' {
                    spec_tok(rest.skip(1), LexMode::Normal, buf, out)
                } else if c == '\\' {
                    if rest.len() >= 2 {
                        let n = rest[1];
                        if n == '"' || n == '`' || n == '\\' || n == '$' {
                            spec_tok(rest.skip(2), LexMode::InDouble, buf.push(n), out)
                        } else {
                            spec_tok(rest.skip(2), LexMode::InDouble, buf.push('\\').push(n), out)
                        }
                    } else {
                        spec_tok(rest.skip(1), LexMode::InDouble, buf, out)
                    }
                } else {
                    spec_tok(rest.skip(1), LexMode::InDouble, buf.push(c), out)
                }
            },
        }
    }
}

/// What tokenizing a whole line yields: `None` exactly on an unmatched quote.
pub open spec fn spec_tokenize(s: Seq<char>) -> Option<Seq<TokenModel>> {
    spec_tok(s, LexMode::Normal, Seq::empty(), Seq::empty())
}

proof fn lemma_skip_skip(s: Seq<char>, i: int, k: int)
    requires
        0 <= i,
        0 <= k,
        i + k <= s.len(),
    ensures
        s.skip(i).skip(k) == s.skip(i + k),
{
    assert(s.skip(i).skip(k) =~= s.skip(i + k));
}

/// Flushes the pending word buffer into the token vector, leaving the buffer
/// empty; a no-op when the buffer is already empty.
fn flush(buf: &mut Vec<char>, out: &mut Vec<Token>)
    ensures
        final(out).deep_view() == flush_buf(old(buf)@, old(out).deep_view()),
        final(buf)@ == Seq::<char>::empty(),
{
    if buf.len() > 0 {
        let ghost out0 = out.deep_view();
        let w = chars_to_string(buf.as_slice());
        out.push(Token::Word(w));
        buf.clear();
        proof {
            assert(out.deep_view() =~= out0.push(TokenModel::Word(old(buf)@)));
            assert(buf@ =~= Seq::<char>::empty());
        }
    } else {
        proof {
            assert(buf@ =~= Seq::<char>::empty());
        }
    }
}

pub struct ArgvTokenizer;

impl ArgvTokenizer {
    /// Tokenizes one raw input line, resolving quoting and escaping; fails
    /// exactly when the line ends inside a quote.
    pub fn tokenize(line: &str) -> (r: Result<Vec<Token>, String>)
        ensures
            match r {
                Ok(toks) => spec_tokenize(line@) == Some(toks.deep_view()),
                Err(msg) => spec_tokenize(line@) is None && msg@ == "unmatched quote"@,
            },
    {
        let n = line.unicode_len();
        let mut mode = LexMode::Normal;
        let mut out: Vec<Token> = Vec::new();
        let mut buf: Vec<char> = Vec::new();
        let mut i: usize = 0;
        proof {
            assert(line@.skip(0) =~= line@);
            assert(out.deep_view() =~= Seq::<TokenModel>::empty());
        }
        while i < n
            invariant
                n == line@.len(),
                i <= n,
                spec_tok(line@.skip(i as int), mode, buf@, out.deep_view()) == spec_tokenize(
                    line@,
                ),
            decreases n - i,
        {
            let ghost rest = line@.skip(i as int);
            let ghost buf0 = buf@;
            let ghost out0 = out.deep_view();
            proof {
                assert(rest[0] == line@[i as int]);
            }
            let c = line.get_char(i);
            match mode {
                LexMode::Normal => {
                    if c == '\'' {
                        mode = LexMode::InSingle;
                        proof {
                            lemma_skip_skip(line@, i as int, 1);
                        }
                        i = i + 1;
                    } else if c == '"' {
                        mode = LexMode::InDouble;
                        proof {
                            lemma_skip_skip(line@, i as int, 1);
                        }
                        i = i + 1;
                    } else if c == '\\' {
                        if i + 1 < n {
                            let nx = line.get_char(i + 1);
                            buf.push(nx);
                            proof {
                                assert(rest[1] == line@[i + 1]);
                                lemma_skip_skip(line@, i as int, 2);
                            }
                            i = i + 2;
                        } else {
                            proof {
                                lemma_skip_skip(line@, i as int, 1);
                            }
                            i = i + 1;
                        }
                    } else if c == '2' {
                        if i + 1 < n && line.get_char(i + 1) == '>' {
                            proof {
                                assert(rest[1] == line@[i + 1]);
                            }
                            flush(&mut buf, &mut out);
                            let ghost flushed = out.deep_view();
                            if i + 2 < n && line.get_char(i + 2) == '>' {
                                out.push(Token::RedirectErrAppend);
                                proof {
                                    assert(rest[2] == line@[i + 2]);
                                    assert(out.deep_view() =~= flushed.push(
                                        TokenModel::RedirectErrAppend,
                                    ));
                                    lemma_skip_skip(line@, i as int, 3);
                                }
                                i = i + 3;
                            } else {
                                out.push(Token::RedirectErr);
                                proof {
                                    if i + 2 < n {
                                        assert(rest[2] == line@[i + 2]);
                                    }
                                    assert(out.deep_view() =~= flushed.push(
                                        TokenModel::RedirectErr,
                                    ));
                                    lemma_skip_skip(line@, i as int, 2);
                                }
                                i = i + 2;
                            }
                        } else {
                            buf.push('2');
                            proof {
                                if i + 1 < n {
                                    assert(rest[1] == line@[i + 1]);
                                }
                                lemma_skip_skip(line@, i as int, 1);
                            }
                            i = i + 1;
                        }
                    } else if c == '1' {
                        if i + 1 < n && line.get_char(i + 1) == '>' {
                            proof {
                                assert(rest[1] == line@[i + 1]);
                            }
                            flush(&mut buf, &mut out);
                            let ghost flushed = out.deep_view();
                            if i + 2 < n && line.get_char(i + 2) == '>' {
                                out.push(Token::RedirectOutAppend);
                                proof {
                                    assert(rest[2] == line@[i + 2]);
                                    assert(out.deep_view() =~= flushed.push(
                                        TokenModel::RedirectOutAppend,
                                    ));
                                    lemma_skip_skip(line@, i as int, 3);
                                }
                                i = i + 3;
                            } else {
                                out.push(Token::RedirectOut);
                                proof {
                                    if i + 2 < n {
                                        assert(rest[2] == line@[i + 2]);
                                    }
                                    assert(out.deep_view() =~= flushed.push(
                                        TokenModel::RedirectOut,
                                    ));
                                    lemma_skip_skip(line@, i as int, 2);
                                }
                                i = i + 2;
                            }
                        } else {
                            buf.push('1');
                            proof {
                                if i + 1 < n {
                                    assert(rest[1] == line@[i + 1]);
                                }
                                lemma_skip_skip(line@, i as int, 1);
                            }
                            i = i + 1;
                        }
                    } else if c == '>' {
                        flush(&mut buf, &mut out);
                        let ghost flushed = out.deep_view();
                        if i + 1 < n && line.get_char(i + 1) == '>' {
                            out.push(Token::RedirectOutAppend);
                            proof {
                                assert(rest[1] == line@[i + 1]);
                                assert(out.deep_view() =~= flushed.push(
                                    TokenModel::RedirectOutAppend,
                                ));
                                lemma_skip_skip(line@, i as int, 2);
                            }
                            i = i + 2;
                        } else {
                            out.push(Token::RedirectOut);
                            proof {
                                if i + 1 < n {
                                    assert(rest[1] == line@[i + 1]);
                                }
                                assert(out.deep_view() =~= flushed.push(TokenModel::RedirectOut));
                                lemma_skip_skip(line@, i as int, 1);
                            }
                            i = i + 1;
                        }
                    } else if c == '<' {
                        flush(&mut buf, &mut out);
                        let ghost flushed = out.deep_view();
                        out.push(Token::RedirectIn);
                        proof {
                            assert(out.deep_view() =~= flushed.push(TokenModel::RedirectIn));
                            lemma_skip_skip(line@, i as int, 1);
                        }
                        i = i + 1;
                    } else if is_space(c) {
                        flush(&mut buf, &mut out);
                        proof {
                            lemma_skip_skip(line@, i as int, 1);
                        }
                        i = i + 1;
                    } else {
                        buf.push(c);
                        proof {
                            lemma_skip_skip(line@, i as int, 1);
                        }
                        i = i + 1;
                    }
                },
                LexMode::InSingle => {
                    if c == '\'' {
                        mode = LexMode::Normal;
                    } else {
                        buf.push(c);
                    }
                    proof {
                        lemma_skip_skip(line@, i as int, 1);
                    }
                    i = i + 1;
                },
                LexMode::InDouble => {
                    if c == '"' {
                        mode = LexMode::Normal;
                        proof {
                            lemma_skip_skip(line@, i as int, 1);
                        }
                        i = i + 1;
                    } else if c == '\\' {
                        if i + 1 < n {
                            let nx = line.get_char(i + 1);
                            if nx == '"' || nx == '`' || nx == '\\' || nx == '$' {
                                buf.push(nx);
                            } else {
                                buf.push('\\');
                                buf.push(nx);
                            }
                            proof {
                                assert(rest[1] == line@[i + 1]);
                                lemma_skip_skip(line@, i as int, 2);
                            }
                            i = i + 2;
                        } else {
                            proof {
                                lemma_skip_skip(line@, i as int, 1);
                            }
                            i = i + 1;
                        }
                    } else {
                        buf.push(c);
                        proof {
                            lemma_skip_skip(line@, i as int, 1);
                        }
                        i = i + 1;
                    }
                },
            }
        }
        proof {
            assert(line@.skip(n as int).len() == 0);
        }
        match mode {
            LexMode::Normal => {
                flush(&mut buf, &mut out);
                Ok(out)
            },
            _ => Err("unmatched quote".to_owned()),
        }
    }
}

} // verus!
