//! A simple POSIX-like argv splitter that understands single quotes,
//! double quotes with escapes, and backslash escapes outside quotes.
//! Unlike the tokenizer it knows nothing of redirection operators.
//!
//! `spec_split` is the mathematical model; `ArgvSplitter::split` is proved
//! to return exactly what the model says.

use vstd::prelude::*;
use vstd::string::StrSliceExecFns;

use crate::text::chars_to_string;
use crate::text::is_space;
use crate::text::is_space_char;
use crate::tokenize::LexMode;

verus! {

/// Emits the pending word buffer as an argument if it is non-empty.
pub open spec fn flush_word(buf: Seq<char>, out: Seq<Seq<char>>) -> Seq<Seq<char>> {
    if buf.len() > 0 {
        out.push(buf)
    } else {
        out
    }
}

/// The splitter's state machine, run to the end of the input: `rest` is the
/// unconsumed part of the line, `buf` the pending word, `out` the words
/// emitted so far. `None` means the line ended inside a quote.
pub open spec fn spec_split_from(
    rest: Seq<char>,
    mode: LexMode,
    buf: Seq<char>,
    out: Seq<Seq<char>>,
) -> Option<Seq<Seq<char>>>
    decreases rest.len(),
{
    if rest.len() == 0 {
        match mode {
            LexMode::Normal => Some(flush_word(buf, out)),
            _ => None,
        }
    } else {
        let c = rest[0];
        match mode {
            LexMode::Normal => {
                if c == '\'' {
                    spec_split_from(rest.skip(1), LexMode::InSingle, buf, out)
                } else if c == '"' {
                    spec_split_from(rest.skip(1), LexMode::InDouble, buf, out)
                } else if c == '\\' {
                    if rest.len() >= 2 {
                        spec_split_from(rest.skip(2), LexMode::Normal, buf.push(rest[1]), out)
                    } else {
                        spec_split_from(rest.skip(1), LexMode::Normal, buf, out)
                    }
                } else if is_space_char(c) {
                    spec_split_from(rest.skip(1), LexMode::Normal, Seq::empty(), flush_word(buf, out))
                } else {
                    spec_split_from(rest.skip(1), LexMode::Normal, buf.push(c), out)
                }
            },
            LexMode::InSingle => {
                if c == '\'' {
                    spec_split_from(rest.skip(1), LexMode::Normal, buf, out)
                } else {
                    spec_split_from(rest.skip(1), LexMode::InSingle, buf.push(c), out)
                }
            },
            LexMode::InDouble => {
                if c == '"' {
                    spec_split_from(rest.skip(1), LexMode::Normal, buf, out)
                } else if c == '\\' {
                    if rest.len() >= 2 {
                        let n = rest[1];
                        if n == '"' || n == '`' || n == '\\' || n == '$' {
                            spec_split_from(rest.skip(2), LexMode::InDouble, buf.push(n), out)
                        } else {
                            spec_split_from(
                                rest.skip(2),
                                LexMode::InDouble,
                                buf.push('\\').push(n),
                                out,
                            )
                        }
                    } else {
                        spec_split_from(rest.skip(1), LexMode::InDouble, buf, out)
                    }
                } else {
                    spec_split_from(rest.skip(1), LexMode::InDouble, buf.push(c), out)
                }
            },
        }
    }
}

/// What splitting a whole line yields: `None` exactly on an unmatched quote.
pub open spec fn spec_split(s: Seq<char>) -> Option<Seq<Seq<char>>> {
    spec_split_from(s, LexMode::Normal, Seq::empty(), Seq::empty())
}

proof fn lemma_skip_skip(s: Seq<char>, i: int, k: int)
    requires
        0 <= i,
        0 <= k,
        i + k <= s.len(),
    ensures
        s.skip(i).skip(k) == s.skip(i + k),
{
    assert(s.skip(i).skip(k) =~= s.skip(i + k));
}

/// Flushes the pending word buffer into the argument vector, leaving the
/// buffer empty; a no-op when the buffer is already empty.
fn flush_arg(buf: &mut Vec<char>, out: &mut Vec<String>)
    ensures
        final(out).deep_view() == flush_word(old(buf)@, old(out).deep_view()),
        final(buf)@ == Seq::<char>::empty(),
{
    if buf.len() > 0 {
        let ghost out0 = out.deep_view();
        let w = chars_to_string(buf.as_slice());
        out.push(w);
        buf.clear();
        proof {
            assert(out.deep_view() =~= out0.push(old(buf)@));
            assert(buf@ =~= Seq::<char>::empty());
        }
    } else {
        proof {
            assert(buf@ =~= Seq::<char>::empty());
        }
    }
}

pub struct ArgvSplitter;

impl ArgvSplitter {
    /// Splits one raw input line into owned argument strings; fails exactly
    /// when the line ends inside a quote.
    pub fn split(line: &str) -> (r: Result<Vec<String>, String>)
        ensures
            match r {
                Ok(args) => spec_split(line@) == Some(args.deep_view()),
                Err(msg) => spec_split(line@) is None && msg@ == "unmatched quote"@,
            },
    {
        let n = line.unicode_len();
        let mut mode = LexMode::Normal;
        let mut out: Vec<String> = Vec::new();
        let mut buf: Vec<char> = Vec::new();
        let mut i: usize = 0;
        proof {
            assert(line@.skip(0) =~= line@);
            assert(out.deep_view() =~= Seq::<Seq<char>>::empty());
        }
        while i < n
            invariant
                n == line@.len(),
                i <= n,
                spec_split_from(line@.skip(i as int), mode, buf@, out.deep_view()) == spec_split(
                    line@,
                ),
            decreases n - i,
        {
            let ghost rest = line@.skip(i as int);
            proof {
                assert(rest[0] == line@[i as int]);
            }
            let c = line.get_char(i);
            match mode {
                LexMode::Normal => {
                    if c == '\'' {
                        mode = LexMode::InSingle;
                        proof {
                            lemma_skip_skip(line@, i as int, 1);
                        }
                        i = i + 1;
                    } else if c == '"' {
                        mode = LexMode::InDouble;
                        proof {
                            lemma_skip_skip(line@, i as int, 1);
                        }
                        i = i + 1;
                    } else if c == '\\' {
                        if i + 1 < n {
                            let nx = line.get_char(i + 1);
                            buf.push(nx);
                            proof {
                                assert(rest[1] == line@[i + 1]);
                                lemma_skip_skip(line@, i as int, 2);
                            }
                            i = i + 2;
                        } else {
                            proof {
                                lemma_skip_skip(line@, i as int, 1);
                            }
                            i = i + 1;
                        }
                    } else if is_space(c) {
                        flush_arg(&mut buf, &mut out);
                        proof {
                            lemma_skip_skip(line@, i as int, 1);
                        }
                        i = i + 1;
                    } else {
                        buf.push(c);
                        proof {
                            lemma_skip_skip(line@, i as int, 1);
                        }
                        i = i + 1;
                    }
                },
                LexMode::InSingle => {
                    if c == '\'' {
                        mode = LexMode::Normal;
                    } else {
                        buf.push(c);
                    }
                    proof {
                        lemma_skip_skip(line@, i as int, 1);
                    }
                    i = i + 1;
                },
                LexMode::InDouble => {
                    if c == '"' {
                        mode = LexMode::Normal;
                        proof {
                            lemma_skip_skip(line@, i as int, 1);
                        }
                        i = i + 1;
                    } else if c == '\\' {
                        if i + 1 < n {
                            let nx = line.get_char(i + 1);
                            if nx == '"' || nx == '`' || nx == '\\' || nx == '$' {
                                buf.push(nx);
                            } else {
                                buf.push('\\');
                                buf.push(nx);
                            }
                            proof {
                                assert(rest[1] == line@[i + 1]);
                                lemma_skip_skip(line@, i as int, 2);
                            }
                            i = i + 2;
                        } else {
                            proof {
                                lemma_skip_skip(line@, i as int, 1);
                            }
                            i = i + 1;
                        }
                    } else {
                        buf.push(c);
                        proof {
                            lemma_skip_skip(line@, i as int, 1);
                        }
                        i = i + 1;
                    }
                },
            }
        }
        proof {
            assert(line@.skip(n as int).len() == 0);
        }
        match mode {
            LexMode::Normal => {
                flush_arg(&mut buf, &mut out);
                Ok(out)
            },
            _ => Err("unmatched quote".to_owned()),
        }
    }
}

} // verus!
