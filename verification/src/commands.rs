//! The builtin command handlers' decision logic: what line each one emits
//! and what it asks of the process, as a function of its arguments and of
//! the values the surrounding program read for it (home directory, current
//! directory, search-path lookup). The writes, the directory change and the
//! process exit themselves happen outside; every value they use is computed
//! and proved here.

use vstd::prelude::*;
use vstd::string::StrSliceExecFns;
use vstd::string::StringExecFns;

use crate::path_lookup::expand_tilde;
use crate::path_lookup::spec_expand_tilde;
use crate::registry::CommandRegistry;

verus! {

/// The arguments joined with single spaces.
pub open spec fn spec_join_spaces(args: Seq<Seq<char>>) -> Seq<char>
    decreases args.len(),
{
    if args.len() == 0 {
        Seq::empty()
    } else if args.len() == 1 {
        args[0]
    } else {
        spec_join_spaces(args.drop_last()) + " "@ + args.last()
    }
}

/// Echoes its input arguments.
pub struct EchoCommand;

impl EchoCommand {
    /// The handler's registration name.
    pub fn name(&self) -> (r: &'static str)
        ensures
            r@ == "echo"@,
    {
        "echo"
    }

    /// A human-readable description.
    pub fn description(&self) -> (r: &'static str)
        ensures
            r@ == "Echos input arguments"@,
    {
        "Echos input arguments"
    }

    /// The line echo writes to the output stream: its arguments joined with
    /// single spaces.
    pub fn output(args: &[String]) -> (r: String)
        ensures
            r@ == spec_join_spaces(args.deep_view()),
    {
        let ghost dv = args.deep_view();
        let mut out = String::new();
        let mut i: usize = 0;
        while i < args.len()
            invariant
                i <= args@.len(),
                dv == args.deep_view(),
                out@ == spec_join_spaces(dv.take(i as int)),
            decreases args@.len() - i,
        {
            if i > 0 {
                out.append(" ");
            }
            out.append(args[i].as_str());
            proof {
                assert(dv.take(i + 1).drop_last() =~= dv.take(i as int));
                assert(dv.take(i + 1).last() == dv[i as int]);
                if i == 0 {
                    assert(Seq::<char>::empty() + dv[0] =~= dv[0]);
                }
            }
            i = i + 1;
        }
        proof {
            assert(dv.take(args@.len() as int) =~= dv);
        }
        out
    }
}

/// Whether `c` is an ASCII decimal digit.
pub open spec fn is_digit(c: char) -> bool {
    48 <= c as u32 && c as u32 <= 57
}

/// The numeric value of one digit.
pub open spec fn digit_val(c: char) -> int {
    c as u32 - 48
}

/// The value of a digit sequence read in base ten.
pub open spec fn digits_val(s: Seq<char>) -> int
    decreases s.len(),
{
    if s.len() == 0 {
        0
    } else {
        digits_val(s.drop_last()) * 10 + digit_val(s.last())
    }
}

/// Whether every character of `s` is a digit.
pub open spec fn all_digits(s: Seq<char>) -> bool {
    forall|i: int| 0 <= i < s.len() ==> is_digit(s[i])
}

/// Whether `s` starts with a minus sign.
pub open spec fn spec_negative(s: Seq<char>) -> bool {
    s.len() > 0 && s[0] == '-'
}

/// `s` with an optional leading sign removed.
pub open spec fn spec_magnitude(s: Seq<char>) -> Seq<char> {
    if s.len() > 0 && (s[0] == '-' || s[0] == '+') {
        s.skip(1)
    } else {
        s
    }
}

/// What reading `s` as a signed 32-bit decimal integer yields: an optional
/// sign, then one or more digits, the value within range — else nothing.
pub open spec fn spec_parse_i32(s: Seq<char>) -> Option<int> {
    let mag = spec_magnitude(s);
    if mag.len() > 0 && all_digits(mag) {
        let v = if spec_negative(s) {
            -digits_val(mag)
        } else {
            digits_val(mag)
        };
        if i32::MIN <= v <= i32::MAX {
            Some(v)
        } else {
            None
        }
    } else {
        None
    }
}

proof fn lemma_digits_val_nonneg(s: Seq<char>)
    requires
        all_digits(s),
    ensures
        digits_val(s) >= 0,
    decreases s.len(),
{
    if s.len() > 0 {
        assert(all_digits(s.drop_last()));
        lemma_digits_val_nonneg(s.drop_last());
    }
}

proof fn lemma_digits_val_extend_ge(s: Seq<char>, k: int)
    requires
        all_digits(s),
        0 <= k <= s.len(),
    ensures
        digits_val(s) >= digits_val(s.take(k)),
    decreases s.len() - k,
{
    if k < s.len() {
        assert(all_digits(s.take(k)));
        lemma_digits_val_nonneg(s.take(k));
        assert(s.take(k + 1).drop_last() =~= s.take(k));
        assert(digits_val(s.take(k + 1)) == digits_val(s.take(k)) * 10 + digit_val(s[k]));
        lemma_digits_val_extend_ge(s, k + 1);
    } else {
        assert(s.take(k) =~= s);
    }
}

/// Reads a signed 32-bit decimal integer, exactly as `spec_parse_i32` says.
pub fn parse_i32(s: &str) -> (r: Option<i32>)
    ensures
        match r {
            Some(v) => spec_parse_i32(s@) == Some(v as int),
            None => spec_parse_i32(s@) is None,
        },
{
    let n = s.unicode_len();
    let mut start: usize = 0;
    let mut negative = false;
    if n > 0 {
        let c0 = s.get_char(0);
        if c0 == '-' {
            negative = true;
            start = 1;
        } else if c0 == '+' {
            start = 1;
        }
    }
    let ghost mag = spec_magnitude(s@);
    proof {
        if start == 0 {
            assert(mag =~= s@);
        }
        assert(mag == s@.skip(start as int));
        assert(negative == spec_negative(s@));
    }
    if start >= n {
        return None;
    }
    let mut acc: u64 = 0;
    let mut j = start;
    proof {
        assert(mag.take(0) =~= Seq::<char>::empty());
    }
    while j < n
        invariant
            start <= j <= n,
            n == s@.len(),
            mag == s@.skip(start as int),
            mag == spec_magnitude(s@),
            start <= 1,
            acc <= 0x8000_0000,
            all_digits(mag.take(j - start)),
            acc as int == digits_val(mag.take(j - start)),
        decreases n - j,
    {
        let c = s.get_char(j);
        proof {
            assert(mag[j - start] == s@[j as int]);
        }
        let cu = c as u32;
        if cu < 48 || cu > 57 {
            proof {
                assert(!is_digit(mag[j - start]));
                assert(!all_digits(mag));
                assert(spec_parse_i32(s@) is None);
            }
            return None;
        }
        let d = (cu - 48) as u64;
        let ghost taken = mag.take(j - start);
        acc = acc * 10 + d;
        proof {
            assert(mag.take(j - start + 1).drop_last() =~= taken);
            assert(mag.take(j - start + 1).last() == mag[j - start]);
            assert(acc as int == digits_val(mag.take(j - start + 1)));
        }
        if acc > 0x8000_0000 {
            proof {
                if all_digits(mag) {
                    lemma_digits_val_extend_ge(mag, j - start + 1);
                    assert(digits_val(mag) >= acc as int);
                    assert(digits_val(mag) > i32::MAX);
                    assert(-digits_val(mag) < i32::MIN);
                }
                assert(spec_parse_i32(s@) is None);
            }
            return None;
        }
        j = j + 1;
    }
    proof {
        assert(mag.take(n - start) =~= mag);
    }
    if negative {
        if acc == 0x8000_0000 {
            Some(i32::MIN)
        } else {
            Some(-(acc as i32))
        }
    } else {
        if acc == 0x8000_0000 {
            None
        } else {
            Some(acc as i32)
        }
    }
}

/// Ends the interpreter with a given exit status.
pub struct ExitCommand;

impl ExitCommand {
    /// The handler's registration name.
    pub fn name(&self) -> (r: &'static str)
        ensures
            r@ == "exit"@,
    {
        "exit"
    }

    /// A human-readable description.
    pub fn description(&self) -> (r: &'static str)
        ensures
            r@ == "exits shell with given exit status"@,
    {
        "exits shell with given exit status"
    }

    /// The status the process ends with: 0 with no argument, the parsed
    /// integer argument otherwise. A non-integer argument is a usage error,
    /// reported rather than honoured.
    pub fn status(args: &[String]) -> (r: Result<i32, String>)
        ensures
            args.deep_view().len() == 0 ==> r == Ok::<i32, String>(0i32),
            args.deep_view().len() > 0 ==> match r {
                Ok(v) => spec_parse_i32(args.deep_view()[0]) == Some(v as int),
                Err(m) => spec_parse_i32(args.deep_view()[0]) is None && m@
                    == "Invalid status code"@,
            },
    {
        if args.len() == 0 {
            return Ok(0);
        }
        match parse_i32(args[0].as_str()) {
            Some(v) => Ok(v),
            None => Err("Invalid status code".to_owned()),
        }
    }
}

/// Changes the working directory.
pub struct CdCommand;

/// The directory cd asks the process to change into: the first argument if
/// any, else the environment's home; a leading tilde is expanded against
/// the process home variable.
pub open spec fn spec_cd_target(
    args: Seq<Seq<char>>,
    env_home: Option<Seq<char>>,
    var_home: Option<Seq<char>>,
) -> Seq<char> {
    let raw = if args.len() > 0 {
        args[0]
    } else {
        match env_home {
            Some(h) => h,
            None => "/"@,
        }
    };
    let home = match var_home {
        Some(h) => h,
        None => "/"@,
    };
    spec_expand_tilde(raw, home)
}

impl CdCommand {
    /// The handler's registration name.
    pub fn name(&self) -> (r: &'static str)
        ensures
            r@ == "cd"@,
    {
        "cd"
    }

    /// A human-readable description.
    pub fn description(&self) -> (r: &'static str)
        ensures
            r@ == "Change the shell working directory"@,
    {
        "Change the shell working directory"
    }

    /// Computes the target directory from the arguments, the environment
    /// mapping's home entry and the process home variable.
    pub fn resolve_target(
        args: &[String],
        env_home: &Option<String>,
        var_home: &Option<String>,
    ) -> (r: String)
        ensures
            r@ == spec_cd_target(args.deep_view(), env_home.deep_view(), var_home.deep_view()),
    {
        let home: &str = match var_home {
            Some(h) => h.as_str(),
            None => "/",
        };
        let raw: &str = if args.len() > 0 {
            args[0].as_str()
        } else {
            match env_home {
                Some(h) => h.as_str(),
                None => "/",
            }
        };
        expand_tilde(raw, home)
    }
}

/// Prints the current working directory.
pub struct PwdCommand;

impl PwdCommand {
    /// The handler's registration name.
    pub fn name(&self) -> (r: &'static str)
        ensures
            r@ == "pwd"@,
    {
        "pwd"
    }

    /// A human-readable description.
    pub fn description(&self) -> (r: &'static str)
        ensures
            r@ == "Print the current working directory"@,
    {
        "Print the current working directory"
    }

    /// The line pwd writes: the environment mapping's working-directory
    /// entry when present, else what the process reports, else the error
    /// prefixed with the command's name.
    pub fn output_line(env_pwd: &Option<String>, os_dir: &Result<String, String>) -> (r: String)
        ensures
            match env_pwd {
                Some(p) => r@ == p@,
                None => match os_dir {
                    Ok(d) => r@ == d@,
                    Err(e) => r@ == "pwd: "@ + e@,
                },
            },
    {
        match env_pwd {
            Some(p) => p.clone(),
            None => match os_dir {
                Ok(d) => d.clone(),
                Err(e) => {
                    let mut m = "pwd: ".to_owned();
                    m.append(e.as_str());
                    m
                },
            },
        }
    }
}

/// Reports whether a command is a builtin or an external executable.
pub struct TypeCommand;

/// What the type builtin answers: the line, and which stream it belongs on.
pub struct TypeAnswer {
    pub line: String,
    pub to_error_stream: bool,
}

impl TypeCommand {
    /// The handler's registration name.
    pub fn name(&self) -> (r: &'static str)
        ensures
            r@ == "type"@,
    {
        "type"
    }

    /// A human-readable description.
    pub fn description(&self) -> (r: &'static str)
        ensures
            r@ == "Show if command is built-in"@,
    {
        "Show if command is built-in"
    }

    /// The answer for a queried name: a builtin takes precedence, then an
    /// executable found on the search path; a vanished registry degrades to
    /// not-found rather than failing. Without an argument the answer is a
    /// usage line.
    pub fn report(
        args: &[String],
        registry: Option<&CommandRegistry>,
        path: &Option<String>,
    ) -> (r: TypeAnswer)
        ensures
            args.deep_view().len() == 0 ==> r.line@ == "Usage: type <command-name>"@
                && r.to_error_stream,
            args.deep_view().len() > 0 ==> {
                let name = args.deep_view()[0];
                match registry {
                    Some(reg) => {
                        if reg.spec_get(name) is Some {
                            r.line@ == name + " is a shell builtin"@ && !r.to_error_stream
                        } else {
                            match path {
                                Some(p) => r.line@ == name + " is "@ + p@ && !r.to_error_stream,
                                None => r.line@ == name + ": not found"@ && r.to_error_stream,
                            }
                        }
                    },
                    None => r.line@ == name + ": not found"@ && r.to_error_stream,
                }
            },
    {
        if args.len() == 0 {
            return TypeAnswer {
                line: "Usage: type <command-name>".to_owned(),
                to_error_stream: true,
            };
        }
        let name = args[0].as_str();
        if let Some(reg) = registry {
            if reg.get(name).is_some() {
                let mut m = name.to_owned();
                m.append(" is a shell builtin");
                return TypeAnswer { line: m, to_error_stream: false };
            }
            if let Some(p) = path {
                let mut m = name.to_owned();
                m.append(" is ");
                m.append(p.as_str());
                return TypeAnswer { line: m, to_error_stream: false };
            }
        }
        let mut m = name.to_owned();
        m.append(": not found");
        TypeAnswer { line: m, to_error_stream: true }
    }
}

} // verus!
