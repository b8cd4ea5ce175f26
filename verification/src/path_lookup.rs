//! Path-string helpers for executable resolution and tilde expansion.
//! Joining follows the rule for pushing one plain Unix path onto another:
//! an absolute right-hand side replaces the left, otherwise exactly one
//! separator stands between the two. The filesystem checks themselves
//! (existence, execute permission) belong to the surrounding program; the
//! candidate paths it checks are computed and proved here.

use vstd::prelude::*;
use vstd::string::StrSliceExecFns;
use vstd::string::StringExecFns;

use crate::text::chars_to_string;

verus! {

/// `base` extended with `rest`: `rest` alone if it is absolute or `base`
/// is empty, otherwise the two with exactly one `/` between them.
pub open spec fn spec_join_path(base: Seq<char>, rest: Seq<char>) -> Seq<char> {
    if rest.len() > 0 && rest[0] == '/' {
        rest
    } else if base.len() == 0 {
        rest
    } else if base.last() == '/' {
        base + rest
    } else {
        base + "/"@ + rest
    }
}

/// Joins a directory and a file name as `spec_join_path` says.
pub fn join_path(base: &str, rest: &str) -> (r: String)
    ensures
        r@ == spec_join_path(base@, rest@),
{
    let rl = rest.unicode_len();
    if rl > 0 && rest.get_char(0) == '/' {
        return rest.to_owned();
    }
    let bl = base.unicode_len();
    if bl == 0 {
        return rest.to_owned();
    }
    if base.get_char(bl - 1) == '/' {
        let mut s = base.to_owned();
        s.append(rest);
        s
    } else {
        let mut s = base.to_owned();
        s.append("/");
        s.append(rest);
        s
    }
}

/// Tilde expansion: a path not starting with `~` is unchanged; `~` alone is
/// the home directory; `~/rest` is the home directory extended with `rest`;
/// any other `~`-prefixed path (such as another user's `~name`) is left
/// unchanged.
pub open spec fn spec_expand_tilde(path: Seq<char>, home: Seq<char>) -> Seq<char> {
    if path.len() == 0 || path[0] != '~' {
        path
    } else if path.len() == 1 {
        home
    } else if path[1] == '/' {
        spec_join_path(home, path.skip(2))
    } else {
        path
    }
}

/// Expands a leading tilde against the given home directory.
pub fn expand_tilde(path: &str, home: &str) -> (r: String)
    ensures
        r@ == spec_expand_tilde(path@, home@),
{
    let n = path.unicode_len();
    if n == 0 || path.get_char(0) != '~' {
        return path.to_owned();
    }
    if n == 1 {
        return home.to_owned();
    }
    if path.get_char(1) == '/' {
        let rest = path.substring_char(2, n);
        proof {
            assert(rest@ =~= path@.skip(2));
        }
        join_path(home, rest)
    } else {
        path.to_owned()
    }
}

/// Splitting on `:`, one segment per colon boundary; an empty string is the
/// single empty segment, as `str::split` has it.
pub open spec fn spec_split_colon_from(
    rest: Seq<char>,
    cur: Seq<char>,
    out: Seq<Seq<char>>,
) -> Seq<Seq<char>>
    decreases rest.len(),
{
    if rest.len() == 0 {
        out.push(cur)
    } else if rest[0] == ':' {
        spec_split_colon_from(rest.skip(1), Seq::empty(), out.push(cur))
    } else {
        spec_split_colon_from(rest.skip(1), cur.push(rest[0]), out)
    }
}

/// The segments of a colon-separated list.
pub open spec fn spec_split_colon(s: Seq<char>) -> Seq<Seq<char>> {
    spec_split_colon_from(s, Seq::empty(), Seq::empty())
}

proof fn lemma_skip_skip(s: Seq<char>, i: int, k: int)
    requires
        0 <= i,
        0 <= k,
        i + k <= s.len(),
    ensures
        s.skip(i).skip(k) == s.skip(i + k),
{
    assert(s.skip(i).skip(k) =~= s.skip(i + k));
}

/// Splits a colon-separated list into its segments.
pub fn split_colon(s: &str) -> (r: Vec<String>)
    ensures
        r.deep_view() == spec_split_colon(s@),
{
    let n = s.unicode_len();
    let mut out: Vec<String> = Vec::new();
    let mut cur: Vec<char> = Vec::new();
    let mut i: usize = 0;
    proof {
        assert(s@.skip(0) =~= s@);
        assert(out.deep_view() =~= Seq::<Seq<char>>::empty());
    }
    while i < n
        invariant
            n == s@.len(),
            i <= n,
            spec_split_colon_from(s@.skip(i as int), cur@, out.deep_view()) == spec_split_colon(
                s@,
            ),
        decreases n - i,
    {
        let ghost rest = s@.skip(i as int);
        proof {
            assert(rest[0] == s@[i as int]);
        }
        let c = s.get_char(i);
        if c == ':' {
            let ghost out0 = out.deep_view();
            let ghost cur0 = cur@;
            let seg = chars_to_string(cur.as_slice());
            out.push(seg);
            cur.clear();
            proof {
                assert(out.deep_view() =~= out0.push(cur0));
                assert(cur@ =~= Seq::<char>::empty());
                lemma_skip_skip(s@, i as int, 1);
            }
            i = i + 1;
        } else {
            cur.push(c);
            proof {
                lemma_skip_skip(s@, i as int, 1);
            }
            i = i + 1;
        }
    }
    proof {
        assert(s@.skip(n as int).len() == 0);
    }
    let ghost out0 = out.deep_view();
    let seg = chars_to_string(cur.as_slice());
    out.push(seg);
    proof {
        assert(out.deep_view() =~= out0.push(cur@));
    }
    out
}

/// The candidate paths for a bare command name: each directory of the
/// colon-separated search path, extended with the name.
pub open spec fn spec_candidates(cmd: Seq<char>, path_var: Seq<char>) -> Seq<Seq<char>> {
    spec_split_colon(path_var).map_values(|d: Seq<char>| spec_join_path(d, cmd))
}

/// Computes the candidate paths a search must check, in search-path order.
pub fn path_candidates(cmd: &str, path_var: &str) -> (r: Vec<String>)
    ensures
        r.deep_view() == spec_candidates(cmd@, path_var@),
{
    let dirs = split_colon(path_var);
    let mut out: Vec<String> = Vec::new();
    let mut i: usize = 0;
    while i < dirs.len()
        invariant
            i <= dirs@.len(),
            dirs.deep_view() == spec_split_colon(path_var@),
            out.deep_view().len() == i,
            forall|j: int|
                0 <= j < i ==> out.deep_view()[j] == spec_join_path(
                    dirs.deep_view()[j],
                    cmd@,
                ),
        decreases dirs@.len() - i,
    {
        let ghost out0 = out.deep_view();
        let cand = join_path(dirs[i].as_str(), cmd);
        out.push(cand);
        proof {
            assert(out.deep_view() =~= out0.push(spec_join_path(dirs.deep_view()[i as int], cmd@)));
        }
        i = i + 1;
    }
    proof {
        assert(out.deep_view() =~= spec_candidates(cmd@, path_var@));
    }
    out
}

/// Whether a command name holds a path separator and so names a direct
/// candidate rather than a name to search for.
pub open spec fn spec_has_separator(s: Seq<char>) -> bool {
    exists|i: int| 0 <= i < s.len() && s[i] == '/'
}

/// Whether `cmd` is to be treated as a direct path.
pub fn is_direct_path(cmd: &str) -> (r: bool)
    ensures
        r == spec_has_separator(cmd@),
{
    let n = cmd.unicode_len();
    let mut i: usize = 0;
    while i < n
        invariant
            n == cmd@.len(),
            i <= n,
            forall|j: int| 0 <= j < i ==> cmd@[j] != '/',
        decreases n - i,
    {
        if cmd.get_char(i) == '/' {
            return true;
        }
        i = i + 1;
    }
    false
}

} // verus!
