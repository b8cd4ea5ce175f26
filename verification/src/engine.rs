//! The dispatch/redirection engine's decision core.
//!
//! One invocation runs: evaluate the line (tokenize, parse, empty check),
//! apply redirections through a `RedirSession` that saves the original
//! stream handles, resolve the command name, run it, and restore every
//! swapped stream on every exit path. The surrounding program performs the
//! file opens, the process spawn and the writes; everything it decides by
//! is computed and proved here.

use vstd::prelude::*;
use vstd::string::StrSliceExecFns;
use vstd::string::StringExecFns;

use crate::context::CommandContext;
use crate::context::IoHandle;
use crate::parse::ParsedCommand;
use crate::parse::ParsedCommandModel;
use crate::parse::RedirKind;
use crate::parse::parse_command;
use crate::parse::parse_error_message;
use crate::parse::spec_parse;
use crate::text::is_space_char;
use crate::tokenize::ArgvTokenizer;
use crate::tokenize::LexMode;
use crate::tokenize::TokenModel;
use crate::tokenize::spec_tok;
use crate::tokenize::spec_tokenize;

verus! {

/// Which of the three streams a redirection touches.
#[derive(Debug, Clone, Copy, PartialEq, Eq, Structural)]
pub enum StreamSel {
    Input,
    Output,
    Error,
}

/// How a redirection target file is to be opened.
#[derive(Debug, Clone, Copy, PartialEq, Eq, Structural)]
pub enum OpenMode {
    Read,
    Truncate,
    Append,
}

/// The stream a redirection kind touches.
pub open spec fn spec_stream(k: RedirKind) -> StreamSel {
    match k {
        RedirKind::StdoutTruncate => StreamSel::Output,
        RedirKind::StdoutAppend => StreamSel::Output,
        RedirKind::StderrTruncate => StreamSel::Error,
        RedirKind::StderrAppend => StreamSel::Error,
        RedirKind::Stdin => StreamSel::Input,
    }
}

/// The open mode a redirection kind implies: read (fails if absent),
/// create-or-truncate, or create-if-absent-and-append.
pub open spec fn spec_open_mode(k: RedirKind) -> OpenMode {
    match k {
        RedirKind::StdoutTruncate => OpenMode::Truncate,
        RedirKind::StdoutAppend => OpenMode::Append,
        RedirKind::StderrTruncate => OpenMode::Truncate,
        RedirKind::StderrAppend => OpenMode::Append,
        RedirKind::Stdin => OpenMode::Read,
    }
}

impl RedirKind {
    /// The stream this redirection replaces.
    pub fn stream(&self) -> (r: StreamSel)
        ensures
            r == spec_stream(*self),
    {
        match self {
            RedirKind::StdoutTruncate => StreamSel::Output,
            RedirKind::StdoutAppend => StreamSel::Output,
            RedirKind::StderrTruncate => StreamSel::Error,
            RedirKind::StderrAppend => StreamSel::Error,
            RedirKind::Stdin => StreamSel::Input,
        }
    }

    /// The mode the target file is opened with.
    pub fn open_mode(&self) -> (r: OpenMode)
        ensures
            r == spec_open_mode(*self),
    {
        match self {
            RedirKind::StdoutTruncate => OpenMode::Truncate,
            RedirKind::StdoutAppend => OpenMode::Append,
            RedirKind::StderrTruncate => OpenMode::Truncate,
            RedirKind::StderrAppend => OpenMode::Append,
            RedirKind::Stdin => OpenMode::Read,
        }
    }
}

/// One slot per stream: the handles the context held when the session
/// began, and which streams have been swapped since. Only swapped streams
/// are restored, so the true originals survive however many redirections
/// touch the same stream.
pub struct RedirSession {
    pub orig_stdin: IoHandle,
    pub orig_stdout: IoHandle,
    pub orig_stderr: IoHandle,
    pub swapped_in: bool,
    pub swapped_out: bool,
    pub swapped_err: bool,
}

/// The session still permits restoring the context begun with streams
/// `(in0, out0, err0)`: each saved original is the true one, and an
/// unswapped stream still holds its pre-invocation handle.
pub open spec fn restorable(
    s: RedirSession,
    in0: IoHandle,
    out0: IoHandle,
    err0: IoHandle,
    ctx: CommandContext,
) -> bool {
    &&& s.orig_stdin == in0
    &&& s.orig_stdout == out0
    &&& s.orig_stderr == err0
    &&& (!s.swapped_in ==> ctx.stdin == in0)
    &&& (!s.swapped_out ==> ctx.stdout == out0)
    &&& (!s.swapped_err ==> ctx.stderr == err0)
}

/// The session `begin` opens on a context.
pub open spec fn spec_begin(ctx: CommandContext) -> RedirSession {
    RedirSession {
        orig_stdin: ctx.stdin,
        orig_stdout: ctx.stdout,
        orig_stderr: ctx.stderr,
        swapped_in: false,
        swapped_out: false,
        swapped_err: false,
    }
}

/// The session and context after one swap: the selected stream holds the
/// new handle and is marked swapped; nothing else moves.
pub open spec fn spec_apply(
    s: RedirSession,
    ctx: CommandContext,
    kind: RedirKind,
    handle: IoHandle,
) -> (RedirSession, CommandContext) {
    match spec_stream(kind) {
        StreamSel::Input => (
            RedirSession { swapped_in: true, ..s },
            CommandContext { stdin: handle, ..ctx },
        ),
        StreamSel::Output => (
            RedirSession { swapped_out: true, ..s },
            CommandContext { stdout: handle, ..ctx },
        ),
        StreamSel::Error => (
            RedirSession { swapped_err: true, ..s },
            CommandContext { stderr: handle, ..ctx },
        ),
    }
}

/// The context after restoration: every swapped stream holds its saved
/// original again, unswapped streams and the environment are untouched.
pub open spec fn spec_restore(s: RedirSession, ctx: CommandContext) -> CommandContext {
    CommandContext {
        stdin: if s.swapped_in {
            s.orig_stdin
        } else {
            ctx.stdin
        },
        stdout: if s.swapped_out {
            s.orig_stdout
        } else {
            ctx.stdout
        },
        stderr: if s.swapped_err {
            s.orig_stderr
        } else {
            ctx.stderr
        },
        env: ctx.env,
    }
}

impl RedirSession {
    /// Opens a session on the context's current streams; nothing is swapped
    /// yet.
    pub fn begin(ctx: &CommandContext) -> (r: Self)
        ensures
            r == spec_begin(*ctx),
            r.orig_stdin == ctx.stdin,
            r.orig_stdout == ctx.stdout,
            r.orig_stderr == ctx.stderr,
            !r.swapped_in,
            !r.swapped_out,
            !r.swapped_err,
            restorable(r, ctx.stdin, ctx.stdout, ctx.stderr, *ctx),
    {
        RedirSession {
            orig_stdin: ctx.stdin,
            orig_stdout: ctx.stdout,
            orig_stderr: ctx.stderr,
            swapped_in: false,
            swapped_out: false,
            swapped_err: false,
        }
    }

    /// Applies one successfully opened redirection: the selected stream is
    /// replaced by `handle`, the other streams and the environment are
    /// untouched, and the saved originals are kept as they are — so a
    /// restorable session stays restorable.
    pub fn apply(&mut self, ctx: &mut CommandContext, kind: &RedirKind, handle: IoHandle)
        ensures
            (*final(self), *final(ctx)) == spec_apply(*old(self), *old(ctx), *kind, handle),
            match spec_stream(*kind) {
                StreamSel::Input => {
                    &&& final(ctx).stdin == handle
                    &&& final(ctx).stdout == old(ctx).stdout
                    &&& final(ctx).stderr == old(ctx).stderr
                    &&& final(self).swapped_in
                    &&& final(self).swapped_out == old(self).swapped_out
                    &&& final(self).swapped_err == old(self).swapped_err
                },
                StreamSel::Output => {
                    &&& final(ctx).stdout == handle
                    &&& final(ctx).stdin == old(ctx).stdin
                    &&& final(ctx).stderr == old(ctx).stderr
                    &&& final(self).swapped_out
                    &&& final(self).swapped_in == old(self).swapped_in
                    &&& final(self).swapped_err == old(self).swapped_err
                },
                StreamSel::Error => {
                    &&& final(ctx).stderr == handle
                    &&& final(ctx).stdin == old(ctx).stdin
                    &&& final(ctx).stdout == old(ctx).stdout
                    &&& final(self).swapped_err
                    &&& final(self).swapped_in == old(self).swapped_in
                    &&& final(self).swapped_out == old(self).swapped_out
                },
            },
            final(ctx).env == old(ctx).env,
            final(self).orig_stdin == old(self).orig_stdin,
            final(self).orig_stdout == old(self).orig_stdout,
            final(self).orig_stderr == old(self).orig_stderr,
            forall|in0: IoHandle, out0: IoHandle, err0: IoHandle|
                restorable(*old(self), in0, out0, err0, *old(ctx)) ==> restorable(
                    *final(self),
                    in0,
                    out0,
                    err0,
                    *final(ctx),
                ),
    {
        match kind.stream() {
            StreamSel::Input => {
                ctx.stdin = handle;
                self.swapped_in = true;
            },
            StreamSel::Output => {
                ctx.stdout = handle;
                self.swapped_out = true;
            },
            StreamSel::Error => {
                ctx.stderr = handle;
                self.swapped_err = true;
            },
        }
    }

    /// Restores every swapped stream to its saved original and leaves the
    /// environment untouched. Begun on this context and driven only through
    /// `apply`, this returns all three streams bit-identical to their
    /// pre-invocation handles — whatever the command did or failed to do.
    pub fn restore(self, ctx: &mut CommandContext)
        ensures
            *final(ctx) == spec_restore(self, *old(ctx)),
            final(ctx).stdin == if self.swapped_in {
                self.orig_stdin
            } else {
                old(ctx).stdin
            },
            final(ctx).stdout == if self.swapped_out {
                self.orig_stdout
            } else {
                old(ctx).stdout
            },
            final(ctx).stderr == if self.swapped_err {
                self.orig_stderr
            } else {
                old(ctx).stderr
            },
            final(ctx).env == old(ctx).env,
            forall|in0: IoHandle, out0: IoHandle, err0: IoHandle|
                restorable(self, in0, out0, err0, *old(ctx)) ==> final(ctx).stdin == in0
                    && final(ctx).stdout == out0 && final(ctx).stderr == err0,
    {
        if self.swapped_in {
            ctx.stdin = self.orig_stdin;
        }
        if self.swapped_out {
            ctx.stdout = self.orig_stdout;
        }
        if self.swapped_err {
            ctx.stderr = self.orig_stderr;
        }
    }
}

/// What one input line asks for: nothing at all, a diagnostic on the error
/// stream, or a command to run.
pub enum LineAction {
    Nothing,
    Report(String),
    Run(ParsedCommand),
}

/// The mathematical value of a `LineAction`.
pub enum LineActionModel {
    Nothing,
    Report(Seq<char>),
    Run(ParsedCommandModel),
}

impl DeepView for LineAction {
    type V = LineActionModel;

    open spec fn deep_view(&self) -> LineActionModel {
        match self {
            LineAction::Nothing => LineActionModel::Nothing,
            LineAction::Report(m) => LineActionModel::Report(m@),
            LineAction::Run(pc) => LineActionModel::Run(pc.deep_view()),
        }
    }
}

/// What evaluating a line yields: a tokenize or parse failure becomes a
/// diagnostic, an empty argument vector a no-op, anything else the parsed
/// command.
pub open spec fn spec_evaluate(s: Seq<char>) -> LineActionModel {
    match spec_tokenize(s) {
        Option::None => LineActionModel::Report("tokenization error: "@ + "unmatched quote"@),
        Option::Some(ts) => match spec_parse(ts) {
            Result::Err(k) => LineActionModel::Report("parse error: "@ + parse_error_message(k)),
            Result::Ok(pc) => if pc.argv.len() == 0 {
                LineActionModel::Nothing
            } else {
                LineActionModel::Run(pc)
            },
        },
    }
}

/// Evaluates one raw input line: tokenizes, parses, and decides what the
/// invocation must do next. Failures are turned into diagnostics for the
/// error stream; they never reach execution.
pub fn evaluate_line(line: &str) -> (r: LineAction)
    ensures
        r.deep_view() == spec_evaluate(line@),
{
    match ArgvTokenizer::tokenize(line) {
        Result::Err(e) => {
            let mut m = "tokenization error: ".to_owned();
            m.append(e.as_str());
            LineAction::Report(m)
        },
        Result::Ok(tokens) => {
            let toks = tokens.as_slice();
            proof {
                assert(toks.deep_view() =~= tokens.deep_view());
            }
            match parse_command(toks) {
                Result::Err(e) => {
                    let mut m = "parse error: ".to_owned();
                    m.append(e.as_str());
                    LineAction::Report(m)
                },
                Result::Ok(pc) => {
                    if pc.argv.len() == 0 {
                        LineAction::Nothing
                    } else {
                        LineAction::Run(pc)
                    }
                },
            }
        },
    }
}

/// The diagnostic for a name found neither in the registry nor on the
/// search path.
pub fn not_found_message(name: &str) -> (r: String)
    ensures
        r@ == name@ + ": not found"@,
{
    let mut m = name.to_owned();
    m.append(": not found");
    m
}

/// The diagnostic for an executable that resolved but could not be run.
pub fn spawn_error_message(name: &str, detail: &str) -> (r: String)
    ensures
        r@ == "Failed to run "@ + name@ + ": "@ + detail@,
{
    let mut m = "Failed to run ".to_owned();
    m.append(name);
    m.append(": ");
    m.append(detail);
    m
}

/// The diagnostic for a redirection target that could not be opened.
pub fn redirection_error_message(target: &str, detail: &str) -> (r: String)
    ensures
        r@ == target@ + ": "@ + detail@,
{
    let mut m = target.to_owned();
    m.append(": ");
    m.append(detail);
    m
}

/// Evaluating a line is deterministic and pure: the outcome is a function
/// of the line's characters alone, so re-evaluating the same line yields
/// the identical result.
pub proof fn lemma_evaluate_deterministic(a: Seq<char>, b: Seq<char>)
    requires
        a == b,
    ensures
        spec_evaluate(a) == spec_evaluate(b),
{
}

proof fn lemma_blank_tokenizes_to(s: Seq<char>, out: Seq<TokenModel>)
    requires
        forall|i: int| 0 <= i < s.len() ==> is_space_char(s[i]),
    ensures
        spec_tok(s, LexMode::Normal, Seq::empty(), out) == Some(out),
    decreases s.len(),
{
    if s.len() == 0 {
    } else {
        assert(forall|i: int| 0 <= i < s.skip(1).len() ==> is_space_char(s.skip(1)[i]));
        lemma_blank_tokenizes_to(s.skip(1), out);
    }
}

/// An empty line, or a line consisting solely of whitespace, asks for
/// nothing: no output, no state change, the read loop just continues.
pub proof fn lemma_blank_line_is_noop(s: Seq<char>)
    requires
        forall|i: int| 0 <= i < s.len() ==> is_space_char(s[i]),
    ensures
        spec_evaluate(s) == LineActionModel::Nothing,
{
    lemma_blank_tokenizes_to(s, Seq::empty());
}

/// The session and context after a whole run of swaps, first to last.
pub open spec fn spec_apply_all(
    s: RedirSession,
    ctx: CommandContext,
    swaps: Seq<(RedirKind, IoHandle)>,
) -> (RedirSession, CommandContext)
    decreases swaps.len(),
{
    if swaps.len() == 0 {
        (s, ctx)
    } else {
        let (s1, c1) = spec_apply(s, ctx, swaps[0].0, swaps[0].1);
        spec_apply_all(s1, c1, swaps.skip(1))
    }
}

proof fn lemma_apply_all_keeps_restorable(
    s: RedirSession,
    ctx: CommandContext,
    swaps: Seq<(RedirKind, IoHandle)>,
    in0: IoHandle,
    out0: IoHandle,
    err0: IoHandle,
)
    requires
        restorable(s, in0, out0, err0, ctx),
    ensures
        restorable(
            spec_apply_all(s, ctx, swaps).0,
            in0,
            out0,
            err0,
            spec_apply_all(s, ctx, swaps).1,
        ),
        spec_apply_all(s, ctx, swaps).1.env == ctx.env,
    decreases swaps.len(),
{
    if swaps.len() > 0 {
        let (s1, c1) = spec_apply(s, ctx, swaps[0].0, swaps[0].1);
        lemma_apply_all_keeps_restorable(s1, c1, swaps.skip(1), in0, out0, err0);
    }
}

/// After a command invocation with redirections — however many, whatever
/// streams they touch, whether the command then succeeded or failed — the
/// context's streams are bit-identical to their pre-invocation handles
/// once the session is restored, and the environment mapping is untouched
/// by the swaps and the restoration themselves.
pub proof fn lemma_streams_restored_after_any_swaps(
    ctx0: CommandContext,
    swaps: Seq<(RedirKind, IoHandle)>,
)
    ensures
        ({
            let (s, ctx1) = spec_apply_all(spec_begin(ctx0), ctx0, swaps);
            let ctx2 = spec_restore(s, ctx1);
            &&& ctx2.stdin == ctx0.stdin
            &&& ctx2.stdout == ctx0.stdout
            &&& ctx2.stderr == ctx0.stderr
            &&& ctx2.env == ctx0.env
        }),
{
    lemma_apply_all_keeps_restorable(
        spec_begin(ctx0),
        ctx0,
        swaps,
        ctx0.stdin,
        ctx0.stdout,
        ctx0.stderr,
    );
}

} // verus!
