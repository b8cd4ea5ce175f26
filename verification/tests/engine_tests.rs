use shell_core::context::{CommandContext, EnvMap, IoHandle};
use shell_core::engine::{
    evaluate_line, not_found_message, redirection_error_message, spawn_error_message, LineAction,
    OpenMode, RedirSession, StreamSel,
};
use shell_core::parse::RedirKind;

fn fresh_context() -> CommandContext {
    CommandContext {
        stdin: IoHandle::Stdin,
        stdout: IoHandle::Stdout,
        stderr: IoHandle::Stderr,
        env: EnvMap::new(),
    }
}

#[test]
fn empty_line_is_noop() {
    assert!(matches!(evaluate_line(""), LineAction::Nothing));
}

#[test]
fn whitespace_line_is_noop() {
    assert!(matches!(evaluate_line(" \t   "), LineAction::Nothing));
}

#[test]
fn redirections_only_line_is_noop() {
    assert!(matches!(evaluate_line("> out"), LineAction::Nothing));
}

#[test]
fn tokenize_failure_is_reported() {
    match evaluate_line("echo 'opps") {
        LineAction::Report(m) => assert_eq!(m, "tokenization error: unmatched quote"),
        _ => panic!("expected a diagnostic"),
    }
}

#[test]
fn parse_failure_is_reported() {
    match evaluate_line("ls >") {
        LineAction::Report(m) => assert_eq!(m, "parse error: expected filename after '>'"),
        _ => panic!("expected a diagnostic"),
    }
}

#[test]
fn command_line_runs() {
    match evaluate_line("cat < infile x") {
        LineAction::Run(pc) => {
            assert_eq!(pc.argv, vec!["cat", "x"]);
            assert_eq!(pc.redirects.len(), 1);
            assert_eq!(pc.redirects[0].kind, RedirKind::Stdin);
        }
        _ => panic!("expected a command"),
    }
}

#[test]
fn open_modes_match_kinds() {
    assert_eq!(RedirKind::StdoutTruncate.open_mode(), OpenMode::Truncate);
    assert_eq!(RedirKind::StdoutAppend.open_mode(), OpenMode::Append);
    assert_eq!(RedirKind::StderrTruncate.open_mode(), OpenMode::Truncate);
    assert_eq!(RedirKind::StderrAppend.open_mode(), OpenMode::Append);
    assert_eq!(RedirKind::Stdin.open_mode(), OpenMode::Read);
}

#[test]
fn streams_match_kinds() {
    assert_eq!(RedirKind::StdoutTruncate.stream(), StreamSel::Output);
    assert_eq!(RedirKind::StdoutAppend.stream(), StreamSel::Output);
    assert_eq!(RedirKind::StderrTruncate.stream(), StreamSel::Error);
    assert_eq!(RedirKind::StderrAppend.stream(), StreamSel::Error);
    assert_eq!(RedirKind::Stdin.stream(), StreamSel::Input);
}

#[test]
fn session_swaps_and_restores_streams() {
    let mut ctx = fresh_context();
    let mut session = RedirSession::begin(&ctx);
    session.apply(&mut ctx, &RedirKind::StdoutTruncate, IoHandle::File(7));
    session.apply(&mut ctx, &RedirKind::StderrAppend, IoHandle::File(8));
    assert_eq!(ctx.stdout, IoHandle::File(7));
    assert_eq!(ctx.stderr, IoHandle::File(8));
    assert_eq!(ctx.stdin, IoHandle::Stdin);
    session.restore(&mut ctx);
    assert_eq!(ctx.stdin, IoHandle::Stdin);
    assert_eq!(ctx.stdout, IoHandle::Stdout);
    assert_eq!(ctx.stderr, IoHandle::Stderr);
}

#[test]
fn session_restores_true_original_after_double_swap() {
    // Two redirections of the same stream: the second replaces the first,
    // yet restoration returns the true pre-invocation handle.
    let mut ctx = fresh_context();
    let mut session = RedirSession::begin(&ctx);
    session.apply(&mut ctx, &RedirKind::StdoutTruncate, IoHandle::File(1));
    session.apply(&mut ctx, &RedirKind::StdoutAppend, IoHandle::File(2));
    assert_eq!(ctx.stdout, IoHandle::File(2));
    session.restore(&mut ctx);
    assert_eq!(ctx.stdout, IoHandle::Stdout);
}

#[test]
fn session_restore_after_partial_application() {
    // An open failure aborts the remaining redirections; what was already
    // swapped is still restored.
    let mut ctx = fresh_context();
    let mut session = RedirSession::begin(&ctx);
    session.apply(&mut ctx, &RedirKind::Stdin, IoHandle::File(3));
    assert_eq!(ctx.stdin, IoHandle::File(3));
    session.restore(&mut ctx);
    assert_eq!(ctx.stdin, IoHandle::Stdin);
    assert_eq!(ctx.stdout, IoHandle::Stdout);
    assert_eq!(ctx.stderr, IoHandle::Stderr);
}

#[test]
fn diagnostic_messages() {
    assert_eq!(not_found_message("frob"), "frob: not found");
    assert_eq!(
        spawn_error_message("frob", "no such device"),
        "Failed to run frob: no such device"
    );
    assert_eq!(
        redirection_error_message("out.txt", "permission denied"),
        "out.txt: permission denied"
    );
}
