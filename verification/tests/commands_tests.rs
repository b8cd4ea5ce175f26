use shell_core::commands::{
    parse_i32, CdCommand, EchoCommand, ExitCommand, PwdCommand, TypeCommand,
};
use shell_core::context::EnvMap;
use shell_core::registry::{register_all, CommandRegistry};

#[test]
fn echo_joins_arguments_with_spaces() {
    let args = vec![String::from("a"), String::from("b c"), String::from("d")];
    assert_eq!(EchoCommand::output(&args), "a b c d");
    assert_eq!(EchoCommand::output(&[]), "");
    assert_eq!(EchoCommand::output(&[String::from("solo")]), "solo");
}

#[test]
fn parse_i32_accepts_plain_and_signed() {
    assert_eq!(parse_i32("42"), Some(42));
    assert_eq!(parse_i32("+7"), Some(7));
    assert_eq!(parse_i32("-13"), Some(-13));
    assert_eq!(parse_i32("0"), Some(0));
    assert_eq!(parse_i32("00042"), Some(42));
}

#[test]
fn parse_i32_range_ends() {
    assert_eq!(parse_i32("2147483647"), Some(i32::MAX));
    assert_eq!(parse_i32("-2147483648"), Some(i32::MIN));
    assert_eq!(parse_i32("2147483648"), None);
    assert_eq!(parse_i32("-2147483649"), None);
    assert_eq!(parse_i32("99999999999999999999"), None);
}

#[test]
fn parse_i32_rejects_junk() {
    assert_eq!(parse_i32(""), None);
    assert_eq!(parse_i32("-"), None);
    assert_eq!(parse_i32("+"), None);
    assert_eq!(parse_i32("12x"), None);
    assert_eq!(parse_i32(" 12"), None);
    assert_eq!(parse_i32("1 2"), None);
}

#[test]
fn exit_status_defaults_to_zero() {
    assert_eq!(ExitCommand::status(&[]), Ok(0));
}

#[test]
fn exit_status_parses_argument() {
    assert_eq!(ExitCommand::status(&[String::from("3")]), Ok(3));
    assert_eq!(
        ExitCommand::status(&[String::from("many")]),
        Err(String::from("Invalid status code"))
    );
}

#[test]
fn cd_target_prefers_argument() {
    let env_home = Some(String::from("/env/home"));
    let var_home = Some(String::from("/var/home"));
    assert_eq!(
        CdCommand::resolve_target(&[String::from("/tmp")], &env_home, &var_home),
        "/tmp"
    );
}

#[test]
fn cd_target_defaults_to_env_home() {
    let env_home = Some(String::from("/env/home"));
    let var_home = Some(String::from("/var/home"));
    assert_eq!(CdCommand::resolve_target(&[], &env_home, &var_home), "/env/home");
    assert_eq!(CdCommand::resolve_target(&[], &None, &var_home), "/");
}

#[test]
fn cd_target_expands_tilde_against_process_home() {
    let var_home = Some(String::from("/home/u"));
    assert_eq!(
        CdCommand::resolve_target(&[String::from("~/x")], &None, &var_home),
        "/home/u/x"
    );
    assert_eq!(
        CdCommand::resolve_target(&[String::from("~")], &None, &var_home),
        "/home/u"
    );
    assert_eq!(
        CdCommand::resolve_target(&[String::from("~other")], &None, &var_home),
        "~other"
    );
}

#[test]
fn pwd_prefers_environment_entry() {
    let pwd = Some(String::from("/work"));
    assert_eq!(
        PwdCommand::output_line(&pwd, &Ok(String::from("/actual"))),
        "/work"
    );
    assert_eq!(
        PwdCommand::output_line(&None, &Ok(String::from("/actual"))),
        "/actual"
    );
    assert_eq!(
        PwdCommand::output_line(&None, &Err(String::from("gone"))),
        "pwd: gone"
    );
}

#[test]
fn type_reports_builtin_first() {
    let mut reg = CommandRegistry::new();
    register_all(&mut reg);
    let answer = TypeCommand::report(
        &[String::from("echo")],
        Some(&reg),
        &Some(String::from("/bin/echo")),
    );
    assert_eq!(answer.line, "echo is a shell builtin");
    assert!(!answer.to_error_stream);
}

#[test]
fn type_reports_path_resolution() {
    let reg = CommandRegistry::new();
    let answer = TypeCommand::report(
        &[String::from("ls")],
        Some(&reg),
        &Some(String::from("/bin/ls")),
    );
    assert_eq!(answer.line, "ls is /bin/ls");
    assert!(!answer.to_error_stream);

    let missing = TypeCommand::report(&[String::from("frob")], Some(&reg), &None);
    assert_eq!(missing.line, "frob: not found");
    assert!(missing.to_error_stream);
}

#[test]
fn type_degrades_without_registry() {
    let gone = TypeCommand::report(
        &[String::from("echo")],
        None,
        &Some(String::from("/bin/echo")),
    );
    assert_eq!(gone.line, "echo: not found");
    assert!(gone.to_error_stream);
}

#[test]
fn type_without_argument_is_usage_error() {
    let reg = CommandRegistry::new();
    let answer = TypeCommand::report(&[], Some(&reg), &None);
    assert_eq!(answer.line, "Usage: type <command-name>");
    assert!(answer.to_error_stream);
}

#[test]
fn env_map_insert_and_get() {
    let mut env = EnvMap::new();
    assert!(env.get("PWD").is_none());
    env.insert(String::from("PWD"), String::from("/a"));
    env.insert(String::from("HOME"), String::from("/h"));
    assert_eq!(env.get("PWD"), Some(&String::from("/a")));
    assert_eq!(env.get("HOME"), Some(&String::from("/h")));
    env.insert(String::from("PWD"), String::from("/b"));
    assert_eq!(env.get("PWD"), Some(&String::from("/b")));
    assert!(env.get("pwd").is_none());
}

#[test]
fn command_names_and_descriptions() {
    assert_eq!(CdCommand.name(), "cd");
    assert_eq!(EchoCommand.name(), "echo");
    assert_eq!(ExitCommand.name(), "exit");
    assert_eq!(PwdCommand.name(), "pwd");
    assert_eq!(TypeCommand.name(), "type");
    assert_eq!(CdCommand.description(), "Change the shell working directory");
    assert_eq!(EchoCommand.description(), "Echos input arguments");
    assert_eq!(ExitCommand.description(), "exits shell with given exit status");
    assert_eq!(PwdCommand.description(), "Print the current working directory");
    assert_eq!(TypeCommand.description(), "Show if command is built-in");
}
