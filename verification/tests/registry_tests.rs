use shell_core::registry::{register_all, BuiltinKind, CommandRegistry, Resolution};

#[test]
fn empty_registry_finds_nothing() {
    let reg = CommandRegistry::new();
    assert_eq!(reg.get("echo"), None);
}

#[test]
fn register_all_registers_the_ordinary_builtins() {
    let mut reg = CommandRegistry::new();
    register_all(&mut reg);
    assert_eq!(reg.get("exit"), Some(BuiltinKind::Exit));
    assert_eq!(reg.get("echo"), Some(BuiltinKind::Echo));
    assert_eq!(reg.get("pwd"), Some(BuiltinKind::Pwd));
    assert_eq!(reg.get("cd"), None);
    assert_eq!(reg.get("type"), None);
}

#[test]
fn registration_is_keyed_by_handler_name() {
    let mut reg = CommandRegistry::new();
    reg.register(BuiltinKind::Type);
    assert_eq!(reg.get("type"), Some(BuiltinKind::Type));
    assert_eq!(reg.get("Type"), None);
}

#[test]
fn builtin_takes_precedence_over_path() {
    // Registering a builtin named echo causes echo to resolve to the
    // builtin even when an executable of that name exists on the path.
    let mut reg = CommandRegistry::new();
    register_all(&mut reg);
    assert_eq!(
        reg.resolve("echo", true),
        Resolution::Builtin(BuiltinKind::Echo)
    );
    assert_eq!(
        reg.resolve("echo", false),
        Resolution::Builtin(BuiltinKind::Echo)
    );
}

#[test]
fn unregistered_name_falls_back_to_path() {
    let mut reg = CommandRegistry::new();
    register_all(&mut reg);
    assert_eq!(reg.resolve("ls", true), Resolution::External);
    assert_eq!(reg.resolve("ls", false), Resolution::NotFound);
}

#[test]
fn handler_names() {
    assert_eq!(BuiltinKind::Cd.name(), "cd");
    assert_eq!(BuiltinKind::Echo.name(), "echo");
    assert_eq!(BuiltinKind::Exit.name(), "exit");
    assert_eq!(BuiltinKind::Pwd.name(), "pwd");
    assert_eq!(BuiltinKind::Type.name(), "type");
    assert!(BuiltinKind::Echo.is_builtin());
}
