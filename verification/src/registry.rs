//! The registry: a name-indexed table of builtin command handlers, offering
//! lookup and resolution. Keys are observably unique — the last registration
//! for a name wins. Resolution precedence is fixed: builtin, then external
//! executable on the search path, then not-found.

use vstd::prelude::*;
use vstd::string::StrSliceExecFns;

use crate::text::str_eq;

verus! {

/// The closed set of builtin command handlers.
#[derive(Debug, Clone, Copy, PartialEq, Eq, Structural)]
pub enum BuiltinKind {
    Cd,
    Echo,
    Exit,
    Pwd,
    Type,
}

impl BuiltinKind {
    /// The unique name a handler registers under.
    pub open spec fn spec_name(self) -> Seq<char> {
        match self {
            BuiltinKind::Cd => "cd"@,
            BuiltinKind::Echo => "echo"@,
            BuiltinKind::Exit => "exit"@,
            BuiltinKind::Pwd => "pwd"@,
            BuiltinKind::Type => "type"@,
        }
    }

    /// The handler's registration name.
    pub fn name(&self) -> (r: &'static str)
        ensures
            r@ == self.spec_name(),
    {
        match self {
            BuiltinKind::Cd => "cd",
            BuiltinKind::Echo => "echo",
            BuiltinKind::Exit => "exit",
            BuiltinKind::Pwd => "pwd",
            BuiltinKind::Type => "type",
        }
    }

    /// Every handler in the closed set is implemented in-process; none
    /// disclaims precedence over an external executable.
    pub fn is_builtin(&self) -> (r: bool)
        ensures
            r,
    {
        true
    }
}

/// One registration: the name it was made under and the handler.
pub struct RegistryEntry {
    pub name: String,
    pub cmd: BuiltinKind,
}

/// The handler registered under `name`, taking the latest registration when
/// a name was registered more than once.
pub open spec fn reg_lookup(entries: Seq<RegistryEntry>, name: Seq<char>) -> Option<BuiltinKind>
    decreases entries.len(),
{
    if entries.len() == 0 {
        None
    } else if entries.last().name@ == name {
        Some(entries.last().cmd)
    } else {
        reg_lookup(entries.drop_last(), name)
    }
}

/// How a command name resolves: an in-process builtin, an external
/// executable found on the search path, or nothing.
#[derive(Debug, Clone, Copy, PartialEq, Eq, Structural)]
pub enum Resolution {
    Builtin(BuiltinKind),
    External,
    NotFound,
}

/// The name-indexed table of builtin handlers.
pub struct CommandRegistry {
    pub commands: Vec<RegistryEntry>,
}

impl CommandRegistry {
    /// The handler currently registered under `name`.
    pub open spec fn spec_get(&self, name: Seq<char>) -> Option<BuiltinKind> {
        reg_lookup(self.commands@, name)
    }

    /// How `name` resolves, given whether the search path holds an
    /// executable of that name: builtin first, then external, then nothing.
    pub open spec fn spec_resolve(&self, name: Seq<char>, on_path: bool) -> Resolution {
        match self.spec_get(name) {
            Some(b) => Resolution::Builtin(b),
            None => if on_path {
                Resolution::External
            } else {
                Resolution::NotFound
            },
        }
    }

    /// An empty registry: no name is registered.
    pub fn new() -> (r: Self)
        ensures
            forall|name: Seq<char>| r.spec_get(name) is None,
    {
        let r = CommandRegistry { commands: Vec::new() };
        proof {
            assert(forall|name: Seq<char>| reg_lookup(r.commands@, name) is None);
        }
        r
    }

    /// Registers a handler under its own name; a later registration for the
    /// same name wins, every other name is unchanged.
    pub fn register(&mut self, cmd: BuiltinKind)
        ensures
            forall|name: Seq<char>|
                final(self).spec_get(name) == if name == cmd.spec_name() {
                    Some(cmd)
                } else {
                    old(self).spec_get(name)
                },
    {
        let ghost entries0 = self.commands@;
        let name = cmd.name().to_owned();
        self.commands.push(RegistryEntry { name, cmd });
        proof {
            assert forall|k: Seq<char>|
                reg_lookup(self.commands@, k) == (if k == cmd.spec_name() {
                    Some(cmd)
                } else {
                    reg_lookup(entries0, k)
                }) by {
                assert(self.commands@.drop_last() =~= entries0);
            }
        }
    }

    /// Looks up the handler registered under `name`.
    pub fn get(&self, name: &str) -> (r: Option<BuiltinKind>)
        ensures
            r == self.spec_get(name@),
    {
        let n = self.commands.len();
        let mut j = n;
        proof {
            assert(self.commands@.take(n as int) =~= self.commands@);
        }
        while j > 0
            invariant
                j <= n,
                n == self.commands@.len(),
                reg_lookup(self.commands@.take(j as int), name@) == reg_lookup(
                    self.commands@,
                    name@,
                ),
            decreases j,
        {
            let entry = &self.commands[j - 1];
            if str_eq(entry.name.as_str(), name) {
                proof {
                    assert(self.commands@.take(j as int).last() == self.commands@[j - 1]);
                }
                return Some(entry.cmd);
            }
            proof {
                assert(self.commands@.take(j as int).last() == self.commands@[j - 1]);
                assert(self.commands@.take(j as int).drop_last() =~= self.commands@.take(
                    j - 1,
                ));
            }
            j = j - 1;
        }
        proof {
            assert(self.commands@.take(0).len() == 0);
        }
        None
    }

    /// Resolves a command name against the registry and the search path.
    pub fn resolve(&self, name: &str, on_path: bool) -> (r: Resolution)
        ensures
            r == self.spec_resolve(name@, on_path),
    {
        match self.get(name) {
            Some(b) => Resolution::Builtin(b),
            None => if on_path {
                Resolution::External
            } else {
                Resolution::NotFound
            },
        }
    }
}

/// Dispatch precedence: a registered name always resolves to its builtin,
/// even when an external executable of the same name exists on the search
/// path.
pub proof fn lemma_builtin_precedence(reg: &CommandRegistry, name: Seq<char>, b: BuiltinKind)
    requires
        reg.spec_get(name) == Some(b),
    ensures
        forall|on_path: bool| reg.spec_resolve(name, on_path) == Resolution::Builtin(b),
{
}

/// Registers the ordinary builtins: exit, echo and pwd, in that order.
pub fn register_all(registry: &mut CommandRegistry)
    ensures
        final(registry).spec_get("exit"@) == Some(BuiltinKind::Exit),
        final(registry).spec_get("echo"@) == Some(BuiltinKind::Echo),
        final(registry).spec_get("pwd"@) == Some(BuiltinKind::Pwd),
        forall|name: Seq<char>|
            name != "exit"@ && name != "echo"@ && name != "pwd"@ ==> final(registry).spec_get(
                name,
            ) == old(registry).spec_get(name),
{
    proof {
        reveal_strlit("exit");
        reveal_strlit("echo");
        reveal_strlit("pwd");
        assert("exit"@.len() == 4 && "echo"@.len() == 4 && "pwd"@.len() == 3);
        assert("exit"@[1] == 'x' && "echo"@[1] == 'c');
        assert("exit"@ != "echo"@ && "exit"@ != "pwd"@ && "echo"@ != "pwd"@);
    }
    registry.register(BuiltinKind::Exit);
    registry.register(BuiltinKind::Echo);
    registry.register(BuiltinKind::Pwd);
}

} // verus!
