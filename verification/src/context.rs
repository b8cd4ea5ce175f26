//! The I/O context threaded through every command invocation: three logical
//! stream handles plus a string-keyed environment mapping.
//!
//! A stream handle is modelled as plain data: the inherited standard
//! streams, a numbered file-backed handle (the surrounding program owns the
//! table from numbers to open files), or the null sink. The engine's
//! swap/restore reasoning needs nothing more than handle identity.

use vstd::prelude::*;
use vstd::string::StrSliceExecFns;

use crate::text::str_eq;

verus! {

/// One logical stream handle. `File(n)` names an open file by number.
#[derive(Debug, Clone, Copy, PartialEq, Eq, Structural)]
pub enum IoHandle {
    Stdin,
    Stdout,
    Stderr,
    File(u64),
    Null,
}

/// One binding of the environment mapping.
pub struct EnvEntry {
    pub key: String,
    pub value: String,
}

/// The value bound to `k`, taking the latest binding when a key was bound
/// more than once.
pub open spec fn env_lookup(entries: Seq<EnvEntry>, k: Seq<char>) -> Option<Seq<char>>
    decreases entries.len(),
{
    if entries.len() == 0 {
        None
    } else if entries.last().key@ == k {
        Some(entries.last().value@)
    } else {
        env_lookup(entries.drop_last(), k)
    }
}

/// The environment mapping: string keys, case-sensitive, keys observably
/// unique (the latest binding for a key wins), insertion order irrelevant.
pub struct EnvMap {
    pub entries: Vec<EnvEntry>,
}

impl EnvMap {
    /// The value currently bound to `k`.
    pub open spec fn spec_get(&self, k: Seq<char>) -> Option<Seq<char>> {
        env_lookup(self.entries@, k)
    }

    /// An empty environment: no key is bound.
    pub fn new() -> (r: Self)
        ensures
            forall|k: Seq<char>| r.spec_get(k) is None,
    {
        let r = EnvMap { entries: Vec::new() };
        proof {
            assert(forall|k: Seq<char>| env_lookup(r.entries@, k) is None);
        }
        r
    }

    /// Binds `key` to `value`, replacing any earlier binding of `key` and
    /// leaving every other key unchanged.
    pub fn insert(&mut self, key: String, value: String)
        ensures
            forall|k: Seq<char>|
                final(self).spec_get(k) == if k == key@ {
                    Some(value@)
                } else {
                    old(self).spec_get(k)
                },
    {
        let ghost key_view = key@;
        let ghost value_view = value@;
        let ghost entries0 = self.entries@;
        self.entries.push(EnvEntry { key, value });
        proof {
            assert forall|k: Seq<char>|
                env_lookup(self.entries@, k) == (if k == key_view {
                    Some(value_view)
                } else {
                    env_lookup(entries0, k)
                }) by {
                assert(self.entries@.drop_last() =~= entries0);
            }
        }
    }

    /// Looks up `key`, returning a reference to the latest bound value.
    pub fn get(&self, key: &str) -> (r: Option<&String>)
        ensures
            match r {
                Some(v) => self.spec_get(key@) == Some(v@),
                None => self.spec_get(key@) is None,
            },
    {
        let n = self.entries.len();
        let mut j = n;
        proof {
            assert(self.entries@.take(n as int) =~= self.entries@);
        }
        while j > 0
            invariant
                j <= n,
                n == self.entries@.len(),
                env_lookup(self.entries@.take(j as int), key@) == env_lookup(
                    self.entries@,
                    key@,
                ),
        decreases j,
        {
            let entry = &self.entries[j - 1];
            if str_eq(entry.key.as_str(), key) {
                proof {
                    assert(self.entries@.take(j as int).last() == self.entries@[j - 1]);
                }
                return Some(&self.entries[j - 1].value);
            }
            proof {
                assert(self.entries@.take(j as int).last() == self.entries@[j - 1]);
                assert(self.entries@.take(j as int).drop_last() =~= self.entries@.take(
                    j - 1,
                ));
            }
            j = j - 1;
        }
        proof {
            assert(self.entries@.take(0).len() == 0);
        }
        None
    }
}

/// The mutable bundle of three streams and the environment mapping, created
/// once at process start and threaded through every command invocation.
pub struct CommandContext {
    pub stdin: IoHandle,
    pub stdout: IoHandle,
    pub stderr: IoHandle,
    pub env: EnvMap,
}

} // verus!
