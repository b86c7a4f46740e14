//! The handler process to start: program, arguments, environment overrides
//! and the treatment of its standard streams.

use vstd::prelude::*;

verus! {

/// What a standard stream of the handler process is connected to.
#[derive(Clone, Copy, Debug, PartialEq, Eq, Structural)]
pub enum StdioMode {
    /// Shared with the proxy's own process.
    Inherit,
    /// A pipe that the proxy can read from or write to.
    Piped,
    /// Discarded, or empty for input.
    Null,
}

/// The environment that a list of overrides sets, applied in order: a later
/// value for a variable replaces an earlier one.
pub open spec fn overrides_map(entries: Seq<(String, String)>) -> Map<Seq<char>, Seq<char>>
    decreases entries.len(),
{
    if entries.len() == 0 {
        Map::empty()
    } else {
        overrides_map(entries.drop_last()).insert(entries.last().0@, entries.last().1@)
    }
}

/// The description of the handler process.
#[derive(Clone, Debug, PartialEq, Eq)]
pub struct HandlerCommand {
    /// The program to run.
    pub program: String,
    /// Its arguments, after the program name.
    pub args: Vec<String>,
    /// Environment variables set for it, in the order they were given.
    pub envs: Vec<(String, String)>,
    pub stdin: StdioMode,
    pub stdout: StdioMode,
    pub stderr: StdioMode,
}

impl HandlerCommand {
    /// The environment overrides, as a map from name to value.
    pub open spec fn env_map(&self) -> Map<Seq<char>, Seq<char>> {
        overrides_map(self.envs@)
    }

    /// A command that runs `program` with no arguments, no overrides and
    /// inherited streams.
    pub fn new(program: String) -> (r: Self)
        ensures
            r.program@ == program@,
            r.args@.len() == 0,
            r.envs@.len() == 0,
            r.env_map() == Map::<Seq<char>, Seq<char>>::empty(),
            r.stdin == StdioMode::Inherit,
            r.stdout == StdioMode::Inherit,
            r.stderr == StdioMode::Inherit,
    {
        HandlerCommand {
            program,
            args: Vec::new(),
            envs: Vec::new(),
            stdin: StdioMode::Inherit,
            stdout: StdioMode::Inherit,
            stderr: StdioMode::Inherit,
        }
    }

    /// Adds one argument at the end.
    pub fn arg(&mut self, arg: String)
        ensures
            final(self).args@ == old(self).args@.push(arg),
            final(self).program == old(self).program,
            final(self).envs == old(self).envs,
            final(self).stdin == old(self).stdin,
            final(self).stdout == old(self).stdout,
            final(self).stderr == old(self).stderr,
    {
        self.args.push(arg);
    }

    /// Sets the variable `key` to `value` in the handler's environment,
    /// replacing any value given for it before.
    pub fn env(&mut self, key: String, value: String)
        ensures
            final(self).envs@ == old(self).envs@.push((key, value)),
            final(self).env_map() == old(self).env_map().insert(key@, value@),
            final(self).program == old(self).program,
            final(self).args == old(self).args,
            final(self).stdin == old(self).stdin,
            final(self).stdout == old(self).stdout,
            final(self).stderr == old(self).stderr,
    {
        let ghost before = self.envs@;
        self.envs.push((key, value));
        assert(self.envs@.drop_last() =~= before);
    }

    /// Connects the handler's standard input.
    pub fn set_stdin(&mut self, mode: StdioMode)
        ensures
            *final(self) == (HandlerCommand { stdin: mode, ..*old(self) }),
    {
        self.stdin = mode;
    }

    /// Connects the handler's standard output.
    pub fn set_stdout(&mut self, mode: StdioMode)
        ensures
            *final(self) == (HandlerCommand { stdout: mode, ..*old(self) }),
    {
        self.stdout = mode;
    }

    /// Connects the handler's standard error.
    pub fn set_stderr(&mut self, mode: StdioMode)
        ensures
            *final(self) == (HandlerCommand { stderr: mode, ..*old(self) }),
    {
        self.stderr = mode;
    }

    /// The value that the overrides give to `key`, if any.
    pub fn env_value(&self, key: &String) -> (r: Option<&String>)
        ensures
            r matches Some(v) ==> self.env_map().contains_key(key@) && v@ == self.env_map()[key@],
            r is None ==> !self.env_map().contains_key(key@),
    {
        let mut i: usize = self.envs.len();
        while i > 0
            invariant
                i <= self.envs@.len(),
                forall|j: int| i <= j < self.envs@.len() ==> (#[trigger] self.envs@[j]).0@ != key@,
            decreases i,
        {
            if self.envs[i - 1].0 == *key {
                proof {
                    let prefix = self.envs@.subrange(0, i as int);
                    assert(prefix.drop_last() =~= self.envs@.subrange(0, i - 1));
                    assert(prefix.last() == self.envs@[i - 1]);
                    lemma_later_entries_keep(self.envs@, i as int, key@);
                }
                return Some(&self.envs[i - 1].1);
            }
            i = i - 1;
        }
        proof {
            assert(self.envs@.subrange(0, 0) =~= Seq::<(String, String)>::empty());
            lemma_later_entries_keep(self.envs@, 0, key@);
        }
        None
    }
}

/// Entries after position `i` that do not set `key` leave its value as the
/// first `i` entries gave it.
proof fn lemma_later_entries_keep(entries: Seq<(String, String)>, i: int, key: Seq<char>)
    requires
        0 <= i <= entries.len(),
        forall|j: int| i <= j < entries.len() ==> (#[trigger] entries[j]).0@ != key,
    ensures
        overrides_map(entries).contains_key(key) == overrides_map(
            entries.subrange(0, i),
        ).contains_key(key),
        overrides_map(entries.subrange(0, i)).contains_key(key) ==> overrides_map(entries)[key]
            == overrides_map(entries.subrange(0, i))[key],
    decreases entries.len() - i,
{
    if i < entries.len() {
        lemma_later_entries_keep(entries.drop_last(), i, key);
        assert(entries.drop_last().subrange(0, i) =~= entries.subrange(0, i));
        assert(entries.last() == entries[entries.len() - 1]);
    } else {
        assert(entries.subrange(0, i) =~= entries);
    }
}

} // verus!
