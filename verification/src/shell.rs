//! The session bookkeeping of the shell process I/O pump.
//!
//! The pump itself — spawning the child, wiring its three byte streams to
//! channels — is asynchronous I/O and lives with the surrounding
//! application. This module holds every decision the pump makes: whether a
//! session may start and with what command, arguments and environment; what
//! bytes an input or a resize pushes towards the child; and which event each
//! observation of the child becomes. Each decision is a function from plain
//! values to plain values, with its contract.
use vstd::prelude::*;

use crate::errors::LiminalError;

verus! {

use vstd::string::StrSliceExecFns;
use vstd::string::StringExecFns;
use vstd::string::StringSliceAdditionalSpecFns;

broadcast use vstd::string::group_string_axioms;

/// An event observed on a shell session's output channel.
#[derive(Debug, Clone, PartialEq, Eq)]
pub enum ShellEvent {
    /// A non-empty chunk read from the child's stdout or stderr.
    Output(Vec<u8>),
    /// A read or wait failure, with its rendered cause.
    Error(String),
    /// The child exited with this code; always the last event of a session.
    Exit(i32),
}

/// Everything the surrounding application needs to spawn one shell process:
/// the executable, its arguments, the working directory, and the
/// environment overrides to apply in order (later entries win).
#[derive(Debug)]
pub struct SpawnRequest {
    pub command: String,
    pub args: Vec<String>,
    pub working_directory: String,
    pub env: Vec<(String, String)>,
}

/// `s` ends in `suffix`.
pub open spec fn spec_ends_with(s: Seq<char>, suffix: Seq<char>) -> bool {
    suffix.len() <= s.len() && s.subrange(s.len() - suffix.len(), s.len() as int) == suffix
}

/// Whether a string ends with the given suffix, by characters.
pub fn str_ends_with(s: &str, suffix: &str) -> (r: bool)
    ensures
        r == spec_ends_with(s@, suffix@),
{
    let n = s.unicode_len();
    let m = suffix.unicode_len();
    if m > n {
        return false;
    }
    let mut i: usize = 0;
    while i < m
        invariant
            i <= m,
            m <= n,
            n == s@.len(),
            m == suffix@.len(),
            forall|t: int| 0 <= t < i ==> s@[n - m + t] == suffix@[t],
        decreases m - i,
    {
        if s.get_char(n - m + i) != suffix.get_char(i) {
            proof {
                assert(s@.subrange(n - m, n as int)[i as int] != suffix@[i as int]);
            }
            return false;
        }
        i = i + 1;
    }
    proof {
        assert(s@.subrange(n - m, n as int) =~= suffix@);
    }
    true
}

/// The decimal digits of `n`, most significant first, as ASCII bytes.
pub open spec fn spec_dec(n: nat) -> Seq<u8>
    decreases n,
{
    if n < 10 {
        seq![(0x30 + n) as u8]
    } else {
        spec_dec(n / 10).push((0x30 + n % 10) as u8)
    }
}

/// Appends the decimal digits of `n` to `out`.
fn push_dec(n: u16, out: &mut Vec<u8>)
    ensures
        final(out)@ == old(out)@ + spec_dec(n as nat),
    decreases n,
{
    if n < 10 {
        out.push(0x30 + n as u8);
        proof {
            assert(out@ =~= old(out)@ + spec_dec(n as nat));
        }
    } else {
        push_dec(n / 10, out);
        out.push(0x30 + (n % 10) as u8);
        proof {
            assert(out@ =~= old(out)@ + spec_dec(n as nat));
        }
    }
}

/// The line a resize pushes into the running shell: an export of the new
/// `COLUMNS` and `LINES` values, ended by a newline.
pub open spec fn spec_resize_command(cols: u16, rows: u16) -> Seq<u8> {
    "export COLUMNS=".spec_bytes() + spec_dec(cols as nat) + " LINES=".spec_bytes() + spec_dec(
        rows as nat,
    ) + seq![0x0au8]
}

/// The first value bound to `key`, scanning the override list from the
/// front.
pub open spec fn env_lookup(env: Seq<(String, String)>, key: Seq<char>) -> Option<Seq<char>>
    decreases env.len(),
{
    if env.len() == 0 {
        None
    } else if env.first().0@ == key {
        Some(env.first().1@)
    } else {
        env_lookup(env.drop_first(), key)
    }
}

/// A lookup passes over every entry whose key does not match.
proof fn lemma_env_lookup_skip(env: Seq<(String, String)>, key: Seq<char>, i: int)
    requires
        0 <= i <= env.len(),
        forall|j: int| 0 <= j < i ==> (#[trigger] env[j]).0@ != key,
    ensures
        env_lookup(env, key) == env_lookup(env.skip(i), key),
    decreases i,
{
    if i > 0 {
        assert(env[0].0@ != key);
        assert forall|j: int| 0 <= j < i - 1 implies (#[trigger] env.drop_first()[j]).0@ != key by {
            assert(env.drop_first()[j] == env[j + 1]);
        }
        lemma_env_lookup_skip(env.drop_first(), key, i - 1);
        assert(env.drop_first().skip(i - 1) =~= env.skip(i));
    } else {
        assert(env.skip(0) =~= env);
    }
}

/// Rebinding the entry at `i`, whose key is `key`, changes no other key's
/// binding.
proof fn lemma_env_lookup_update_other(
    env: Seq<(String, String)>,
    i: int,
    pair: (String, String),
    k: Seq<char>,
)
    requires
        0 <= i < env.len(),
        env[i].0@ == pair.0@,
        k != pair.0@,
    ensures
        env_lookup(env.update(i, pair), k) == env_lookup(env, k),
    decreases i,
{
    let updated = env.update(i, pair);
    if i == 0 {
        assert(updated.drop_first() =~= env.drop_first());
    } else {
        assert(updated.first() == env.first());
        assert(updated.drop_first() =~= env.drop_first().update(i - 1, pair));
        lemma_env_lookup_update_other(env.drop_first(), i - 1, pair, k);
    }
}

/// Binds `key` to `value` in an override list: the first entry with that key
/// is replaced, or a new entry is appended. Afterwards `key` resolves to
/// `value` and every other key resolves as before.
fn env_set(env: &mut Vec<(String, String)>, key: String, value: String)
    ensures
        env_lookup(final(env)@, key@) == Some::<Seq<char>>(value@),
        forall|k: Seq<char>|
            k != key@ ==> #[trigger] env_lookup(final(env)@, k) == env_lookup(old(env)@, k),
        final(env)@.len() <= old(env)@.len() + 1,
{
    let n = env.len();
    let mut i: usize = 0;
    while i < n
        invariant
            i <= n,
            n == env@.len(),
            env == old(env),
            forall|j: int| 0 <= j < i ==> (#[trigger] env@[j]).0@ != key@,
        decreases n - i,
    {
        if env[i].0 == key {
            let ghost before = env@;
            env.set(i, (key, value));
            proof {
                assert(forall|j: int| 0 <= j < i ==> (#[trigger] env@[j]).0@ != key@);
                lemma_env_lookup_skip(env@, key@, i as int);
                assert(env@.skip(i as int).first() == env@[i as int]);
                assert(env_lookup(env@, key@) == Some(env@[i as int].1@));
                assert forall|k: Seq<char>| k != key@ implies #[trigger] env_lookup(env@, k)
                    == env_lookup(before, k) by {
                    lemma_env_lookup_update_other(before, i as int, env@[i as int], k);
                    assert(env@ =~= before.update(i as int, env@[i as int]));
                }
            }
            return ;
        }
        i = i + 1;
    }
    let ghost before = env@;
    env.push((key, value));
    proof {
        lemma_env_lookup_skip(env@, key@, n as int);
        assert(env@.skip(n as int) =~= seq![env@[n as int]]);
        assert forall|k: Seq<char>| k != key@ implies #[trigger] env_lookup(env@, k) == env_lookup(
            before,
            k,
        ) by {
            lemma_env_lookup_push_other(before, env@[n as int], k);
        }
    }
}

/// Appending an entry changes no other key's binding.
proof fn lemma_env_lookup_push_other(env: Seq<(String, String)>, pair: (String, String), k: Seq<char>)
    requires
        k != pair.0@,
    ensures
        env_lookup(env.push(pair), k) == env_lookup(env, k),
    decreases env.len(),
{
    if env.len() == 0 {
        assert(env.push(pair).first() == pair);
        assert(env.push(pair).drop_first() =~= Seq::<(String, String)>::empty());
        assert(env_lookup(env.push(pair), k) == env_lookup(env.push(pair).drop_first(), k));
        assert(env_lookup(env.push(pair).drop_first(), k) == None::<Seq<char>>);
        assert(env_lookup(env, k) == None::<Seq<char>>);
    } else {
        assert(env.push(pair).first() == env.first());
        assert(env.push(pair).drop_first() =~= env.drop_first().push(pair));
        lemma_env_lookup_push_other(env.drop_first(), pair, k);
        if env.first().0@ == k {
            assert(env_lookup(env.push(pair), k) == Some(env.first().1@));
            assert(env_lookup(env, k) == Some(env.first().1@));
        } else {
            assert(env_lookup(env.push(pair), k) == env_lookup(env.push(pair).drop_first(), k));
            assert(env_lookup(env, k) == env_lookup(env.drop_first(), k));
        }
    }
}

/// The shell to use: an explicit `SHELL` value when the environment carries
/// one, else the platform fallback.
pub fn detect_shell(shell_var: Option<String>) -> (r: String)
    ensures
        shell_var matches Some(s) ==> r@ == s@,
        shell_var is None ==> r@ == "/bin/bash"@,
{
    match shell_var {
        Some(s) => s,
        None => "/bin/bash".to_owned(),
    }
}

/// The bookkeeping of one shell session: its command, working directory and
/// environment overrides, and whether a session is live. Exactly one session
/// may be active at a time; starting a second one is an error, not a silent
/// replacement.
#[derive(Debug)]
pub struct ShellManager {
    session_active: bool,
    shell_command: String,
    working_directory: String,
    environment_vars: Vec<(String, String)>,
}

impl ShellManager {
    /// The configured shell command.
    pub closed spec fn spec_shell_command(&self) -> Seq<char> {
        self.shell_command@
    }

    /// The configured working directory.
    pub closed spec fn spec_working_directory(&self) -> Seq<char> {
        self.working_directory@
    }

    /// The environment overrides, in the order the child receives them.
    pub closed spec fn spec_env(&self) -> Seq<(String, String)> {
        self.environment_vars@
    }

    /// Whether a session is live.
    pub closed spec fn is_active(&self) -> bool {
        self.session_active
    }

    /// A manager with no live session and no environment overrides.
    pub fn new(shell_command: String, working_directory: String) -> (m: ShellManager)
        ensures
            !m.is_active(),
            m.spec_shell_command() == shell_command@,
            m.spec_working_directory() == working_directory@,
            m.spec_env() =~= Seq::<(String, String)>::empty(),
    {
        ShellManager {
            session_active: false,
            shell_command,
            working_directory,
            environment_vars: Vec::new(),
        }
    }

    /// Starts a session: fails with a `Shell` error, changing nothing, when
    /// one is already live; otherwise marks the session live and returns
    /// what to spawn — the configured command, an interactive flag when the
    /// shell is `bash` or `zsh`, the working directory, and the environment
    /// overrides followed by the forced terminal variables.
    pub fn start_shell(&mut self) -> (r: Result<SpawnRequest, LiminalError>)
        ensures
            old(self).is_active() ==> (r matches Err(LiminalError::Shell(m)) && m@
                == "Shell process already running"@ && *final(self) == *old(self)),
            !old(self).is_active() ==> final(self).is_active() && (r matches Ok(req) && {
                &&& req.command@ == old(self).spec_shell_command()
                &&& req.args@.map_values(|a: String| a@) == spec_interactive_args(
                    old(self).spec_shell_command(),
                )
                &&& req.working_directory@ == old(self).spec_working_directory()
                &&& env_views(req.env@) == env_views(old(self).spec_env())
                    + forced_terminal_env()
            }),
            final(self).spec_shell_command() == old(self).spec_shell_command(),
            final(self).spec_working_directory() == old(self).spec_working_directory(),
            final(self).spec_env() == old(self).spec_env(),
    {
        if self.session_active {
            return Err(LiminalError::Shell("Shell process already running".to_owned()));
        }
        let mut env: Vec<(String, String)> = Vec::new();
        let mut i: usize = 0;
        let n = self.environment_vars.len();
        while i < n
            invariant
                i <= n,
                n == self.environment_vars@.len(),
                self.environment_vars == old(self).environment_vars,
                self.shell_command == old(self).shell_command,
                self.working_directory == old(self).working_directory,
                self.session_active == old(self).session_active,
                env@.len() == i,
                forall|j: int|
                    0 <= j < i ==> ((#[trigger] env@[j]).0@, env@[j].1@) == (
                    self.environment_vars@[j].0@,
                    self.environment_vars@[j].1@,
                ),
            decreases n - i,
        {
            let pair_ref = &self.environment_vars[i];
            let k = pair_ref.0.clone();
            let v = pair_ref.1.clone();
            env.push((k, v));
            i = i + 1;
        }
        env.push(("TERM".to_owned(), "xterm-256color".to_owned()));
        env.push(("COLUMNS".to_owned(), "80".to_owned()));
        env.push(("LINES".to_owned(), "24".to_owned()));
        let mut args: Vec<String> = Vec::new();
        if str_ends_with(self.shell_command.as_str(), "bash") || str_ends_with(
            self.shell_command.as_str(),
            "zsh",
        ) {
            args.push("-i".to_owned());
        }
        self.session_active = true;
        let req = SpawnRequest {
            command: self.shell_command.clone(),
            args,
            working_directory: self.working_directory.clone(),
            env,
        };
        proof {
            assert(req.args@.map_values(|a: String| a@) =~= spec_interactive_args(
                old(self).spec_shell_command(),
            ));
            assert(env_views(req.env@) =~= env_views(old(self).spec_env())
                + forced_terminal_env());
        }
        Ok(req)
    }

    /// Hands back the bytes to enqueue for the child's stdin, unchanged;
    /// fails with a `Shell` error when no session is live.
    pub fn send_input(&self, data: &[u8]) -> (r: Result<Vec<u8>, LiminalError>)
        ensures
            self.is_active() ==> (r matches Ok(d) && d@ == data@),
            !self.is_active() ==> (r matches Err(LiminalError::Shell(m)) && m@
                == "Shell process not running"@),
    {
        if self.session_active {
            let mut out: Vec<u8> = Vec::new();
            let mut i: usize = 0;
            let n = data.len();
            while i < n
                invariant
                    i <= n,
                    n == data@.len(),
                    out@ =~= data@.take(i as int),
                decreases n - i,
            {
                out.push(data[i]);
                i = i + 1;
            }
            proof {
                assert(data@.take(n as int) =~= data@);
            }
            Ok(out)
        } else {
            Err(LiminalError::Shell("Shell process not running".to_owned()))
        }
    }

    /// The bytes a command line sends: the command's bytes followed by a
    /// newline; fails with a `Shell` error when no session is live.
    pub fn send_command(&self, command: &str) -> (r: Result<Vec<u8>, LiminalError>)
        ensures
            self.is_active() ==> (r matches Ok(d) && d@ == command.spec_bytes().push(0x0au8)),
            !self.is_active() ==> (r matches Err(LiminalError::Shell(m)) && m@
                == "Shell process not running"@),
    {
        if self.session_active {
            let mut data = command.as_bytes_vec();
            data.push(0x0a);
            Ok(data)
        } else {
            Err(LiminalError::Shell("Shell process not running".to_owned()))
        }
    }

    /// Whether a session is live.
    pub fn is_running(&self) -> (r: bool)
        ensures
            r == self.is_active(),
    {
        self.session_active
    }

    /// Marks the session as over: the spawn failed, or the child exited. A
    /// new session may then be started.
    pub fn session_ended(&mut self)
        ensures
            !final(self).is_active(),
            final(self).spec_shell_command() == old(self).spec_shell_command(),
            final(self).spec_working_directory() == old(self).spec_working_directory(),
            final(self).spec_env() == old(self).spec_env(),
    {
        self.session_active = false;
    }

    /// Records the new dimensions in the environment overrides for future
    /// sessions and, when a session is live, returns the export line to push
    /// into the running shell as a best-effort resize notification. No real
    /// resize signal reaches the child.
    pub fn resize_terminal(&mut self, cols: u16, rows: u16) -> (r: Result<
        Option<Vec<u8>>,
        LiminalError,
    >)
        ensures
            env_lookup(final(self).spec_env(), "COLUMNS"@) == Some(spec_dec_chars(cols as nat)),
            env_lookup(final(self).spec_env(), "LINES"@) == Some(spec_dec_chars(rows as nat)),
            forall|k: Seq<char>|
                k != "COLUMNS"@ && k != "LINES"@ ==> #[trigger] env_lookup(final(self).spec_env(), k)
                    == env_lookup(old(self).spec_env(), k),
            old(self).is_active() ==> (r matches Ok(Some(d)) && d@ == spec_resize_command(
                cols,
                rows,
            )),
            !old(self).is_active() ==> r == Ok::<Option<Vec<u8>>, LiminalError>(
                None::<Vec<u8>>,
            ),
            final(self).is_active() == old(self).is_active(),
            final(self).spec_shell_command() == old(self).spec_shell_command(),
            final(self).spec_working_directory() == old(self).spec_working_directory(),
    {
        let cols_s = dec_string(cols);
        let rows_s = dec_string(rows);
        env_set(&mut self.environment_vars, "COLUMNS".to_owned(), cols_s);
        env_set(&mut self.environment_vars, "LINES".to_owned(), rows_s);
        proof {
            reveal_strlit("COLUMNS");
            reveal_strlit("LINES");
            assert("COLUMNS"@.len() == 7 && "LINES"@.len() == 5);
            assert("COLUMNS"@ != "LINES"@);
        }
        if self.session_active {
            let mut out = "export COLUMNS=".as_bytes_vec();
            push_dec(cols, &mut out);
            let mut mid = " LINES=".as_bytes_vec();
            out.append(&mut mid);
            push_dec(rows, &mut out);
            out.push(0x0a);
            proof {
                assert(out@ =~= spec_resize_command(cols, rows));
            }
            Ok(Some(out))
        } else {
            Ok(None)
        }
    }

    /// Replaces the working directory for future sessions.
    pub fn set_working_directory(&mut self, path: String)
        ensures
            final(self).spec_working_directory() == path@,
            final(self).spec_shell_command() == old(self).spec_shell_command(),
            final(self).spec_env() == old(self).spec_env(),
            final(self).is_active() == old(self).is_active(),
    {
        self.working_directory = path;
    }

    /// Binds an environment override for future sessions.
    pub fn set_environment_variable(&mut self, key: String, value: String)
        ensures
            env_lookup(final(self).spec_env(), key@) == Some::<Seq<char>>(value@),
            forall|k: Seq<char>|
                k != key@ ==> #[trigger] env_lookup(final(self).spec_env(), k) == env_lookup(
                    old(self).spec_env(),
                    k,
                ),
            final(self).spec_shell_command() == old(self).spec_shell_command(),
            final(self).spec_working_directory() == old(self).spec_working_directory(),
            final(self).is_active() == old(self).is_active(),
    {
        env_set(&mut self.environment_vars, key, value);
    }

    /// The configured shell command.
    pub fn get_shell_command(&self) -> (r: &str)
        ensures
            r@ == self.spec_shell_command(),
    {
        self.shell_command.as_str()
    }

    /// Replaces the shell command for future sessions.
    pub fn set_shell_command(&mut self, command: String)
        ensures
            final(self).spec_shell_command() == command@,
            final(self).spec_working_directory() == old(self).spec_working_directory(),
            final(self).spec_env() == old(self).spec_env(),
            final(self).is_active() == old(self).is_active(),
    {
        self.shell_command = command;
    }
}

/// The interactive flag handed to shells known to take one.
pub open spec fn spec_interactive_args(command: Seq<char>) -> Seq<Seq<char>> {
    if spec_ends_with(command, "bash"@) || spec_ends_with(command, "zsh"@) {
        seq!["-i"@]
    } else {
        Seq::empty()
    }
}

/// An override list as pairs of character sequences.
pub open spec fn env_views(env: Seq<(String, String)>) -> Seq<(Seq<char>, Seq<char>)> {
    env.map_values(|p: (String, String)| (p.0@, p.1@))
}

/// The terminal variables forced into every child: the terminal type
/// indicator and the fixed initial dimensions.
pub open spec fn forced_terminal_env() -> Seq<(Seq<char>, Seq<char>)> {
    seq![("TERM"@, "xterm-256color"@), ("COLUMNS"@, "80"@), ("LINES"@, "24"@)]
}

/// The decimal digits of `n`, most significant first, as characters.
pub open spec fn spec_dec_chars(n: nat) -> Seq<char>
    decreases n,
{
    if n < 10 {
        seq![((0x30 + n) as u8) as char]
    } else {
        spec_dec_chars(n / 10).push(((0x30 + n % 10) as u8) as char)
    }
}

/// The decimal digits of `n` as a string.
fn dec_string(n: u16) -> (r: String)
    ensures
        r@ == spec_dec_chars(n as nat),
    decreases n,
{
    if n < 10 {
        let mut s = String::new();
        push_digit(&mut s, (n % 10) as u8);
        proof {
            assert(s@ =~= spec_dec_chars(n as nat));
        }
        s
    } else {
        let mut s = dec_string(n / 10);
        push_digit(&mut s, (n % 10) as u8);
        proof {
            assert(s@ =~= spec_dec_chars(n as nat));
        }
        s
    }
}

/// Appends one decimal digit character to a string.
fn push_digit(s: &mut String, d: u8)
    requires
        d <= 9,
    ensures
        final(s)@ == old(s)@.push(((0x30 + d) as u8) as char),
{
    let digits = "0123456789";
    proof {
        reveal_strlit("0123456789");
    }
    let part = digits.substring_char(d as usize, d as usize + 1);
    s.append(part);
    proof {
        assert(s@ =~= old(s)@.push(((0x30 + d) as u8) as char));
    }
}

/// The reader tasks forward every non-empty chunk as an output event and
/// stop silently at end of stream.
pub fn forward_chunk(chunk: Vec<u8>) -> (r: Option<ShellEvent>)
    ensures
        chunk@.len() > 0 ==> r == Some(ShellEvent::Output(chunk)),
        chunk@.len() == 0 ==> r is None,
{
    if chunk.len() > 0 {
        Some(ShellEvent::Output(chunk))
    } else {
        None
    }
}

/// The wait task emits exactly one exit event: the child's real exit code,
/// or the conventional `-1` when the platform reports none.
pub fn exit_event(code: Option<i32>) -> (r: ShellEvent)
    ensures
        code matches Some(c) ==> r == ShellEvent::Exit(c),
        code is None ==> r == ShellEvent::Exit(-1i32),
{
    match code {
        Some(c) => ShellEvent::Exit(c),
        None => ShellEvent::Exit(-1),
    }
}

/// The output events a stream of read chunks becomes: one per non-empty
/// chunk, in stream order.
pub open spec fn output_events_of(chunks: Seq<Vec<u8>>) -> Seq<ShellEvent>
    decreases chunks.len(),
{
    if chunks.len() == 0 {
        Seq::empty()
    } else if chunks.last()@.len() > 0 {
        output_events_of(chunks.drop_last()).push(ShellEvent::Output(chunks.last()))
    } else {
        output_events_of(chunks.drop_last())
    }
}

/// One admissible event log of a whole session, given what each stream
/// produced and how the child exited: the non-empty stdout chunks in order,
/// then the non-empty stderr chunks in order, then exactly one exit event.
/// (A live session may interleave the two streams arbitrarily; each stream's
/// own order, and the exit event's final place, are the guarantees.)
pub fn session_event_log(
    stdout_chunks: Vec<Vec<u8>>,
    stderr_chunks: Vec<Vec<u8>>,
    exit_code: i32,
) -> (r: Vec<ShellEvent>)
    ensures
        r@ == output_events_of(stdout_chunks@) + output_events_of(stderr_chunks@) + seq![
            ShellEvent::Exit(exit_code),
        ],
{
    let mut events: Vec<ShellEvent> = Vec::new();
    push_stream_events(&mut events, stdout_chunks);
    push_stream_events(&mut events, stderr_chunks);
    events.push(ShellEvent::Exit(exit_code));
    proof {
        assert(events@ =~= output_events_of(stdout_chunks@) + output_events_of(stderr_chunks@)
            + seq![ShellEvent::Exit(exit_code)]);
    }
    events
}

/// Appends the output events of one stream's chunks.
fn push_stream_events(events: &mut Vec<ShellEvent>, chunks: Vec<Vec<u8>>)
    ensures
        final(events)@ == old(events)@ + output_events_of(chunks@),
{
    let ghost all = chunks@;
    let mut rest = chunks;
    let mut i: usize = 0;
    let n = rest.len();
    while i < n
        invariant
            i <= n,
            n == all.len(),
            rest@ =~= all.skip(i as int),
            events@ == old(events)@ + output_events_of(all.take(i as int)),
        decreases n - i,
    {
        let chunk = rest.remove(0);
        proof {
            assert(chunk == all[i as int]);
            assert(rest@ =~= all.skip(i + 1 as int));
        }
        match forward_chunk(chunk) {
            Some(ev) => {
                events.push(ev);
            },
            None => {},
        }
        proof {
            assert(all.take(i + 1 as int).drop_last() =~= all.take(i as int));
            assert(all.take(i + 1 as int).last() == all[i as int]);
            assert(events@ =~= old(events)@ + output_events_of(all.take(i + 1 as int)));
        }
        i = i + 1;
    }
    proof {
        assert(all.take(n as int) =~= all);
    }
}

/// An immediate end of stream on both stdout and stderr still yields exactly
/// one event: the exit event with the child's real code.
pub proof fn lemma_empty_output_single_exit(
    stdout_chunks: Seq<Vec<u8>>,
    stderr_chunks: Seq<Vec<u8>>,
    exit_code: i32,
)
    requires
        forall|i: int| 0 <= i < stdout_chunks.len() ==> (#[trigger] stdout_chunks[i])@.len() == 0,
        forall|i: int| 0 <= i < stderr_chunks.len() ==> (#[trigger] stderr_chunks[i])@.len() == 0,
    ensures
        output_events_of(stdout_chunks) + output_events_of(stderr_chunks) + seq![
            ShellEvent::Exit(exit_code),
        ] =~= seq![ShellEvent::Exit(exit_code)],
{
    lemma_empty_chunks_no_events(stdout_chunks);
    lemma_empty_chunks_no_events(stderr_chunks);
}

/// Streams of empty chunks produce no output events.
proof fn lemma_empty_chunks_no_events(chunks: Seq<Vec<u8>>)
    requires
        forall|i: int| 0 <= i < chunks.len() ==> (#[trigger] chunks[i])@.len() == 0,
    ensures
        output_events_of(chunks) =~= Seq::<ShellEvent>::empty(),
    decreases chunks.len(),
{
    if chunks.len() > 0 {
        lemma_empty_chunks_no_events(chunks.drop_last());
    }
}

/// Every event of a session log before the last is an output event, and the
/// last is the one exit event: the exit is observed last, exactly once.
pub proof fn lemma_exit_event_last_and_unique(
    stdout_chunks: Seq<Vec<u8>>,
    stderr_chunks: Seq<Vec<u8>>,
    exit_code: i32,
)
    ensures
        ({
            let log = output_events_of(stdout_chunks) + output_events_of(stderr_chunks) + seq![
                ShellEvent::Exit(exit_code),
            ];
            &&& log.len() >= 1
            &&& log.last() == ShellEvent::Exit(exit_code)
            &&& (forall|i: int| 0 <= i < log.len() - 1 ==> (#[trigger] log[i]) is Output)
        }),
{
    lemma_output_events_are_outputs(stdout_chunks);
    lemma_output_events_are_outputs(stderr_chunks);
}

/// What a stream contributes to the log is output events only.
proof fn lemma_output_events_are_outputs(chunks: Seq<Vec<u8>>)
    ensures
        forall|i: int|
            0 <= i < output_events_of(chunks).len() ==> (#[trigger] output_events_of(chunks)[i])
                is Output,
    decreases chunks.len(),
{
    if chunks.len() > 0 {
        lemma_output_events_are_outputs(chunks.drop_last());
    }
}

} // verus!
