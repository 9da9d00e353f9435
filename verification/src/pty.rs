//! What running a shell on a pseudo terminal decides: how the shell is
//! started, what the errors say, and which events reach the frontend.
//!
//! The pseudo terminal itself (opening it, spawning the child, reading and
//! writing) belongs to the caller; this module hands it plain values.
use vstd::prelude::*;

use crate::protocol::{clamp_size, TerminalSize};
use crate::utf8::{decode_stream, Utf8Stream, REPLACEMENT};

verus! {

#[verifier::external_type_specification]
#[verifier::external_body]
pub struct ExPathBuf(std::path::PathBuf);

/// Why a pseudo-terminal operation failed. Each variant carries the
/// underlying error's message.
#[derive(Debug, Clone, PartialEq, Eq)]
pub enum PtyError {
    OpenPty(String),
    Spawn { shell: String, reason: String },
    Write(String),
    Resize(String),
}

/// What a `PtyError` says to a user.
pub open spec fn pty_error_text(e: PtyError) -> Seq<char> {
    match e {
        PtyError::OpenPty(m) => "failed to open a pseudo terminal: "@ + m@,
        PtyError::Spawn { shell, reason } => "failed to spawn `"@ + shell@ + "`: "@ + reason@,
        PtyError::Write(m) => "failed to write to the pseudo terminal: "@ + m@,
        PtyError::Resize(m) => "failed to resize the pseudo terminal: "@ + m@,
    }
}

impl PtyError {
    /// The error's message, as shown to the user.
    pub fn message(&self) -> (s: String)
        ensures
            s@ == pty_error_text(*self),
    {
        match self {
            PtyError::OpenPty(m) => {
                let mut s = String::from_str("failed to open a pseudo terminal: ");
                s.append(m.as_str());
                s
            },
            PtyError::Spawn { shell, reason } => {
                let mut s = String::from_str("failed to spawn `");
                s.append(shell.as_str());
                s.append("`: ");
                s.append(reason.as_str());
                s
            },
            PtyError::Write(m) => {
                let mut s = String::from_str("failed to write to the pseudo terminal: ");
                s.append(m.as_str());
                s
            },
            PtyError::Resize(m) => {
                let mut s = String::from_str("failed to resize the pseudo terminal: ");
                s.append(m.as_str());
                s
            },
        }
    }
}

/// Events produced by a running session, in order.
#[derive(Debug, Clone, PartialEq, Eq)]
pub enum PtyEvent {
    /// Decoded PTY output, ready to hand to xterm.
    Output(String),
    /// The child exited. No further events follow.
    Exit(i32),
}

/// How to start the shell.
#[derive(Debug)]
pub struct PtyConfig {
    /// Defaults to `$SHELL` on Unix and `%COMSPEC%` on Windows.
    pub shell: Option<String>,
    pub args: Vec<String>,
    /// Defaults to the user's home directory.
    pub cwd: Option<std::path::PathBuf>,
    /// Extra variables layered on top of the inherited environment.
    pub env: Vec<(String, String)>,
    pub size: TerminalSize,
    /// Read buffer size. Larger reads mean fewer, bigger frames.
    pub read_buffer_bytes: usize,
}

impl Default for PtyConfig {
    fn default() -> (c: Self)
        ensures
            c.shell is None,
            c.args@.len() == 0,
            c.cwd is None,
            c.env@.len() == 0,
            c.size == (TerminalSize { cols: 80, rows: 24 }),
            c.read_buffer_bytes == 8192,
    {
        PtyConfig {
            shell: None,
            args: Vec::new(),
            cwd: None,
            env: Vec::new(),
            size: TerminalSize::default(),
            read_buffer_bytes: 8192,
        }
    }
}

/// The text of a list of name/value pairs.
pub open spec fn pair_texts(v: Seq<(String, String)>) -> Seq<(Seq<char>, Seq<char>)> {
    v.map_values(|p: (String, String)| (p.0@, p.1@))
}

/// A UTF-8 locale to fall back on when the environment specifies none:
/// `None` when any of `LC_ALL`, `LC_CTYPE`, `LANG` is set to a non-empty
/// value (an explicit choice by the operator always wins), otherwise
/// `LC_CTYPE` set to the UTF-8 locale the platform always has (`UTF-8` on
/// macOS, `C.UTF-8` elsewhere).
///
/// Under `LC_CTYPE=C`, readline treats typed bytes as 8-bit characters, so
/// entering anything non-ASCII rings the bell instead of inserting the text.
pub fn default_locale(
    lc_all: Option<&str>,
    lc_ctype: Option<&str>,
    lang: Option<&str>,
    macos: bool,
) -> (r: Option<(&'static str, &'static str)>)
    ensures
        ({
            let set = |v: Option<&str>| v matches Some(s) && s@.len() > 0;
            if set(lc_all) || set(lc_ctype) || set(lang) {
                r is None
            } else {
                r matches Some(p) && p.0@ == "LC_CTYPE"@ && p.1@ == (if macos {
                    "UTF-8"@
                } else {
                    "C.UTF-8"@
                })
            }
        }),
{
    if is_set(lc_all) || is_set(lc_ctype) || is_set(lang) {
        return None;
    }
    if macos {
        Some(("LC_CTYPE", "UTF-8"))
    } else {
        Some(("LC_CTYPE", "C.UTF-8"))
    }
}

fn is_set(v: Option<&str>) -> (r: bool)
    ensures
        r == (v matches Some(s) && s@.len() > 0),
{
    match v {
        Some(s) => !s.is_empty(),
        None => false,
    }
}

/// Where the shell starts.
#[derive(Debug, PartialEq, Eq)]
pub enum WorkingDir {
    /// The directory the configuration names.
    Given(std::path::PathBuf),
    /// The user's home directory, when the configuration names none.
    Home(std::path::PathBuf),
    /// The server's own working directory (`.`), when neither is known.
    Current,
}

/// Everything needed to start the shell.
pub struct SpawnPlan {
    pub shell: String,
    pub args: Vec<String>,
    pub cwd: WorkingDir,
    /// Variables set for the child, in the order they are applied; a later
    /// one overrides an earlier one of the same name.
    pub env: Vec<(String, String)>,
    /// The geometry the pseudo terminal is opened with.
    pub size: TerminalSize,
    pub read_buffer_bytes: usize,
}

/// Variables every shell gets: programs decide their capabilities from
/// `TERM`, and without it colour and cursor addressing stop working.
pub open spec fn terminal_env() -> Seq<(Seq<char>, Seq<char>)> {
    seq![("TERM"@, "xterm-256color"@), ("COLORTERM"@, "truecolor"@)]
}

fn push_pair(env: &mut Vec<(String, String)>, k: &str, v: &str)
    ensures
        pair_texts(final(env)@) == pair_texts(old(env)@).push((k@, v@)),
{
    env.push((String::from_str(k), String::from_str(v)));
    assert(pair_texts(env@) =~= pair_texts(old(env)@).push((k@, v@)));
}

/// Decides how to start the shell from `config`, with `default_shell` and
/// `home` standing in for what the configuration leaves out, and `locale` the
/// fallback chosen by `default_locale`.
pub fn plan_spawn(
    config: PtyConfig,
    default_shell: String,
    home: Option<std::path::PathBuf>,
    locale: Option<(&str, &str)>,
) -> (plan: SpawnPlan)
    ensures
        plan.shell@ == (match config.shell {
            Some(s) => s@,
            None => default_shell@,
        }),
        plan.args@ == config.args@,
        plan.cwd == (match config.cwd {
            Some(c) => WorkingDir::Given(c),
            None => match home {
                Some(h) => WorkingDir::Home(h),
                None => WorkingDir::Current,
            },
        }),
        pair_texts(plan.env@) == terminal_env() + (match locale {
            Some(l) => seq![(l.0@, l.1@)],
            None => Seq::empty(),
        }) + pair_texts(config.env@),
        plan.size == clamp_size(config.size),
        plan.read_buffer_bytes == config.read_buffer_bytes,
{
    let shell = match config.shell {
        Some(s) => s,
        None => default_shell,
    };
    let cwd = match config.cwd {
        Some(c) => WorkingDir::Given(c),
        None => match home {
            Some(h) => WorkingDir::Home(h),
            None => WorkingDir::Current,
        },
    };
    let mut env: Vec<(String, String)> = Vec::new();
    assert(pair_texts(env@) =~= Seq::<(Seq<char>, Seq<char>)>::empty());
    push_pair(&mut env, "TERM", "xterm-256color");
    push_pair(&mut env, "COLORTERM", "truecolor");
    match locale {
        Some((k, v)) => push_pair(&mut env, k, v),
        None => {},
    }
    let ghost base = pair_texts(env@);
    let extra = config.env;
    let mut i: usize = 0;
    while i < extra.len()
        invariant
            i <= extra@.len(),
            pair_texts(env@) == base + pair_texts(extra@).take(i as int),
        decreases extra@.len() - i,
    {
        let (k, v) = &extra[i];
        push_pair(&mut env, k.as_str(), v.as_str());
        assert(pair_texts(extra@).take(i + 1) =~= pair_texts(extra@).take(i as int).push(
            (k@, v@),
        ));
        i += 1;
    }
    assert(pair_texts(extra@).take(extra@.len() as int) =~= pair_texts(extra@));
    assert(base =~= terminal_env() + (match locale {
        Some(l) => seq![(l.0@, l.1@)],
        None => Seq::empty(),
    }));
    SpawnPlan {
        shell,
        args: config.args,
        cwd,
        env,
        size: config.size.clamped(),
        read_buffer_bytes: config.read_buffer_bytes,
    }
}

/// Size of the buffer PTY reads go into: the configured size, at least 1 KiB.
pub fn read_buffer_len(configured: usize) -> (n: usize)
    ensures
        n == (if configured < 1024 {
            1024
        } else {
            configured
        }),
{
    if configured < 1024 {
        1024
    } else {
        configured
    }
}

/// The exit code reported for a child, given how waiting for it went: its
/// status code reinterpreted as signed, or -1 when it could not be reaped.
pub fn exit_code(status: Option<u32>) -> (code: i32)
    ensures
        code == (match status {
            Some(c) => c as i32,
            None => -1i32,
        }),
{
    match status {
        Some(c) => c as i32,
        None => -1,
    }
}

/// Turns the raw reads of a PTY into the events the frontend receives.
pub struct OutputPump {
    decoder: Utf8Stream,
}

impl View for OutputPump {
    type V = Seq<u8>;

    /// The bytes of a partial character held back between reads.
    closed spec fn view(&self) -> Seq<u8> {
        self.decoder@
    }
}

impl OutputPump {
    pub fn new() -> (p: Self)
        ensures
            p@ == Seq::<u8>::empty(),
    {
        OutputPump { decoder: Utf8Stream::new() }
    }

    /// A read of `chunk`: the output event to forward, when it decoded to
    /// any text. Nothing is forwarded for a read that only held bytes back.
    pub fn on_read(&mut self, chunk: &[u8]) -> (ev: Option<PtyEvent>)
        ensures
            final(self)@ == decode_stream(old(self)@ + chunk@).1,
            decode_stream(old(self)@ + chunk@).0.len() == 0 ==> ev is None,
            decode_stream(old(self)@ + chunk@).0.len() > 0 ==> (ev matches Some(PtyEvent::Output(t))
                && t@ == decode_stream(old(self)@ + chunk@).0),
    {
        let text = self.decoder.push(chunk);
        if text.as_str().is_empty() {
            None
        } else {
            Some(PtyEvent::Output(text))
        }
    }

    /// End of output: a dangling partial character becomes one U+FFFD,
    /// forwarded before the exit event.
    pub fn on_end(&mut self) -> (ev: Option<PtyEvent>)
        ensures
            final(self)@ == Seq::<u8>::empty(),
            old(self)@.len() == 0 ==> ev is None,
            old(self)@.len() > 0 ==> (ev matches Some(PtyEvent::Output(t)) && t@ == seq![REPLACEMENT]),
    {
        let text = self.decoder.finish();
        if text.as_str().is_empty() {
            None
        } else {
            Some(PtyEvent::Output(text))
        }
    }
}

} // verus!
