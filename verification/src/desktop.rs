//! The desktop window's terminal: the same PTY backend, reached over local
//! IPC commands instead of a WebSocket. The window holds at most one shell.
//!
//! The host runs the commands: it hands each one here, performs the action
//! that comes back on its PTY session, and reports how spawning went.
use vstd::prelude::*;

use crate::protocol::{clamp_size, TerminalSize};
use crate::pty::{pty_error_text, PtyError, PtyEvent};

verus! {

/// Event the window listens on for terminal output.
pub const EVENT_OUTPUT: &'static str = "pty://output";

/// Event the window listens on for the shell's exit.
pub const EVENT_EXIT: &'static str = "pty://exit";

/// Answer to a command when the shared terminal state is unusable.
pub const POISONED: &'static str = "pty state is poisoned";

/// Answer to a write when no terminal is open.
pub const NO_SESSION: &'static str = "no terminal session is open";

/// A command from the window.
pub enum DesktopCommand {
    /// Open a terminal of this size, replacing any open one.
    Open { cols: u16, rows: u16 },
    /// Type into the terminal.
    Write(String),
    /// Follow the window's size.
    Resize { cols: u16, rows: u16 },
    /// Close the terminal.
    Close,
}

/// What the host does for a command.
pub enum DesktopAction {
    /// Drop the open session, if any (which kills its shell), then spawn a
    /// new one of this size and report how that went.
    Spawn(TerminalSize),
    /// Write to the open session and answer with the outcome.
    Write(String),
    /// Resize the open session and answer with the outcome.
    Resize(TerminalSize),
    /// Drop the open session, if any, and answer `Ok`.
    Drop,
    /// Answer at once.
    Reply(Result<(), String>),
}

/// What the window is told once a terminal is open.
pub struct PtyReady {
    pub shell: String,
    pub cols: u16,
    pub rows: u16,
}

/// Whether the window has a terminal open, and the size it last asked for.
pub struct DesktopSlot {
    open: bool,
    requested: TerminalSize,
}

impl DesktopSlot {
    pub closed spec fn is_open_spec(&self) -> bool {
        self.open
    }

    /// The size of the last terminal the window asked to open.
    pub closed spec fn requested_size(&self) -> TerminalSize {
        self.requested
    }

    /// No terminal yet.
    pub fn new() -> (s: Self)
        ensures
            !s.is_open_spec(),
            s.requested_size() == (TerminalSize { cols: 80, rows: 24 }),
    {
        DesktopSlot { open: false, requested: TerminalSize::new(80, 24) }
    }

    pub fn is_open(&self) -> (r: bool)
        ensures
            r == self.is_open_spec(),
    {
        self.open
    }

    /// Decides what a command does. Reopening replaces the previous shell
    /// rather than leaking it; a resize that races ahead of opening is
    /// dropped quietly, since the shell picks up the real size from the
    /// next one; a write with nothing open is an error.
    pub fn on_command(&mut self, command: DesktopCommand) -> (a: DesktopAction)
        ensures
            match command {
                DesktopCommand::Open { cols, rows } => {
                    &&& a matches DesktopAction::Spawn(s)
                    &&& s == (TerminalSize { cols, rows })
                    &&& !final(self).is_open_spec()
                    &&& final(self).requested_size() == s
                },
                DesktopCommand::Write(d) => {
                    &&& *final(self) == *old(self)
                    &&& old(self).is_open_spec() ==> (a matches DesktopAction::Write(x) && x == d)
                    &&& !old(self).is_open_spec() ==> (a matches DesktopAction::Reply(Err(m)) && m@
                        == NO_SESSION@)
                },
                DesktopCommand::Resize { cols, rows } => {
                    &&& *final(self) == *old(self)
                    &&& old(self).is_open_spec() ==> (a matches DesktopAction::Resize(s) && s == (
                    TerminalSize { cols, rows }))
                    &&& !old(self).is_open_spec() ==> (a matches DesktopAction::Reply(Ok(())))
                },
                DesktopCommand::Close => {
                    &&& a matches DesktopAction::Drop
                    &&& !final(self).is_open_spec()
                    &&& final(self).requested_size() == old(self).requested_size()
                },
            },
    {
        match command {
            DesktopCommand::Open { cols, rows } => {
                let size = TerminalSize::new(cols, rows);
                self.open = false;
                self.requested = size;
                DesktopAction::Spawn(size)
            },
            DesktopCommand::Write(d) => {
                if self.open {
                    DesktopAction::Write(d)
                } else {
                    DesktopAction::Reply(Err(NO_SESSION.to_owned()))
                }
            },
            DesktopCommand::Resize { cols, rows } => {
                if self.open {
                    DesktopAction::Resize(TerminalSize::new(cols, rows))
                } else {
                    DesktopAction::Reply(Ok(()))
                }
            },
            DesktopCommand::Close => {
                self.open = false;
                DesktopAction::Drop
            },
        }
    }

    /// How spawning went, given the shell that was started or why it
    /// failed: the terminal is open exactly when it succeeded. Success is
    /// answered with the shell and the size the terminal really has, the
    /// requested one clamped into the range the PTY accepts; a failure with
    /// its message.
    pub fn on_spawned(&mut self, result: Result<String, PtyError>) -> (r: Result<
        PtyReady,
        String,
    >)
        ensures
            final(self).is_open_spec() == result is Ok,
            final(self).requested_size() == old(self).requested_size(),
            match result {
                Ok(shell) => r matches Ok(x) && x.shell@ == shell@ && x.cols == clamp_size(
                    old(self).requested_size(),
                ).cols && x.rows == clamp_size(old(self).requested_size()).rows,
                Err(e) => r matches Err(m) && m@ == pty_error_text(e),
            },
    {
        match result {
            Ok(shell) => {
                self.open = true;
                let size = self.requested.clamped();
                Ok(PtyReady { shell, cols: size.cols, rows: size.rows })
            },
            Err(e) => {
                self.open = false;
                Err(e.message())
            },
        }
    }
}

/// The answer to a write or resize that reached the session.
pub fn io_reply(result: Result<(), PtyError>) -> (r: Result<(), String>)
    ensures
        match result {
            Ok(()) => r is Ok,
            Err(e) => r matches Err(m) && m@ == pty_error_text(e),
        },
{
    match result {
        Ok(()) => Ok(()),
        Err(e) => Err(e.message()),
    }
}

/// The window event a PTY event is forwarded as.
pub fn event_name(event: &PtyEvent) -> (name: &'static str)
    ensures
        name@ == (match *event {
            PtyEvent::Output(_) => EVENT_OUTPUT@,
            PtyEvent::Exit(_) => EVENT_EXIT@,
        }),
{
    match event {
        PtyEvent::Output(_) => EVENT_OUTPUT,
        PtyEvent::Exit(_) => EVENT_EXIT,
    }
}

} // verus!
