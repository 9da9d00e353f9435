//! The decisions of one terminal connection: what each PTY event and each
//! client frame leads to, and how the connection is closed.
//!
//! The caller runs the loop: it waits for whichever comes first, hands the
//! event here, performs the returned action, and reports a failed send or
//! write back.
use vstd::prelude::*;

use crate::protocol::{TerminalSize, CLOSE_NORMAL, CLOSE_SHELL_EXITED, PROTOCOL_VERSION};
use crate::pty::PtyEvent;

verus! {

/// Bytes of randomness in the label that names a terminal session in the
/// logs and in its `ready` frame (twice as many hex digits).
pub const SESSION_LABEL_BYTES: usize = 8;

/// The `ready` frame, sent once right after the shell is spawned.
pub struct ReadyFrame {
    pub protocol_version: u32,
    pub session_id: String,
    pub shell: String,
    pub cols: u16,
    pub rows: u16,
}

/// The `ready` frame for the session labelled `session_id`, running
/// `shell` on a terminal of `size`, under this protocol version.
pub fn ready_frame(session_id: String, shell: &str, size: TerminalSize) -> (f: ReadyFrame)
    ensures
        f.protocol_version == PROTOCOL_VERSION,
        f.session_id@ == session_id@,
        f.shell@ == shell@,
        f.cols == size.cols,
        f.rows == size.rows,
{
    ReadyFrame {
        protocol_version: PROTOCOL_VERSION,
        session_id,
        shell: shell.to_owned(),
        cols: size.cols,
        rows: size.rows,
    }
}

/// A frame from the client, as parsed.
pub enum ClientFrame {
    /// Keystrokes or pasted text typed into the terminal.
    Input(String),
    /// The viewport changed size and the PTY should follow.
    Resize { cols: u16, rows: u16 },
    /// Liveness probe; answered with a pong carrying the same timestamp.
    Ping,
    /// A text frame that is not a valid client message.
    Malformed,
}

/// What arrived on the socket.
pub enum SocketEvent {
    /// A text frame.
    Text(ClientFrame),
    /// A close frame, or the end of the stream.
    Closed,
    /// Any other frame (binary, ping, pong).
    Other,
    /// The socket reported an error.
    Failed,
}

/// What the caller does next.
pub enum LoopAction {
    /// Send an `output` frame; if sending fails, report it.
    SendOutput(String),
    /// Send an `exit` frame, then close: the loop is over.
    SendExit(i32),
    /// Write to the PTY; if writing fails, report it.
    WriteInput(String),
    /// Resize the PTY (it clamps the size); a failure is only logged.
    Resize(TerminalSize),
    /// Answer a ping with a pong carrying its timestamp.
    SendPong,
    /// Nothing to do.
    Ignore,
    /// The loop is over: close the socket.
    Stop,
}

/// Loop state: whether it goes on, and the close code it will end with.
pub struct SessionLoop {
    running: bool,
    close_code: u16,
}

impl SessionLoop {
    /// While the loop runs nothing has set the close code yet; once set, it
    /// is one of the two codes a session can end with.
    #[verifier::type_invariant]
    spec fn close_code_is_consistent(self) -> bool {
        &&& self.running ==> self.close_code == CLOSE_NORMAL
        &&& (self.close_code == CLOSE_NORMAL || self.close_code == CLOSE_SHELL_EXITED)
    }

    pub closed spec fn spec_running(&self) -> bool {
        self.running
    }

    pub closed spec fn spec_close_code(&self) -> u16 {
        self.close_code
    }

    pub fn new() -> (s: Self)
        ensures
            s.spec_running(),
            s.spec_close_code() == CLOSE_NORMAL,
    {
        SessionLoop { running: true, close_code: CLOSE_NORMAL }
    }

    pub fn is_running(&self) -> (r: bool)
        ensures
            r == self.spec_running(),
    {
        self.running
    }

    /// The close code to send once the loop is over: the shell's exit is
    /// reported as such, every other ending as a normal close.
    pub fn close_code(&self) -> (c: u16)
        ensures
            c == self.spec_close_code(),
            c == CLOSE_NORMAL || c == CLOSE_SHELL_EXITED,
            self.spec_running() ==> c == CLOSE_NORMAL,
    {
        proof {
            use_type_invariant(self);
        }
        self.close_code
    }

    /// An event from the PTY, or `None` when its channel is gone.
    pub fn on_pty(&mut self, event: Option<PtyEvent>) -> (a: LoopAction)
        requires
            old(self).spec_running(),
        ensures
            match event {
                Some(PtyEvent::Output(d)) => a matches LoopAction::SendOutput(x) && x == d
                    && *final(self) == *old(self),
                Some(PtyEvent::Exit(c)) => a matches LoopAction::SendExit(x) && x == c
                    && !final(self).spec_running() && final(self).spec_close_code()
                    == CLOSE_SHELL_EXITED,
                None => a matches LoopAction::Stop && !final(self).spec_running()
                    && final(self).spec_close_code() == old(self).spec_close_code(),
            },
    {
        match event {
            Some(PtyEvent::Output(d)) => LoopAction::SendOutput(d),
            Some(PtyEvent::Exit(c)) => {
                *self = SessionLoop { running: false, close_code: CLOSE_SHELL_EXITED };
                LoopAction::SendExit(c)
            },
            None => {
                self.stop();
                LoopAction::Stop
            },
        }
    }

    /// Something from the client. Malformed frames are dropped, never fatal:
    /// a buggy client must not be able to kill the shell.
    pub fn on_socket(&mut self, event: SocketEvent) -> (a: LoopAction)
        requires
            old(self).spec_running(),
        ensures
            final(self).spec_close_code() == old(self).spec_close_code(),
            match event {
                SocketEvent::Text(ClientFrame::Input(d)) => a matches LoopAction::WriteInput(x) && x
                    == d && final(self).spec_running(),
                SocketEvent::Text(ClientFrame::Resize { cols, rows }) => a matches LoopAction::Resize(
                    s,
                ) && s == (TerminalSize { cols, rows }) && final(self).spec_running(),
                SocketEvent::Text(ClientFrame::Ping) => a matches LoopAction::SendPong
                    && final(self).spec_running(),
                SocketEvent::Text(ClientFrame::Malformed) | SocketEvent::Other => a matches LoopAction::Ignore
                    && final(self).spec_running(),
                SocketEvent::Closed | SocketEvent::Failed => a matches LoopAction::Stop
                    && !final(self).spec_running(),
            },
    {
        match event {
            SocketEvent::Text(ClientFrame::Input(d)) => LoopAction::WriteInput(d),
            SocketEvent::Text(ClientFrame::Resize { cols, rows }) => LoopAction::Resize(
                TerminalSize::new(cols, rows),
            ),
            SocketEvent::Text(ClientFrame::Ping) => LoopAction::SendPong,
            SocketEvent::Text(ClientFrame::Malformed) => LoopAction::Ignore,
            SocketEvent::Other => LoopAction::Ignore,
            SocketEvent::Closed | SocketEvent::Failed => {
                self.stop();
                LoopAction::Stop
            },
        }
    }

    /// Sending an output frame, or writing input to the PTY, failed: the
    /// connection is gone, and the loop ends with a normal close.
    pub fn on_transport_failure(&mut self)
        ensures
            !final(self).spec_running(),
            final(self).spec_close_code() == old(self).spec_close_code(),
    {
        self.stop();
    }

    fn stop(&mut self)
        ensures
            !final(self).spec_running(),
            final(self).spec_close_code() == old(self).spec_close_code(),
    {
        proof {
            use_type_invariant(&*self);
        }
        let code = self.close_code;
        *self = SessionLoop { running: false, close_code: code };
    }
}

} // verus!
