//! Wire protocol shared by every majin frontend and backend.
//!
//! The frames themselves (with their JSON encodings) live with the I/O
//! layer; this module holds the values the rest of the library reasons
//! about: terminal geometry, error codes, the HTTP bodies and close codes.
use vstd::prelude::*;

verus! {

/// Bumped whenever a change would break an older client.
pub const PROTOCOL_VERSION: u32 = 1;

/// PTY resize rejects non-positive values, and an unbounded request would make
/// the kernel allocate scrollback buffers sized by whatever the client claims.
pub const MIN_COLS: u16 = 1;

pub const MIN_ROWS: u16 = 1;

pub const MAX_COLS: u16 = 1000;

pub const MAX_ROWS: u16 = 1000;

/// `lo` when `v` is below it, `hi` when above it, `v` otherwise.
pub open spec fn clamp_spec(v: u16, lo: u16, hi: u16) -> u16 {
    if v < lo {
        lo
    } else if v > hi {
        hi
    } else {
        v
    }
}

/// `size` with each side clamped into the range the PTY layer accepts.
pub open spec fn clamp_size(size: TerminalSize) -> TerminalSize {
    TerminalSize {
        cols: clamp_spec(size.cols, MIN_COLS, MAX_COLS),
        rows: clamp_spec(size.rows, MIN_ROWS, MAX_ROWS),
    }
}

/// Terminal geometry in character cells.
#[derive(Debug, Clone, Copy, PartialEq, Eq, Structural)]
pub struct TerminalSize {
    pub cols: u16,
    pub rows: u16,
}

impl TerminalSize {
    pub fn new(cols: u16, rows: u16) -> (size: Self)
        ensures
            size.cols == cols,
            size.rows == rows,
    {
        TerminalSize { cols, rows }
    }

    /// Clamps to a range the PTY layer will actually accept.
    pub fn clamped(self) -> (size: Self)
        ensures
            size.cols == clamp_spec(self.cols, MIN_COLS, MAX_COLS),
            size.rows == clamp_spec(self.rows, MIN_ROWS, MAX_ROWS),
            size == clamp_size(self),
    {
        TerminalSize { cols: clamp_u16(self.cols, MIN_COLS, MAX_COLS), rows: clamp_u16(self.rows, MIN_ROWS, MAX_ROWS) }
    }

    /// True when both sides lie in the range the PTY layer accepts.
    pub open spec fn in_pty_range(self) -> bool {
        &&& MIN_COLS <= self.cols <= MAX_COLS
        &&& MIN_ROWS <= self.rows <= MAX_ROWS
    }
}

fn clamp_u16(v: u16, lo: u16, hi: u16) -> (r: u16)
    requires
        lo <= hi,
    ensures
        r == clamp_spec(v, lo, hi),
{
    if v < lo {
        lo
    } else if v > hi {
        hi
    } else {
        v
    }
}

impl Default for TerminalSize {
    fn default() -> (size: Self)
        ensures
            size.cols == 80,
            size.rows == 24,
    {
        TerminalSize::new(80, 24)
    }
}

/// Clamping always lands in the accepted range, and leaves an in-range size
/// untouched, so clamping twice is the same as clamping once.
pub proof fn law_clamp_lands_in_range_and_is_idempotent(size: TerminalSize)
    ensures
        clamp_size(size).in_pty_range(),
        size.in_pty_range() ==> clamp_size(size) == size,
        clamp_size(clamp_size(size)) == clamp_size(size),
{
}

/// Error codes carried by an `error` frame.
#[derive(Debug, Clone, Copy, PartialEq, Eq, Structural)]
pub enum TerminalErrorCode {
    Unauthorized,
    SpawnFailed,
    SessionLimit,
    BadMessage,
    Internal,
}

/// The payload of an `error` frame: a code and a message safe to display.
#[derive(Debug, Clone, PartialEq, Eq)]
pub struct ErrorFrame {
    pub code: TerminalErrorCode,
    pub message: String,
}

/// Request body of `POST /api/auth/session`.
#[derive(Debug, Clone, PartialEq, Eq)]
pub struct LoginRequest {
    pub token: String,
}

/// Error body returned by every `/api` route that fails.
#[derive(Debug, Clone, PartialEq, Eq)]
pub struct ApiError {
    pub error: String,
    pub message: String,
}

/// Server metadata exposed to the UI before sign-in.
#[derive(Debug, Clone, PartialEq, Eq)]
pub struct ServerInfo {
    pub version: String,
    pub protocol_version: u32,
    /// False for the desktop build, where the PTY is reached over local IPC.
    pub auth_required: bool,
}

/// WebSocket close code: the session ended cleanly.
pub const CLOSE_NORMAL: u16 = 1000;

/// WebSocket close code: not signed in, or the origin was refused. Distinct so
/// the client falls back to the login screen instead of reconnecting.
pub const CLOSE_UNAUTHORIZED: u16 = 4001;

/// WebSocket close code: too many terminals are already open.
pub const CLOSE_SESSION_LIMIT: u16 = 4002;

/// WebSocket close code: the client broke the protocol.
pub const CLOSE_PROTOCOL_ERROR: u16 = 4003;

/// WebSocket close code: the shell exited.
pub const CLOSE_SHELL_EXITED: u16 = 4004;

} // verus!
