use vstd::prelude::*;

verus! {

pub const SIGINT: i32 = 2;
pub const SIGPIPE: i32 = 13;
pub const SIGWINCH: i32 = 28;

/// The `poll` event bit for "data to read".
pub const POLLIN: i16 = 0x001;

/// The window size record that `TIOCGWINSZ` fills in.
pub struct Winsize {
    pub ws_row: u16,
    pub ws_col: u16,
    pub ws_xpixel: u16,
    pub ws_ypixel: u16,
}

/// One descriptor entry of a `poll` call.
pub struct PollFd {
    pub fd: i32,
    pub events: i16,
    pub revents: i16,
}

impl PollFd {
    /// The entry that waits for standard input to become readable.
    pub fn stdin_readable() -> (r: Self)
        ensures
            r.fd == 0,
            r.events == POLLIN,
            r.revents == 0,
    {
        PollFd { fd: 0, events: POLLIN, revents: 0 }
    }

    /// Whether a `poll` call that returned `rc` reported data to read.
    pub fn is_readable(&self, rc: i32) -> (r: bool)
        ensures
            r == (rc > 0 && (self.revents & POLLIN) != 0),
    {
        rc > 0 && (self.revents & POLLIN) != 0
    }
}

/// The exit status the process ends with after restoring the terminal.
pub open spec fn exit_status() -> i32 {
    0
}

} // verus!
