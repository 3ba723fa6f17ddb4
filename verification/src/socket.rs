//! The checks made on a listening socket handed over by systemd (socket
//! activation): the `LISTEN_PID` and `LISTEN_FDS` variables must name this
//! process and exactly one descriptor.

use vstd::prelude::*;

use crate::text::{parse_u32, parse_unsigned};

verus! {

/// Why the handed-over socket cannot be used.
#[derive(Debug, Clone, Copy, PartialEq, Eq, Structural)]
pub enum ListenError {
    /// `LISTEN_PID` is not set.
    PidNotSet,
    /// `LISTEN_PID` is not a `u32`.
    InvalidPid,
    /// `LISTEN_FDS` is not set.
    FdsNotSet,
    /// `LISTEN_FDS` is not a `u32`.
    InvalidFds,
    /// `LISTEN_PID` names another process.
    PidMismatch,
    /// `LISTEN_FDS` is not 1.
    FdsNotOne,
}

pub open spec fn opt_view(s: Option<&str>) -> Option<Seq<char>> {
    match s {
        Some(t) => Some(t@),
        None => None,
    }
}

/// The outcome of the checks, made in this order: `LISTEN_PID` is set and
/// a number, `LISTEN_FDS` is set and a number, the pid is this process's,
/// and the count is 1.
pub open spec fn listen_check(
    listen_pid: Option<Seq<char>>,
    listen_fds: Option<Seq<char>>,
    pid: u32,
) -> Result<(), ListenError> {
    match listen_pid {
        None => Err(ListenError::PidNotSet),
        Some(p) => match parse_unsigned(p, 0xffff_ffff) {
            None => Err(ListenError::InvalidPid),
            Some(lp) => match listen_fds {
                None => Err(ListenError::FdsNotSet),
                Some(f) => match parse_unsigned(f, 0xffff_ffff) {
                    None => Err(ListenError::InvalidFds),
                    Some(n) => if lp != pid {
                        Err(ListenError::PidMismatch)
                    } else if n != 1 {
                        Err(ListenError::FdsNotOne)
                    } else {
                        Ok(())
                    },
                },
            },
        },
    }
}

/// The handed-over socket is accepted exactly when both variables are set,
/// `LISTEN_PID` is this process's id and `LISTEN_FDS` is 1; when both are set
/// and numbers but `LISTEN_PID` names another process, the answer is
/// `PidMismatch`, whatever `LISTEN_FDS` says; when they name this process and
/// the count is not 1, it is `FdsNotOne`.
pub proof fn lemma_listen_check(
    listen_pid: Option<Seq<char>>,
    listen_fds: Option<Seq<char>>,
    pid: u32,
)
    ensures
        listen_check(listen_pid, listen_fds, pid) is Ok <==> (listen_pid is Some
            && listen_fds is Some && parse_unsigned(listen_pid.unwrap(), 0xffff_ffff) == Some(
            pid as int,
        ) && parse_unsigned(listen_fds.unwrap(), 0xffff_ffff) == Some(1int)),
        forall|lp: int, n: int|
            listen_pid is Some && listen_fds is Some && parse_unsigned(
                listen_pid.unwrap(),
                0xffff_ffff,
            ) == Some(lp) && parse_unsigned(listen_fds.unwrap(), 0xffff_ffff) == Some(n) ==> (
            lp != pid ==> listen_check(listen_pid, listen_fds, pid) == Err::<(), ListenError>(
                ListenError::PidMismatch,
            )) && (lp == pid && n != 1 ==> listen_check(listen_pid, listen_fds, pid) == Err::<
                (),
                ListenError,
            >(ListenError::FdsNotOne)),
        listen_pid is None ==> listen_check(listen_pid, listen_fds, pid) == Err::<(), ListenError>(
            ListenError::PidNotSet,
        ),
{
}

/// Checks the values of `LISTEN_PID` and `LISTEN_FDS` (`None` where a
/// variable is unset) against the id `pid` of this process.
pub fn check_listen_env(listen_pid: Option<&str>, listen_fds: Option<&str>, pid: u32) -> (r:
    Result<(), ListenError>)
    ensures
        r == listen_check(opt_view(listen_pid), opt_view(listen_fds), pid),
        r is Ok <==> (listen_pid is Some && listen_fds is Some && parse_unsigned(
            listen_pid.unwrap()@,
            0xffff_ffff,
        ) == Some(pid as int) && parse_unsigned(listen_fds.unwrap()@, 0xffff_ffff) == Some(1int)),
{
    proof {
        lemma_listen_check(opt_view(listen_pid), opt_view(listen_fds), pid);
    }
    let lp = match listen_pid {
        None => return Err(ListenError::PidNotSet),
        Some(p) => match parse_u32(p) {
            None => return Err(ListenError::InvalidPid),
            Some(n) => n,
        },
    };
    let n = match listen_fds {
        None => return Err(ListenError::FdsNotSet),
        Some(f) => match parse_u32(f) {
            None => return Err(ListenError::InvalidFds),
            Some(n) => n,
        },
    };
    if lp != pid {
        Err(ListenError::PidMismatch)
    } else if n != 1 {
        Err(ListenError::FdsNotOne)
    } else {
        Ok(())
    }
}

} // verus!
