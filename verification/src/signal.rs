//! Signal numbers and names.

use vstd::prelude::*;

verus! {

/// The greatest signal number.
pub const __NSIG: i32 = 64;

/// The number of real-time signals that the library keeps to itself.
pub const __RESERVED_SIGRT: i32 = 2;

/// The first real-time signal.
pub const __SIGRTMIN: i32 = 32;

/// The last real-time signal.
pub const __SIGRTMAX: i32 = __NSIG;

/// One more than the greatest signal number.
pub const NSIG: i32 = __NSIG + 1;

/// The first real-time signal that programs may use.
pub const SIGRTMIN: i32 = __SIGRTMIN + __RESERVED_SIGRT;

/// The last real-time signal.
pub const SIGRTMAX: i32 = __SIGRTMAX;

/// The number of signals that have a name.
pub const SYS_NSIGNAME: usize = 32;

/// The first real-time signal that programs may use.
pub fn __oumalibc_current_sigrtmin() -> (r: i32)
    ensures
        r == SIGRTMIN,
        r == 34,
{
    __SIGRTMIN + __RESERVED_SIGRT
}

/// The last real-time signal.
pub fn __oumalibc_current_sigrtmax() -> (r: i32)
    ensures
        r == SIGRTMAX,
        r == 64,
{
    __SIGRTMAX
}

/// The name of the signal `num`, for the numbers below `SYS_NSIGNAME`.
pub open spec fn signal_name(num: int) -> &'static str {
    if num == 1 {
        "Hangup"
    } else if num == 2 {
        "Interrupt"
    } else if num == 3 {
        "Quit"
    } else if num == 4 {
        "Illegal instruction"
    } else if num == 5 {
        "Trace/breakpoint trap"
    } else if num == 6 {
        "Aborted"
    } else if num == 7 {
        "Bus error"
    } else if num == 8 {
        "Floating point exception"
    } else if num == 9 {
        "Killed"
    } else if num == 10 {
        "User defined signal 1"
    } else if num == 11 {
        "Segmentation fault"
    } else if num == 12 {
        "User defined signal 2"
    } else if num == 13 {
        "Broken pipe"
    } else if num == 14 {
        "Alarm clock"
    } else if num == 15 {
        "Terminated"
    } else if num == 16 {
        "Stack fault"
    } else if num == 17 {
        "Child exited"
    } else if num == 18 {
        "Continued"
    } else if num == 19 {
        "Stopped (signal)"
    } else if num == 20 {
        "Stopped"
    } else if num == 21 {
        "Stopped (tty input)"
    } else if num == 22 {
        "Stopped (tty output)"
    } else if num == 23 {
        "Urgent I/O condition"
    } else if num == 24 {
        "CPU time limit exceeded"
    } else if num == 25 {
        "File size limit exceeded"
    } else if num == 26 {
        "Virtual timer expired"
    } else if num == 27 {
        "Profiling timer expired"
    } else if num == 28 {
        "Window changed"
    } else if num == 29 {
        "I/O possible"
    } else if num == 30 {
        "Power failure"
    } else if num == 31 {
        "Bad system call"
    } else {
        "Unknown signal 0"
    }
}

/// The entry `num` of the table of signal names.
pub fn sys_siglist(num: usize) -> (r: &'static str)
    requires
        num < SYS_NSIGNAME,
    ensures
        r == signal_name(num as int),
{
    match num {
        1 => "Hangup",
        2 => "Interrupt",
        3 => "Quit",
        4 => "Illegal instruction",
        5 => "Trace/breakpoint trap",
        6 => "Aborted",
        7 => "Bus error",
        8 => "Floating point exception",
        9 => "Killed",
        10 => "User defined signal 1",
        11 => "Segmentation fault",
        12 => "User defined signal 2",
        13 => "Broken pipe",
        14 => "Alarm clock",
        15 => "Terminated",
        16 => "Stack fault",
        17 => "Child exited",
        18 => "Continued",
        19 => "Stopped (signal)",
        20 => "Stopped",
        21 => "Stopped (tty input)",
        22 => "Stopped (tty output)",
        23 => "Urgent I/O condition",
        24 => "CPU time limit exceeded",
        25 => "File size limit exceeded",
        26 => "Virtual timer expired",
        27 => "Profiling timer expired",
        28 => "Window changed",
        29 => "I/O possible",
        30 => "Power failure",
        31 => "Bad system call",
        _ => "Unknown signal 0",
    }
}

} // verus!
