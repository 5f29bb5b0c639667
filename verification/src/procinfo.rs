//! What the kernel tells about processes and about its own start.
//!
//! The calls themselves (`sysctl`, `proc_pidinfo`, `proc_pidpath`) are made by the caller; this
//! module reads what they gave back.

use vstd::prelude::*;

verus! {

/// A point in time as the kernel reports it: seconds since the Unix epoch, plus a microsecond
/// remainder.
#[derive(Clone, Copy, Debug, PartialEq, Eq, Structural)]
pub struct Timestamp {
    /// Seconds since the Unix epoch.
    pub sec: u64,
    /// The microseconds past the last whole second.
    pub usec: u64,
}

/// The identity of a running process, needed to tell apart a pid/pgid reassignment.
#[derive(Clone, Debug, PartialEq, Eq)]
pub struct RunningProcess {
    /// Process group ID.
    pub pgid: u32,
    /// Start time. Fixed at `fork` and unaffected by a later `exec`.
    pub start_time: Timestamp,
    /// Absolute path to the executable.
    pub exe_path: Vec<u8>,
}

/// A signed number as an unsigned one of 64 bits: a negative number wraps around.
pub open spec fn wrapped(value: int) -> int {
    if value < 0 {
        value + 0x1_0000_0000_0000_0000
    } else {
        value
    }
}

/// A process ID as the signed number that system calls take.
pub open spec fn signed_pid(pid: u32) -> int {
    if pid > i32::MAX {
        pid - 0x1_0000_0000
    } else {
        pid as int
    }
}

/// A process ID as the signed number that system calls take. A real one is never so large that it
/// changes.
#[must_use]
pub fn pid_from(pid: u32) -> (result: i32)
    ensures
        result == signed_pid(pid),
{
    if pid > 0x7fff_ffff {
        (pid as i64 - 0x1_0000_0000) as i32
    } else {
        pid as i32
    }
}

/// A signed number of 64 bits as an unsigned one.
fn wrap(value: i64) -> (result: u64)
    ensures
        result == wrapped(value as int),
{
    if value < 0 {
        (value as i128 + 0x1_0000_0000_0000_0000) as u64
    } else {
        value as u64
    }
}

/// The time that the kernel booted, given the result of the `sysctl` call for `kern.boottime` and
/// the two fields of the `timeval` that it filled. `None` when the call failed.
#[must_use]
pub fn boot_time(result: i32, tv_sec: i64, tv_usec: i64) -> (time: Option<Timestamp>)
    ensures
        time is Some <==> result == 0,
        time matches Some(time) ==> {
            &&& time.sec == wrapped(tv_sec as int)
            &&& time.usec == wrapped(tv_usec as int)
        },
{
    if result != 0 {
        return None;
    }
    Some(Timestamp { sec: wrap(tv_sec), usec: wrap(tv_usec) })
}

/// The path of an executable, given the result of the `proc_pidpath` call and the buffer that it
/// filled: as many bytes of the buffer as the result says. `None` when the path cannot be
/// retrieved.
#[must_use]
pub fn pid_path(result: i32, buffer: Vec<u8>) -> (path: Option<Vec<u8>>)
    ensures
        path is Some <==> result > 0,
        path matches Some(path) ==> path@ == (if result <= buffer@.len() {
            buffer@.take(result as int)
        } else {
            buffer@
        }),
{
    if result <= 0 {
        return None;
    }
    let mut buffer = buffer;
    buffer.truncate(result as usize);
    Some(buffer)
}

/// The identity of a process, given the result of the `proc_pidinfo` call, the fields that it
/// filled, and the path of the executable. `None` when there is no such process, or when its
/// information cannot be retrieved: the response to either is the same.
#[must_use]
pub fn running_process(
    result: i32,
    pgid: u32,
    start_time: Timestamp,
    exe_path: Option<Vec<u8>>,
) -> (process: Option<RunningProcess>)
    ensures
        process == (match exe_path {
            Some(path) if result > 0 => Some(
                (RunningProcess { pgid, start_time, exe_path: path }),
            ),
            _ => None,
        }),
{
    if result <= 0 {
        return None;
    }
    match exe_path {
        Some(exe_path) => Some(RunningProcess { pgid, start_time, exe_path }),
        None => None,
    }
}

/// A process ID keeps its bits: as a signed number of 32 bits it differs from the unsigned one by
/// nothing or by a whole turn, and no two of them become the same.
pub proof fn law_process_id_keeps_its_bits(pid: u32, other: u32)
    ensures
        i32::MIN <= signed_pid(pid) <= i32::MAX,
        signed_pid(pid) == pid || signed_pid(pid) + 0x1_0000_0000 == pid,
        signed_pid(pid) == signed_pid(other) ==> pid == other,
{
}

/// A time keeps its bits likewise.
pub proof fn law_time_keeps_its_bits(value: i64)
    ensures
        0 <= wrapped(value as int) <= u64::MAX,
        wrapped(value as int) == value || wrapped(value as int) == value + 0x1_0000_0000_0000_0000,
{
}

} // verus!
