//! The security-hook guard over the kernel's extensible-program syscall.
//!
//! During a short boot window the guard learns the process id of the
//! legitimate loader: it counts the loader's map-update calls down from
//! `MAX_CALLS`, recording the pid on the first one. Once the counter reaches
//! zero the guard is armed and every further map-element access or object-get
//! call is denied, whatever the calling process; program and BTF loads stay
//! allowed. The return contract is the syscall's: 0 allows, negative denies.

use vstd::prelude::*;

verus! {

/// Operation selectors of the extensible-program syscall.
pub const BPF_MAP_LOOKUP_ELEM: i32 = 1;

pub const BPF_MAP_UPDATE_ELEM: i32 = 2;

pub const BPF_MAP_DELETE_ELEM: i32 = 3;

pub const BPF_PROG_LOAD: i32 = 5;

pub const BPF_OBJ_GET: i32 = 7;

/// Number of loader map-update calls counted before the countdown ends.
pub const MAX_CALLS: u32 = 4;

/// The selectors denied once the guard is armed.
pub open spec fn is_restricted_cmd(cmd: i32) -> bool {
    ||| cmd == BPF_MAP_LOOKUP_ELEM
    ||| cmd == BPF_MAP_UPDATE_ELEM
    ||| cmd == BPF_MAP_DELETE_ELEM
    ||| cmd == BPF_OBJ_GET
}

/// A syscall counts toward the boot window only when it is a map update with
/// a zero file descriptor, the pattern the loader's seeding calls show.
pub open spec fn is_boot_pattern(cmd: i32, fd: u32) -> bool {
    cmd == BPF_MAP_UPDATE_ELEM && fd == 0
}

/// Guard state: the boot countdown and the single trusted loader pid.
pub struct LsmState {
    /// Remaining counted boot calls; the guard is armed at zero.
    pub counter: u32,
    /// The loader pid, written exactly once during boot.
    pub bootpid: Option<u32>,
}

impl LsmState {
    /// The counter never exceeds its starting value, and a full counter means
    /// no pid has been recorded yet.
    pub open spec fn wf(&self) -> bool {
        &&& self.counter <= MAX_CALLS
        &&& self.counter == MAX_CALLS ==> self.bootpid is None
    }

    /// The armed phase: boot is over, map accesses are denied.
    pub open spec fn armed(&self) -> bool {
        self.counter == 0
    }

    /// A fresh guard: full countdown, no pid recorded.
    pub fn new() -> (r: LsmState)
        ensures
            r.wf(),
            r.counter == MAX_CALLS,
            r.bootpid is None,
    {
        LsmState { counter: MAX_CALLS, bootpid: None }
    }
}

/// One invocation of the guard for a syscall `(cmd, fd, pid)`.
///
/// Returns 0 to allow and -1 to deny. In the boot phase every call is
/// allowed; a call matching the boot pattern records the pid (first time) or,
/// from the recorded pid, counts the window down. In the armed phase every
/// map-element access and object-get is denied, from any process.
pub fn try_bpflsm(st: &mut LsmState, cmd: i32, fd: u32, pid: u32) -> (r: i32)
    requires
        old(st).wf(),
    ensures
        final(st).wf(),
        // The returned action: armed restricted commands are denied, everything else passes.
        r == (if old(st).armed() && is_restricted_cmd(cmd) {
            -1
        } else {
            0
        }),
        // In the armed phase every map-element access from any pid, in
        // particular one other than the recorded loader pid, is denied.
        old(st).armed() && is_restricted_cmd(cmd) ==> r < 0,
        // The pid is recorded exactly on the first counted boot call and
        // never overwritten afterwards.
        final(st).bootpid == (if old(st).counter == MAX_CALLS && is_boot_pattern(cmd, fd) {
            Some(pid)
        } else {
            old(st).bootpid
        }),
        // The counter moves only during boot, only on a counted call, and
        // only downward by one.
        final(st).counter == (if old(st).counter > 0 && is_boot_pattern(cmd, fd) && (old(
            st,
        ).bootpid == Some(pid) || old(st).counter == MAX_CALLS) {
            (old(st).counter - 1) as u32
        } else {
            old(st).counter
        }),
{
    if st.counter > 0 {
        if fd == 0 && cmd == BPF_MAP_UPDATE_ELEM {
            let recorded = match st.bootpid {
                Some(p) => p == pid,
                None => false,
            };
            if recorded {
                st.counter = st.counter - 1;
            } else if st.counter == MAX_CALLS {
                st.bootpid = Some(pid);
                st.counter = st.counter - 1;
            }
        }
        0
    } else {
        if cmd == BPF_MAP_LOOKUP_ELEM || cmd == BPF_MAP_UPDATE_ELEM || cmd == BPF_MAP_DELETE_ELEM
            || cmd == BPF_OBJ_GET {
            -1
        } else {
            0
        }
    }
}

} // verus!
