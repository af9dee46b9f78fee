//! The kernel-object model and the handle/resource layer over it.
//!
//! An [`OsState`] value holds every kernel object the library's logic reads:
//! the top-level windows, the running processes (with the outcome the kernel
//! would report for each query against them), and the handle table. The
//! methods on `OsState` are the narrow safe operations the higher layers
//! build on — find a window, open a process handle, query its executable
//! path, snapshot its module list, read its memory, close a handle — each
//! with a contract that pins down its result and its effect on the handle
//! table. A driver that talks to a real kernel fills an `OsState` from the
//! underlying platform calls.

use vstd::prelude::*;
use crate::util::decoded;

verus! {

/// Error code the kernel reports when a process identifier names no running
/// process.
pub const ERR_NO_SUCH_PROCESS: u32 = 87;

/// One top-level window: its title and the identifier of the process that
/// owns it.
pub struct WindowRecord {
    pub title: String,
    pub owner_pid: u32,
}

/// One module (loaded library image) mapped into a process: the
/// fixed-capacity NUL-terminated buffer holding its name, and its base load
/// address in the owning process's address space.
pub struct ModuleRecord {
    pub name_raw: Vec<u8>,
    pub base: u64,
}

/// One running process, together with the outcome the kernel reports for
/// each query against it and the memory it exposes to remote reads.
pub struct ProcessRecord {
    pub pid: u32,
    /// `Some(code)`: opening a handle to this process fails with that code.
    pub open_error: Option<u32>,
    /// `Some(code)`: querying the executable path fails with that code.
    pub path_error: Option<u32>,
    /// The fixed-capacity NUL-terminated buffer the path query fills.
    pub path_raw: Vec<u8>,
    /// `Some(code)`: creating a module snapshot fails with that code.
    pub snapshot_error: Option<u32>,
    /// The modules mapped into the process, in enumeration order.
    pub modules: Vec<ModuleRecord>,
    /// First address of the region a remote read can reach.
    pub mem_start: u64,
    /// Contents of that region, starting at `mem_start`.
    pub mem: Vec<u8>,
}

/// One slot of the handle table: whether the handle is still open, and the
/// identifier of the process it refers to.
pub struct HandleSlot {
    pub open: bool,
    pub pid: u32,
}

/// The kernel objects the library touches. Handles are never removed from
/// the table; closing one marks its slot closed, so "opened and closed
/// exactly once" is visible in the table itself.
pub struct OsState {
    pub windows: Vec<WindowRecord>,
    pub processes: Vec<ProcessRecord>,
    pub handles: Vec<HandleSlot>,
}

/// Number of open slots in a handle table.
pub open spec fn count_open(s: Seq<HandleSlot>) -> int
    decreases s.len(),
{
    if s.len() == 0 {
        0
    } else {
        count_open(s.drop_last()) + if s.last().open {
            1int
        } else {
            0int
        }
    }
}

pub proof fn lemma_count_open_push(s: Seq<HandleSlot>, h: HandleSlot)
    ensures
        count_open(s.push(h)) == count_open(s) + if h.open {
            1int
        } else {
            0int
        },
{
    assert(s.push(h).drop_last() =~= s);
    assert(s.push(h).last() == h);
}

pub proof fn lemma_count_open_update(s: Seq<HandleSlot>, i: int, h: HandleSlot)
    requires
        0 <= i < s.len(),
    ensures
        count_open(s.update(i, h)) == count_open(s) - (if s[i].open {
            1int
        } else {
            0int
        }) + (if h.open {
            1int
        } else {
            0int
        }),
    decreases s.len(),
{
    if i == s.len() - 1 {
        assert(s.update(i, h).drop_last() =~= s.drop_last());
        assert(s.update(i, h).last() == h);
    } else {
        assert(s.update(i, h).drop_last() =~= s.drop_last().update(i, h));
        assert(s.update(i, h).last() == s.last());
        lemma_count_open_update(s.drop_last(), i, h);
    }
}

/// Index of the first window at or after `i` whose title equals `title`.
pub open spec fn find_window_from(ws: Seq<WindowRecord>, title: Seq<char>, i: int) -> Option<int>
    decreases ws.len() - i,
{
    if i < 0 || i >= ws.len() {
        None
    } else if ws[i].title@ == title {
        Some(i)
    } else {
        find_window_from(ws, title, i + 1)
    }
}

/// Index of the first window whose title equals `title` exactly, if any.
pub open spec fn spec_find_window(ws: Seq<WindowRecord>, title: Seq<char>) -> Option<int> {
    find_window_from(ws, title, 0)
}

pub proof fn lemma_find_window_props(ws: Seq<WindowRecord>, title: Seq<char>, i: int)
    requires
        0 <= i <= ws.len(),
    ensures
        match find_window_from(ws, title, i) {
            Some(k) => i <= k < ws.len() && ws[k].title@ == title && forall|j: int|
                i <= j < k ==> ws[j].title@ != title,
            None => forall|j: int| i <= j < ws.len() ==> ws[j].title@ != title,
        },
    decreases ws.len() - i,
{
    if i < ws.len() && ws[i].title@ != title {
        lemma_find_window_props(ws, title, i + 1);
    }
}

/// Index of the first process record at or after `i` with the given
/// identifier.
pub open spec fn find_proc_from(ps: Seq<ProcessRecord>, pid: u32, i: int) -> Option<int>
    decreases ps.len() - i,
{
    if i < 0 || i >= ps.len() {
        None
    } else if ps[i].pid == pid {
        Some(i)
    } else {
        find_proc_from(ps, pid, i + 1)
    }
}

/// Index of the first process record with the given identifier, if any.
pub open spec fn spec_find_proc(ps: Seq<ProcessRecord>, pid: u32) -> Option<int> {
    find_proc_from(ps, pid, 0)
}

pub proof fn lemma_find_proc_props(ps: Seq<ProcessRecord>, pid: u32, i: int)
    requires
        0 <= i <= ps.len(),
    ensures
        match find_proc_from(ps, pid, i) {
            Some(k) => i <= k < ps.len() && ps[k].pid == pid && forall|j: int|
                i <= j < k ==> ps[j].pid != pid,
            None => forall|j: int| i <= j < ps.len() ==> ps[j].pid != pid,
        },
    decreases ps.len() - i,
{
    if i < ps.len() && ps[i].pid != pid {
        lemma_find_proc_props(ps, pid, i + 1);
    }
}

/// Whether a module record's decoded name is exactly `name`. A name buffer
/// that does not decode matches nothing.
pub open spec fn module_matches(m: ModuleRecord, name: Seq<char>) -> bool {
    decoded(m.name_raw@) == Some(name)
}

/// Index of the first module at or after `i` whose decoded name is `name`.
pub open spec fn find_module_from(ms: Seq<ModuleRecord>, name: Seq<char>, i: int) -> Option<int>
    decreases ms.len() - i,
{
    if i < 0 || i >= ms.len() {
        None
    } else if module_matches(ms[i], name) {
        Some(i)
    } else {
        find_module_from(ms, name, i + 1)
    }
}

/// Index of the first module whose decoded name is `name`, in enumeration
/// order, if any.
pub open spec fn spec_find_module(ms: Seq<ModuleRecord>, name: Seq<char>) -> Option<int> {
    find_module_from(ms, name, 0)
}

pub proof fn lemma_find_module_props(ms: Seq<ModuleRecord>, name: Seq<char>, i: int)
    requires
        0 <= i <= ms.len(),
    ensures
        match find_module_from(ms, name, i) {
            Some(k) => i <= k < ms.len() && module_matches(ms[k], name) && forall|j: int|
                i <= j < k ==> !module_matches(ms[j], name),
            None => forall|j: int| i <= j < ms.len() ==> !module_matches(ms[j], name),
        },
    decreases ms.len() - i,
{
    if i < ms.len() && !module_matches(ms[i], name) {
        lemma_find_module_props(ms, name, i + 1);
    }
}

/// How many bytes a remote read of `len` bytes at `addr` transfers out of
/// the process's readable region: all of them when the whole range is
/// readable, the readable head of the range when it runs off the region's
/// end, and nothing when `addr` lies outside the region.
pub open spec fn spec_transfer(p: ProcessRecord, addr: int, len: int) -> int {
    if p.mem_start <= addr && addr < p.mem_start + p.mem@.len() {
        if addr + len <= p.mem_start + p.mem@.len() {
            len
        } else {
            p.mem_start + p.mem@.len() - addr
        }
    } else {
        0
    }
}

/// The buffer a remote read hands back: the transferred bytes of the
/// region, then zeroes up to the requested length.
pub open spec fn spec_read_bytes(p: ProcessRecord, addr: int, len: nat) -> Seq<u8> {
    Seq::new(
        len,
        |q: int|
            if q < spec_transfer(p, addr, len as int) {
                p.mem@[addr - p.mem_start + q]
            } else {
                0u8
            },
    )
}

impl OsState {
    /// Number of open handles in the table.
    pub open spec fn open_count(self) -> int {
        count_open(self.handles@)
    }

    /// Every window is owned by a process that has a record: the kernel
    /// associates each window with exactly one running process.
    pub open spec fn wf(self) -> bool {
        forall|i: int|
            0 <= i < self.windows@.len() ==> spec_find_proc(
                self.processes@,
                #[trigger] self.windows@[i].owner_pid,
            ) is Some
    }

    /// Frame of an operation that only appends handle-table slots (and may
    /// close slots it appended itself): windows and processes are unchanged
    /// and every pre-existing slot keeps its state.
    pub open spec fn extends(self, post: OsState) -> bool {
        &&& post.windows@ == self.windows@
        &&& post.processes@ == self.processes@
        &&& self.handles@.len() <= post.handles@.len()
        &&& forall|k: int|
            0 <= k < self.handles@.len() ==> post.handles@[k] == self.handles@[k]
    }

    /// Finds the first top-level window whose title is exactly `title`.
    /// There is no retry and no substring match.
    pub fn find_window(&self, title: &str) -> (r: Option<usize>)
        ensures
            match r {
                Some(i) => spec_find_window(self.windows@, title@) == Some(i as int),
                None => spec_find_window(self.windows@, title@) is None,
            },
    {
        let query = title.to_owned();
        let n = self.windows.len();
        let mut i: usize = 0;
        while i < n
            invariant
                0 <= i <= n == self.windows@.len(),
                query@ == title@,
                spec_find_window(self.windows@, title@) == find_window_from(
                    self.windows@,
                    title@,
                    i as int,
                ),
            decreases n - i,
        {
            let w = &self.windows[i];
            if w.title == query {
                return Some(i);
            }
            i = i + 1;
        }
        None
    }

    /// Resolves the identifier of the process owning the given window. The
    /// kernel associates every window with exactly one owning process, so
    /// this cannot fail on a valid window.
    pub fn window_owner_pid(&self, win: usize) -> (pid: u32)
        requires
            win < self.windows@.len(),
        ensures
            pid == self.windows@[win as int].owner_pid,
    {
        self.windows[win].owner_pid
    }

    /// Index of the first process record with the given identifier.
    fn find_proc_index(&self, pid: u32) -> (r: Option<usize>)
        ensures
            match r {
                Some(j) => spec_find_proc(self.processes@, pid) == Some(j as int) && j
                    < self.processes@.len() && self.processes@[j as int].pid == pid,
                None => spec_find_proc(self.processes@, pid) is None,
            },
    {
        let n = self.processes.len();
        let mut i: usize = 0;
        while i < n
            invariant
                0 <= i <= n == self.processes@.len(),
                spec_find_proc(self.processes@, pid) == find_proc_from(
                    self.processes@,
                    pid,
                    i as int,
                ),
            decreases n - i,
        {
            if self.processes[i].pid == pid {
                return Some(i);
            }
            i = i + 1;
        }
        None
    }

    /// Opens a handle (requesting full access) to the process with the
    /// given identifier. On success the handle occupies a fresh open slot of
    /// the table; on failure the table is untouched and the kernel's error
    /// code comes back.
    pub fn open_process(&mut self, pid: u32) -> (r: Result<usize, u32>)
        ensures
            old(self).windows@ == final(self).windows@,
            old(self).processes@ == final(self).processes@,
            match r {
                Ok(h) => {
                    &&& spec_find_proc(old(self).processes@, pid) matches Some(j)
                        && old(self).processes@[j].open_error is None
                    &&& h == old(self).handles@.len()
                    &&& final(self).handles@ == old(self).handles@.push(
                        HandleSlot { open: true, pid },
                    )
                    &&& final(self).open_count() == old(self).open_count() + 1
                },
                Err(code) => {
                    &&& final(self).handles@ == old(self).handles@
                    &&& match spec_find_proc(old(self).processes@, pid) {
                        Some(j) => old(self).processes@[j].open_error == Some(code),
                        None => code == ERR_NO_SUCH_PROCESS,
                    }
                },
            },
    {
        match self.find_proc_index(pid) {
            None => Err(ERR_NO_SUCH_PROCESS),
            Some(j) => {
                match self.processes[j].open_error {
                    Some(code) => Err(code),
                    None => {
                        let h = self.handles.len();
                        proof {
                            lemma_count_open_push(
                                self.handles@,
                                HandleSlot { open: true, pid },
                            );
                        }
                        self.handles.push(HandleSlot { open: true, pid });
                        Ok(h)
                    },
                }
            },
        }
    }

    /// Copies the executable-path buffer of the process an open handle
    /// refers to, as the kernel's path query fills it: a fixed-capacity
    /// NUL-terminated byte buffer.
    pub fn query_process_path(&self, h: usize) -> (r: Result<Vec<u8>, u32>)
        requires
            h < self.handles@.len(),
            self.handles@[h as int].open,
        ensures
            match r {
                Ok(buf) => spec_find_proc(self.processes@, self.handles@[h as int].pid)
                    matches Some(j) && self.processes@[j].path_error is None && buf@
                    == self.processes@[j].path_raw@,
                Err(code) => match spec_find_proc(
                    self.processes@,
                    self.handles@[h as int].pid,
                ) {
                    Some(j) => self.processes@[j].path_error == Some(code),
                    None => code == ERR_NO_SUCH_PROCESS,
                },
            },
    {
        let pid = self.handles[h].pid;
        match self.find_proc_index(pid) {
            None => Err(ERR_NO_SUCH_PROCESS),
            Some(j) => {
                match self.processes[j].path_error {
                    Some(code) => Err(code),
                    None => Ok(copy_bytes(&self.processes[j].path_raw)),
                }
            },
        }
    }

    /// Creates a transient module-enumeration snapshot of the process with
    /// the given identifier. A successful snapshot occupies a fresh open
    /// slot of the handle table and must be closed like any other handle.
    pub fn create_snapshot(&mut self, pid: u32) -> (r: Result<usize, u32>)
        ensures
            old(self).windows@ == final(self).windows@,
            old(self).processes@ == final(self).processes@,
            match r {
                Ok(h) => {
                    &&& spec_find_proc(old(self).processes@, pid) matches Some(j)
                        && old(self).processes@[j].snapshot_error is None
                    &&& h == old(self).handles@.len()
                    &&& final(self).handles@ == old(self).handles@.push(
                        HandleSlot { open: true, pid },
                    )
                    &&& final(self).open_count() == old(self).open_count() + 1
                },
                Err(code) => {
                    &&& final(self).handles@ == old(self).handles@
                    &&& match spec_find_proc(old(self).processes@, pid) {
                        Some(j) => old(self).processes@[j].snapshot_error == Some(code),
                        None => code == ERR_NO_SUCH_PROCESS,
                    }
                },
            },
    {
        match self.find_proc_index(pid) {
            None => Err(ERR_NO_SUCH_PROCESS),
            Some(j) => {
                match self.processes[j].snapshot_error {
                    Some(code) => Err(code),
                    None => {
                        let h = self.handles.len();
                        proof {
                            lemma_count_open_push(
                                self.handles@,
                                HandleSlot { open: true, pid },
                            );
                        }
                        self.handles.push(HandleSlot { open: true, pid });
                        Ok(h)
                    },
                }
            },
        }
    }

    /// Reads the `k`-th record of the module list behind an open snapshot
    /// handle; `None` once `k` runs past the end of the list (or when the
    /// snapshot's process has no record).
    pub fn snapshot_module(&self, h: usize, k: usize) -> (r: Option<&ModuleRecord>)
        requires
            h < self.handles@.len(),
            self.handles@[h as int].open,
        ensures
            r is Some ==> k < usize::MAX,
            match spec_find_proc(self.processes@, self.handles@[h as int].pid) {
                Some(j) => if k < self.processes@[j].modules@.len() {
                    r matches Some(m) && *m == self.processes@[j].modules@[k as int]
                } else {
                    r is None
                },
                None => r is None,
            },
    {
        let pid = self.handles[h].pid;
        match self.find_proc_index(pid) {
            None => None,
            Some(j) => {
                let ms = &self.processes[j].modules;
                if k < ms.len() {
                    Some(&ms[k])
                } else {
                    None
                }
            },
        }
    }

    /// Closes one handle-table slot. Closing an already-closed slot leaves
    /// the open-handle count unchanged.
    pub fn close_handle(&mut self, h: usize)
        requires
            h < old(self).handles@.len(),
        ensures
            old(self).windows@ == final(self).windows@,
            old(self).processes@ == final(self).processes@,
            final(self).handles@ == old(self).handles@.update(
                h as int,
                HandleSlot { open: false, pid: old(self).handles@[h as int].pid },
            ),
            final(self).open_count() == old(self).open_count() - (if old(
                self,
            ).handles@[h as int].open {
                1int
            } else {
                0int
            }),
    {
        let pid = self.handles[h].pid;
        proof {
            lemma_count_open_update(
                self.handles@,
                h as int,
                HandleSlot { open: false, pid },
            );
        }
        self.handles.set(h, HandleSlot { open: false, pid });
    }

    /// A remote memory read through an open process handle: `len` bytes at
    /// `addr` in the target's address space. The kernel reports success and
    /// the transferred-byte count independently; the read succeeds only when
    /// the whole range was transferred, and the buffer holds the transferred
    /// bytes followed by zeroes.
    pub fn read_process_memory(&self, h: usize, addr: u64, len: usize) -> (r: (
        bool,
        usize,
        Vec<u8>,
    ))
        requires
            h < self.handles@.len(),
            self.handles@[h as int].open,
        ensures
            r.2@.len() == len,
            match spec_find_proc(self.processes@, self.handles@[h as int].pid) {
                Some(j) => {
                    &&& r.1 == spec_transfer(self.processes@[j], addr as int, len as int)
                    &&& r.0 == (r.1 == len)
                    &&& r.2@ == spec_read_bytes(self.processes@[j], addr as int, len as nat)
                },
                None => r.0 == false && r.1 == 0 && r.2@ == Seq::new(
                    len as nat,
                    |q: int| 0u8,
                ),
            },
    {
        let pid = self.handles[h].pid;
        match self.find_proc_index(pid) {
            None => {
                let out = zero_bytes(len);
                assert(out@ =~= Seq::new(len as nat, |q: int| 0u8));
                (false, 0, out)
            },
            Some(j) => {
                let p = &self.processes[j];
                let mlen = p.mem.len();
                let mut off: usize = 0;
                let t: usize;
                if p.mem_start <= addr && addr - p.mem_start < mlen as u64 {
                    off = (addr - p.mem_start) as usize;
                    let avail = mlen - off;
                    t = if len <= avail {
                        len
                    } else {
                        avail
                    };
                } else {
                    t = 0;
                }
                assert(t == spec_transfer(self.processes@[j as int], addr as int, len as int));
                assert(t > 0 ==> off == addr - p.mem_start && off + t <= p.mem@.len());
                let mut out: Vec<u8> = Vec::new();
                let mut q: usize = 0;
                while q < t
                    invariant
                        0 <= q <= t,
                        t == spec_transfer(*p, addr as int, len as int),
                        t <= len,
                        t > 0 ==> off == addr - p.mem_start,
                        mlen == p.mem@.len(),
                        off + t <= mlen,
                        *p == self.processes@[j as int],
                        out@.len() == q,
                        forall|x: int|
                            0 <= x < q ==> out@[x] == p.mem@[addr - p.mem_start + x],
                    decreases t - q,
                {
                    out.push(p.mem[off + q]);
                    q = q + 1;
                }
                while q < len
                    invariant
                        t <= q <= len,
                        t == spec_transfer(*p, addr as int, len as int),
                        *p == self.processes@[j as int],
                        out@.len() == q,
                        forall|x: int|
                            0 <= x < t ==> out@[x] == p.mem@[addr - p.mem_start + x],
                        forall|x: int| t <= x < q ==> out@[x] == 0u8,
                    decreases len - q,
                {
                    out.push(0u8);
                    q = q + 1;
                }
                assert(out@ =~= spec_read_bytes(self.processes@[j as int], addr as int, len as nat));
                (t == len, t, out)
            },
        }
    }
}

/// Copies a byte buffer, as the kernel does when it fills a caller's buffer.
fn copy_bytes(src: &Vec<u8>) -> (r: Vec<u8>)
    ensures
        r@ == src@,
{
    let mut out: Vec<u8> = Vec::new();
    let n = src.len();
    let mut i: usize = 0;
    while i < n
        invariant
            0 <= i <= n == src@.len(),
            out@ == src@.take(i as int),
        decreases n - i,
    {
        let b = src[i];
        out.push(b);
        assert(out@ =~= src@.take(i + 1 as int));
        i = i + 1;
    }
    assert(out@ =~= src@);
    out
}

/// A zero-filled buffer of the given length.
fn zero_bytes(len: usize) -> (r: Vec<u8>)
    ensures
        r@.len() == len,
        forall|x: int| 0 <= x < len ==> r@[x] == 0u8,
{
    let mut out: Vec<u8> = Vec::new();
    let mut i: usize = 0;
    while i < len
        invariant
            0 <= i <= len,
            out@.len() == i,
            forall|x: int| 0 <= x < i ==> out@[x] == 0u8,
        decreases len - i,
    {
        out.push(0u8);
        i = i + 1;
    }
    out
}

} // verus!
