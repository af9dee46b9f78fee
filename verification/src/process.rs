//! The process handle: attaching by window title, module-base lookup, and
//! deterministic release of the owned kernel handle.

use vstd::prelude::*;
use crate::os::{
    lemma_find_module_props, lemma_find_proc_props, lemma_find_window_props, module_matches,
    spec_find_module, spec_find_proc, spec_find_window, HandleSlot, OsState, ERR_NO_SUCH_PROCESS,
};
use crate::util::{decoded, string_from_bytes};

verus! {

/// Which step of the attach sequence failed.
#[derive(Clone, Copy, Debug, PartialEq, Eq, Structural)]
pub enum AttachError {
    /// No top-level window bears exactly the given title.
    WindowNotFound,
    /// Opening a process handle failed, with the kernel's error code.
    ProcessOpenFailed(u32),
    /// The executable-path query failed after a successful open, with the
    /// kernel's error code.
    PathQueryFailed(u32),
    /// The path buffer's bytes before the terminator are not valid UTF-8.
    InvalidEncoding,
}

/// The outcome of the attach sequence against a given process record: the
/// first failing step's error, or the process identifier and decoded
/// executable path.
pub open spec fn spec_attach_pid(os: OsState, pid: u32) -> Result<(u32, Seq<char>), AttachError> {
    match spec_find_proc(os.processes@, pid) {
        None => Err(AttachError::ProcessOpenFailed(ERR_NO_SUCH_PROCESS)),
        Some(j) => match os.processes@[j].open_error {
            Some(code) => Err(AttachError::ProcessOpenFailed(code)),
            None => match os.processes@[j].path_error {
                Some(code) => Err(AttachError::PathQueryFailed(code)),
                None => match decoded(os.processes@[j].path_raw@) {
                    None => Err(AttachError::InvalidEncoding),
                    Some(chars) => Ok((pid, chars)),
                },
            },
        },
    }
}

/// The outcome of the whole attach sequence: resolve the first window whose
/// title is exactly `title`, then run the per-process steps against its
/// owner.
pub open spec fn spec_attach(os: OsState, title: Seq<char>) -> Result<
    (u32, Seq<char>),
    AttachError,
> {
    match spec_find_window(os.windows@, title) {
        None => Err(AttachError::WindowNotFound),
        Some(i) => spec_attach_pid(os, os.windows@[i].owner_pid),
    }
}

/// The base load address of the first module of process `pid` whose decoded
/// name is exactly `name`, or nothing when the process has no record, its
/// snapshot cannot be created, or no module matches.
pub open spec fn spec_module_base(os: OsState, pid: u32, name: Seq<char>) -> Option<u64> {
    match spec_find_proc(os.processes@, pid) {
        None => None,
        Some(j) => if os.processes@[j].snapshot_error is Some {
            None
        } else {
            match spec_find_module(os.processes@[j].modules@, name) {
                None => None,
                Some(m) => Some(os.processes@[j].modules@[m].base),
            }
        },
    }
}

/// When no top-level window bears the title, the attach sequence resolves
/// to `WindowNotFound` — never to a later step's error.
pub proof fn lemma_attach_window_not_found(os: OsState, title: Seq<char>)
    requires
        forall|i: int| 0 <= i < os.windows@.len() ==> os.windows@[i].title@ != title,
    ensures
        spec_attach(os, title) == Err::<(u32, Seq<char>), AttachError>(
            AttachError::WindowNotFound,
        ),
{
    lemma_find_window_props(os.windows@, title, 0);
}

/// When the process has a record, its snapshot can be taken, and position
/// `m` holds the first module whose decoded name is `name`, the module-base
/// lookup resolves to exactly that module's base load address.
pub proof fn lemma_module_base_found(os: OsState, pid: u32, name: Seq<char>, j: int, m: int)
    requires
        spec_find_proc(os.processes@, pid) == Some(j),
        0 <= j < os.processes@.len(),
        os.processes@[j].snapshot_error is None,
        0 <= m < os.processes@[j].modules@.len(),
        module_matches(os.processes@[j].modules@[m], name),
        forall|x: int| 0 <= x < m ==> !module_matches(
            #[trigger] os.processes@[j].modules@[x],
            name,
        ),
    ensures
        spec_module_base(os, pid, name) == Some(os.processes@[j].modules@[m].base),
{
    lemma_find_module_props(os.processes@[j].modules@, name, 0);
}

/// Position right after the last path separator among the first `i`
/// characters of `path` (0 when none occurs there).
pub open spec fn after_last_sep(path: Seq<char>, i: int) -> int
    decreases i,
{
    if i <= 0 {
        0
    } else if path[i - 1] == '/' || path[i - 1] == '\\' {
        i
    } else {
        after_last_sep(path, i - 1)
    }
}

/// The final component of a path: the characters after its last separator;
/// nothing when the path is empty or ends in a separator.
pub open spec fn spec_file_name(path: Seq<char>) -> Option<Seq<char>> {
    if after_last_sep(path, path.len() as int) == path.len() {
        None
    } else {
        Some(path.subrange(after_last_sep(path, path.len() as int), path.len() as int))
    }
}

/// An attached process: the sole owner of one opened process handle, plus
/// the cached identity read during the attach sequence.
pub struct Process {
    /// Absolute path of the executable backing the process, decoded from
    /// the kernel's path buffer.
    pub path: String,
    /// The process identifier.
    pub process_id: u32,
    /// The owned slot of the handle table.
    pub handle: usize,
    /// Whether the owned handle is still open. [`Process::close`] clears it
    /// the first time, so the slot is released exactly once.
    pub open: bool,
}

impl Process {
    /// The owned handle refers to a slot of the table, and — while it is
    /// open — that slot is open and names this process.
    pub open spec fn wf(self, os: OsState) -> bool {
        &&& self.handle < os.handles@.len()
        &&& self.open ==> os.handles@[self.handle as int].open
        &&& self.open ==> os.handles@[self.handle as int].pid == self.process_id
    }

    /// Attaches to the process owning the top-level window whose title is
    /// exactly `title` (no substring match, no retry): resolves the window,
    /// resolves its owning process identifier, opens a handle with full
    /// access, then queries and decodes the executable path.
    ///
    /// Every failure is reported as the failing step's error, and a handle
    /// opened by a step whose successor fails is closed again before the
    /// error returns: on failure the table's open-handle count is exactly
    /// what it was. On success the count has grown by the one handle the
    /// returned value owns.
    pub fn from_window(os: &mut OsState, title: &str) -> (r: Result<Process, AttachError>)
        requires
            old(os).wf(),
        ensures
            old(os).extends(*final(os)),
            final(os).wf(),
            match r {
                Ok(p) => {
                    &&& spec_attach(*old(os), title@) == Ok::<_, AttachError>(
                        (p.process_id, p.path@),
                    )
                    &&& p.open
                    &&& p.handle == old(os).handles@.len()
                    &&& p.wf(*final(os))
                    &&& final(os).handles@ == old(os).handles@.push(
                        (HandleSlot { open: true, pid: p.process_id }),
                    )
                    &&& final(os).open_count() == old(os).open_count() + 1
                },
                Err(e) => {
                    &&& spec_attach(*old(os), title@) == Err::<(u32, Seq<char>), _>(e)
                    &&& final(os).open_count() == old(os).open_count()
                    &&& forall|k: int|
                        old(os).handles@.len() <= k < final(os).handles@.len()
                            ==> !final(os).handles@[k].open
                },
            },
    {
        let win = match os.find_window(title) {
            None => {
                return Err(AttachError::WindowNotFound);
            },
            Some(i) => i,
        };
        proof {
            lemma_find_window_props(os.windows@, title@, 0);
        }
        let pid = os.window_owner_pid(win);
        let h = match os.open_process(pid) {
            Err(code) => {
                return Err(AttachError::ProcessOpenFailed(code));
            },
            Ok(h) => h,
        };
        let buf = match os.query_process_path(h) {
            Err(code) => {
                os.close_handle(h);
                return Err(AttachError::PathQueryFailed(code));
            },
            Ok(b) => b,
        };
        let path = match string_from_bytes(buf.as_slice()) {
            None => {
                os.close_handle(h);
                return Err(AttachError::InvalidEncoding);
            },
            Some(s) => s,
        };
        Ok(Process { path, process_id: pid, handle: h, open: true })
    }

    /// The owned handle (its slot in the table), for read and write
    /// operations against the process.
    pub fn handle(&self) -> (h: usize)
        ensures
            h == self.handle,
    {
        self.handle
    }

    /// The name of the executable that spawned this process: the final
    /// component of its absolute path.
    pub fn name(&self) -> (r: Option<&str>)
        ensures
            match r {
                Some(n) => spec_file_name(self.path@) == Some(n@),
                None => spec_file_name(self.path@) is None,
            },
    {
        let s = self.path.as_str();
        let len = s.unicode_len();
        let mut i: usize = len;
        while i > 0
            invariant
                i <= len == s@.len(),
                s@ == self.path@,
                after_last_sep(s@, len as int) == after_last_sep(s@, i as int),
            decreases i,
        {
            let c = s.get_char(i - 1);
            if c == '/' || c == '\\' {
                if i == len {
                    return None;
                }
                return Some(s.substring_char(i, len));
            }
            i = i - 1;
        }
        if len == 0 {
            return None;
        }
        assert(self.path@.subrange(0, len as int) =~= self.path@);
        Some(s)
    }

    /// The absolute path of the process executable.
    pub fn path(&self) -> (r: Option<&str>)
        ensures
            r matches Some(p) && p@ == self.path@,
    {
        Some(self.path.as_str())
    }

    /// Looks up the base load address of the module named `name` in this
    /// process: takes a transient module-list snapshot, scans it in
    /// enumeration order, and returns the first record whose decoded name
    /// equals `name` exactly (case-sensitively). The snapshot is closed on
    /// every exit path — found, not found, or empty list — so the
    /// open-handle count never changes. `None` when the snapshot cannot be
    /// created or no module matches.
    pub fn find_module_info(&self, os: &mut OsState, name: &str) -> (r: Option<u64>)
        ensures
            old(os).extends(*final(os)),
            final(os).open_count() == old(os).open_count(),
            forall|k: int|
                old(os).handles@.len() <= k < final(os).handles@.len()
                    ==> !final(os).handles@[k].open,
            old(os).wf() ==> final(os).wf(),
            match r {
                Some(base) => spec_module_base(*old(os), self.process_id, name@) == Some(base),
                None => spec_module_base(*old(os), self.process_id, name@) is None,
            },
    {
        let ghost os0 = *os;
        let snap = match os.create_snapshot(self.process_id) {
            Err(_code) => {
                return None;
            },
            Ok(h) => h,
        };
        proof {
            lemma_find_proc_props(os.processes@, self.process_id, 0);
        }
        let ghost jj: int = choose|jj: int|
            spec_find_proc(os0.processes@, self.process_id) == Some(jj);
        let query = name.to_owned();
        let mut k: usize = 0;
        loop
            invariant
                os0 == *old(os),
                os.windows@ == os0.windows@,
                os.processes@ == os0.processes@,
                os.handles@ == os0.handles@.push(
                    (HandleSlot { open: true, pid: self.process_id }),
                ),
                snap == os0.handles@.len(),
                os.open_count() == os0.open_count() + 1,
                spec_find_proc(os.processes@, self.process_id) == Some(jj),
                0 <= jj < os.processes@.len(),
                os.processes@[jj].snapshot_error is None,
                query@ == name@,
                k <= os.processes@[jj].modules@.len(),
                spec_find_module(os.processes@[jj].modules@, name@)
                    == crate::os::find_module_from(os.processes@[jj].modules@, name@, k as int),
            decreases os.processes@[jj].modules@.len() - k,
        {
            let (matched, base, past_end) = match os.snapshot_module(snap, k) {
                None => (false, 0u64, true),
                Some(m) => {
                    let base = m.base;
                    let matched = match string_from_bytes(m.name_raw.as_slice()) {
                        Some(s) => s == query,
                        None => false,
                    };
                    (matched, base, false)
                },
            };
            if past_end {
                os.close_handle(snap);
                return None;
            }
            if matched {
                os.close_handle(snap);
                return Some(base);
            }
            k = k + 1;
        }
    }

    /// Releases the owned process handle. The first call closes the
    /// handle-table slot; any later call changes nothing, so the underlying
    /// handle is released exactly once however often the close path runs.
    pub fn close(&mut self, os: &mut OsState)
        requires
            old(self).wf(*old(os)),
        ensures
            !final(self).open,
            final(self).handle == old(self).handle,
            final(self).process_id == old(self).process_id,
            final(self).path == old(self).path,
            final(os).windows@ == old(os).windows@,
            final(os).processes@ == old(os).processes@,
            final(self).wf(*final(os)),
            old(os).wf() ==> final(os).wf(),
            if old(self).open {
                final(os).handles@ == old(os).handles@.update(
                    old(self).handle as int,
                    (HandleSlot { open: false, pid: old(self).process_id }),
                ) && final(os).open_count() == old(os).open_count() - 1
            } else {
                final(os).handles@ == old(os).handles@ && final(os).open_count() == old(
                    os,
                ).open_count()
            },
    {
        if self.open {
            os.close_handle(self.handle);
            self.open = false;
        }
    }
}

} // verus!
