//! The remote value reader: from a module-relative offset to a decoded
//! little-endian value in an attached process's memory.

use vstd::prelude::*;
use crate::os::{spec_find_proc, spec_transfer, OsState};
use crate::process::{spec_module_base, Process};

verus! {

/// Name of the module whose image holds the target value.
pub const CLIENT_DLL_NAME: &'static str = "client.dll";

/// Offset of the target value relative to the module's base load address.
pub const HP_OFFSET: u64 = 0x00C3938C;

/// Width of the target value in bytes.
pub const HP_WIDTH: usize = 2;

/// Why a remote value read failed.
#[derive(Clone, Copy, Debug, PartialEq, Eq, Structural)]
pub enum ReadError {
    /// Adding the offset to the base address would overflow the address
    /// width; the read fails instead of wrapping around silently.
    AddressOverflow,
    /// The kernel reported failure, or transferred fewer bytes than
    /// requested; no partial or zero-filled value is handed back.
    RemoteReadFailed,
}

/// The unsigned value of two little-endian bytes.
pub open spec fn spec_le16(lo: u8, hi: u8) -> u16 {
    (lo + hi * 0x100) as u16
}

/// Decodes two little-endian bytes as their unsigned value.
pub fn le16(lo: u8, hi: u8) -> (v: u16)
    ensures
        v == spec_le16(lo, hi),
{
    lo as u16 + hi as u16 * 0x100
}

/// Splits a value into its little-endian bytes (low byte first).
pub fn le16_bytes(v: u16) -> (r: (u8, u8))
    ensures
        spec_le16(r.0, r.1) == v,
        r.0 == v % 0x100,
        r.1 == v / 0x100,
{
    ((v % 0x100) as u8, (v / 0x100) as u8)
}

/// A reader for the target value of one attached process: the owned process
/// handle together with the resolved base load address of the target
/// module.
pub struct PlayerState {
    pub process: Process,
    /// Base load address of [`CLIENT_DLL_NAME`] in the attached process.
    pub client_base_addr: u64,
}

/// What a remote value read must yield on a given kernel state: the two
/// bytes at base + offset decoded little-endian when the whole range is
/// readable, and the exact failure otherwise.
pub open spec fn spec_get_hp(os: OsState, ps: PlayerState) -> Result<u32, ReadError> {
    if ps.client_base_addr + HP_OFFSET > u64::MAX {
        Err(ReadError::AddressOverflow)
    } else {
        let addr = ps.client_base_addr + HP_OFFSET;
        match spec_find_proc(os.processes@, ps.process.process_id) {
            None => Err(ReadError::RemoteReadFailed),
            Some(j) => if spec_transfer(os.processes@[j], addr, HP_WIDTH as int)
                == HP_WIDTH {
                Ok(
                    spec_le16(
                        os.processes@[j].mem@[addr - os.processes@[j].mem_start],
                        os.processes@[j].mem@[addr - os.processes@[j].mem_start + 1],
                    ) as u32,
                )
            } else {
                Err(ReadError::RemoteReadFailed)
            },
        }
    }
}

impl PlayerState {
    /// The owned process handle is in good standing against the kernel
    /// state.
    pub open spec fn wf(self, os: OsState) -> bool {
        self.process.wf(os)
    }

    /// Builds the reader for an attached process by resolving the base load
    /// address of the target module. A failed lookup propagates as `None`;
    /// the absent base address is never dereferenced.
    pub fn new(process: Process, os: &mut OsState) -> (r: Option<PlayerState>)
        ensures
            old(os).extends(*final(os)),
            final(os).open_count() == old(os).open_count(),
            forall|k: int|
                old(os).handles@.len() <= k < final(os).handles@.len()
                    ==> !final(os).handles@[k].open,
            old(os).wf() ==> final(os).wf(),
            match r {
                Some(ps) => {
                    &&& ps.process == process
                    &&& spec_module_base(*old(os), process.process_id, CLIENT_DLL_NAME@)
                        == Some(ps.client_base_addr)
                },
                None => spec_module_base(*old(os), process.process_id, CLIENT_DLL_NAME@) is None,
            },
    {
        let base = match process.find_module_info(os, CLIENT_DLL_NAME) {
            None => {
                return None;
            },
            Some(b) => b,
        };
        Some(PlayerState { process, client_base_addr: base })
    }

    /// Reads the player's HP field: computes the absolute remote address
    /// (failing, not wrapping, on overflow), performs the bounded remote
    /// read, checks both the kernel's success report and the
    /// transferred-byte count, and decodes the buffer as a little-endian
    /// unsigned integer. A partial or failed transfer is an error, never a
    /// garbage value.
    pub fn get_hp(&self, os: &OsState) -> (r: Result<u32, ReadError>)
        requires
            self.wf(*os),
            self.process.open,
        ensures
            r == spec_get_hp(*os, *self),
    {
        let addr = match self.client_base_addr.checked_add(HP_OFFSET) {
            None => {
                return Err(ReadError::AddressOverflow);
            },
            Some(a) => a,
        };
        let (ok, n, buf) = os.read_process_memory(self.process.handle, addr, HP_WIDTH);
        if ok && n == HP_WIDTH {
            Ok(le16(buf[0], buf[1]) as u32)
        } else {
            Err(ReadError::RemoteReadFailed)
        }
    }
}

/// A short transfer is a failure: when fewer bytes than requested can be
/// read at base + offset, the remote value read resolves to
/// `RemoteReadFailed` — never to a partial or zero-filled value.
pub proof fn lemma_short_transfer_fails(os: OsState, ps: PlayerState, j: int)
    requires
        ps.client_base_addr + HP_OFFSET <= u64::MAX,
        spec_find_proc(os.processes@, ps.process.process_id) == Some(j),
        0 <= j < os.processes@.len(),
        spec_transfer(os.processes@[j], ps.client_base_addr + HP_OFFSET, HP_WIDTH as int)
            < HP_WIDTH,
    ensures
        spec_get_hp(os, ps) == Err::<u32, ReadError>(ReadError::RemoteReadFailed),
{
}

/// Round trip: when the readable region of the target process holds the
/// little-endian encoding of `v` at base + offset, the remote value read
/// yields exactly `v`.
pub proof fn lemma_read_round_trip(os: OsState, ps: PlayerState, j: int, v: u16)
    requires
        ps.client_base_addr + HP_OFFSET <= u64::MAX,
        spec_find_proc(os.processes@, ps.process.process_id) == Some(j),
        0 <= j < os.processes@.len(),
        os.processes@[j].mem_start <= ps.client_base_addr + HP_OFFSET,
        ps.client_base_addr + HP_OFFSET + HP_WIDTH <= os.processes@[j].mem_start
            + os.processes@[j].mem@.len(),
        os.processes@[j].mem@[ps.client_base_addr + HP_OFFSET
            - os.processes@[j].mem_start] == v % 0x100,
        os.processes@[j].mem@[ps.client_base_addr + HP_OFFSET - os.processes@[j].mem_start
            + 1] == v / 0x100,
    ensures
        spec_get_hp(os, ps) == Ok::<u32, ReadError>(v as u32),
{
    assert(spec_le16((v % 0x100) as u8, (v / 0x100) as u8) == v);
}

} // verus!
