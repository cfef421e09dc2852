//! Kernel struct field offsets resolved from BTF and handed to the probes.

use vstd::prelude::*;

use crate::common::offset_idx;

verus! {

/// Byte offsets resolved from kernel BTF at runtime, shared with eBPF
/// via an array map. These allow reading `ppid`, `euid`, and `tty_nr`
/// from `task_struct` without hardcoding kernel-version-specific offsets.
#[derive(Debug, Clone, Copy, PartialEq, Eq, Structural)]
pub struct TaskFieldOffsets {
    /// Offset of `real_parent` (ptr) in `task_struct`.
    pub task_real_parent: u64,
    /// Offset of `tgid` (pid_t) in `task_struct`.
    pub task_tgid: u64,
    /// Offset of `cred` (ptr) in `task_struct`.
    pub task_cred: u64,
    /// Offset of `euid` (kuid_t) in `cred`.
    pub cred_euid: u64,
    /// Offset of `signal` (ptr) in `task_struct`.
    pub task_signal: u64,
    /// Offset of `tty` (ptr) in `signal_struct`.
    pub signal_tty: u64,
    /// Offset of `index` (int) in `tty_struct`.
    pub tty_index: u64,
    /// Offset of `files` (ptr) in `task_struct`.
    pub task_files: u64,
    /// Offset of `fdt` (ptr) in `files_struct`.
    pub files_fdt: u64,
    /// Offset of `fd` (ptr) in `fdtable`.
    pub fdt_fd: u64,
    /// Offset of `f_inode` (ptr) in `file`.
    pub file_inode: u64,
    /// Offset of `i_rdev` (dev_t) in `inode`.
    pub inode_rdev: u64,
}

/// The offsets in map order: the value at index `offset_idx::X` is the
/// field `X`.
pub open spec fn offsets_in_map_order(o: TaskFieldOffsets) -> Seq<u64> {
    seq![
        o.task_real_parent,
        o.task_tgid,
        o.task_cred,
        o.cred_euid,
        o.task_signal,
        o.signal_tty,
        o.tty_index,
        o.task_files,
        o.files_fdt,
        o.fdt_fd,
        o.file_inode,
        o.inode_rdev,
    ]
}

impl TaskFieldOffsets {
    /// Return all offsets as an array indexed by `offset_idx` constants.
    ///
    /// This is the single source of truth for the mapping between struct
    /// fields and BPF array map indices.
    pub fn as_array(&self) -> (r: [u64; 12])
        ensures
            r@ == offsets_in_map_order(*self),
            r@.len() == offset_idx::COUNT,
    {
        let r = [
            self.task_real_parent,
            self.task_tgid,
            self.task_cred,
            self.cred_euid,
            self.task_signal,
            self.signal_tty,
            self.tty_index,
            self.task_files,
            self.files_fdt,
            self.fdt_fd,
            self.file_inode,
            self.inode_rdev,
        ];
        assert(r@ =~= offsets_in_map_order(*self));
        r
    }
}

/// Each index constant picks its own field out of the map-order array, and
/// the array holds exactly `COUNT` offsets.
pub proof fn law_index_constants_pick_their_fields(o: TaskFieldOffsets)
    ensures
        offsets_in_map_order(o).len() == offset_idx::COUNT,
        offsets_in_map_order(o)[offset_idx::TASK_REAL_PARENT as int] == o.task_real_parent,
        offsets_in_map_order(o)[offset_idx::TASK_TGID as int] == o.task_tgid,
        offsets_in_map_order(o)[offset_idx::TASK_CRED as int] == o.task_cred,
        offsets_in_map_order(o)[offset_idx::CRED_EUID as int] == o.cred_euid,
        offsets_in_map_order(o)[offset_idx::TASK_SIGNAL as int] == o.task_signal,
        offsets_in_map_order(o)[offset_idx::SIGNAL_TTY as int] == o.signal_tty,
        offsets_in_map_order(o)[offset_idx::TTY_INDEX as int] == o.tty_index,
        offsets_in_map_order(o)[offset_idx::TASK_FILES as int] == o.task_files,
        offsets_in_map_order(o)[offset_idx::FILES_FDT as int] == o.files_fdt,
        offsets_in_map_order(o)[offset_idx::FDT_FD as int] == o.fdt_fd,
        offsets_in_map_order(o)[offset_idx::FILE_INODE as int] == o.file_inode,
        offsets_in_map_order(o)[offset_idx::INODE_RDEV as int] == o.inode_rdev,
{
}

} // verus!
