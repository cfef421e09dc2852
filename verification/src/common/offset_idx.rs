//! Array map indices for `TaskFieldOffsets` fields, used with a
//! `BPF_MAP_TYPE_ARRAY` of `u64` values.

use vstd::prelude::*;

verus! {

pub const TASK_REAL_PARENT: u32 = 0;
pub const TASK_TGID: u32 = 1;
pub const TASK_CRED: u32 = 2;
pub const CRED_EUID: u32 = 3;
pub const TASK_SIGNAL: u32 = 4;
pub const SIGNAL_TTY: u32 = 5;
pub const TTY_INDEX: u32 = 6;
pub const TASK_FILES: u32 = 7;
pub const FILES_FDT: u32 = 8;
pub const FDT_FD: u32 = 9;
pub const FILE_INODE: u32 = 10;
pub const INODE_RDEV: u32 = 11;
pub const COUNT: u32 = 12;

} // verus!
