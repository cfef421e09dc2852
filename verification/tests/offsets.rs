use shspectr::common::offset_idx;
use shspectr::common::offsets::TaskFieldOffsets;

#[test]
fn task_field_offsets_array_length_matches_count() {
    let offsets = TaskFieldOffsets {
        task_real_parent: 10,
        task_tgid: 20,
        task_cred: 30,
        cred_euid: 40,
        task_signal: 50,
        signal_tty: 60,
        tty_index: 70,
        task_files: 80,
        files_fdt: 90,
        fdt_fd: 100,
        file_inode: 110,
        inode_rdev: 120,
    };
    let arr = offsets.as_array();
    assert_eq!(arr.len(), offset_idx::COUNT as usize);
    assert_eq!(arr[offset_idx::TASK_REAL_PARENT as usize], 10);
    assert_eq!(arr[offset_idx::TASK_TGID as usize], 20);
    assert_eq!(arr[offset_idx::TASK_CRED as usize], 30);
    assert_eq!(arr[offset_idx::CRED_EUID as usize], 40);
    assert_eq!(arr[offset_idx::TASK_SIGNAL as usize], 50);
    assert_eq!(arr[offset_idx::SIGNAL_TTY as usize], 60);
    assert_eq!(arr[offset_idx::TTY_INDEX as usize], 70);
    assert_eq!(arr[offset_idx::TASK_FILES as usize], 80);
    assert_eq!(arr[offset_idx::FILES_FDT as usize], 90);
    assert_eq!(arr[offset_idx::FDT_FD as usize], 100);
    assert_eq!(arr[offset_idx::FILE_INODE as usize], 110);
    assert_eq!(arr[offset_idx::INODE_RDEV as usize], 120);
}

#[test]
fn task_field_offsets_size() {
    assert_eq!(std::mem::size_of::<TaskFieldOffsets>(), 96);
}
