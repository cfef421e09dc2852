//! Where the recorder finds its eBPF program, and what it needs from the
//! host before it can load it.

use vstd::prelude::*;

use crate::text::{owned, push_str};

verus! {

/// The parent of a path, as `std::path::Path::parent` gives it.
pub uninterp spec fn parent_of(p: Seq<char>) -> Option<Seq<char>>;

/// The last component of a path, as `std::path::Path::file_name` gives it.
pub uninterp spec fn file_name_of(p: Seq<char>) -> Option<Seq<char>>;

/// `rest` joined onto `base`, as `std::path::Path::join` gives it.
pub uninterp spec fn joined(base: Seq<char>, rest: Seq<char>) -> Seq<char>;

/// The parent of a path (`std::path::Path::parent`). The result is named,
/// as a function of the path.
#[verifier::external_body]
fn path_parent(p: &str) -> (r: Option<String>)
    ensures
        match r {
            Some(q) => parent_of(p@) == Some(q@),
            None => parent_of(p@) is None,
        },
{
    std::path::Path::new(p).parent().map(|q| q.to_string_lossy().into_owned())
}

/// The last component of a path (`std::path::Path::file_name`). The result
/// is named, as a function of the path.
#[verifier::external_body]
fn path_file_name(p: &str) -> (r: Option<String>)
    ensures
        match r {
            Some(q) => file_name_of(p@) == Some(q@),
            None => file_name_of(p@) is None,
        },
{
    std::path::Path::new(p).file_name().map(|q| q.to_string_lossy().into_owned())
}

/// A path joined onto another (`std::path::Path::join`). The result is
/// named, as a function of both paths.
#[verifier::external_body]
fn path_join(base: &str, rest: &str) -> (r: String)
    ensures
        r@ == joined(base@, rest@),
{
    std::path::Path::new(base).join(rest).to_string_lossy().into_owned()
}

/// The artifact inside the workspace, relative to the workspace root.
pub open spec fn workspace_artifact() -> Seq<char> {
    "shspectr-ebpf/target/bpfel-unknown-none/release/shspectr-ebpf"@
}

/// The grandparent of a path.
pub open spec fn grandparent_of(p: Seq<char>) -> Option<Seq<char>> {
    match parent_of(p) {
        Some(q) => parent_of(q),
        None => None,
    }
}

/// Where the eBPF artifact is looked for: a non-empty override wins; a
/// binary in a `debug` or `release` directory (a build tree) uses the
/// workspace layout three levels up; otherwise the artifact sits next to
/// the binary's directory, or, when the binary has no grandparent, in the
/// source tree the recorder was built from (`manifest_dir`).
pub open spec fn artifact_path(env_override: Option<Seq<char>>, exe: Seq<char>, manifest_dir: Seq<char>) -> Seq<char> {
    let in_build_tree = match parent_of(exe) {
        Some(dir) => match file_name_of(dir) {
            Some(name) => name == "debug"@ || name == "release"@,
            None => false,
        },
        None => false,
    };
    let workspace_root = match grandparent_of(exe) {
        Some(g) => parent_of(g),
        None => None,
    };
    match env_override {
        Some(p) if p.len() > 0 => p,
        _ => if in_build_tree && workspace_root is Some {
            joined(workspace_root->0, workspace_artifact())
        } else {
            match grandparent_of(exe) {
                Some(root) => joined(root, "shspectr-ebpf"@),
                None => manifest_dir + "/../"@ + workspace_artifact(),
            }
        },
    }
}

/// The parent of an optional path.
fn parent_of_opt(p: &Option<String>) -> (r: Option<String>)
    ensures
        match *p {
            Some(q) => match r {
                Some(x) => parent_of(q@) == Some(x@),
                None => parent_of(q@) is None,
            },
            None => r is None,
        },
{
    match p {
        Some(q) => path_parent(q.as_str()),
        None => None,
    }
}

/// Where to look for the eBPF artifact, given the `SHSPECTR_EBPF_PATH`
/// override, the path of the running binary and the directory the recorder
/// was built from.
pub fn ebpf_artifact_path_from(env_override: Option<String>, current_exe: &str, manifest_dir: &str) -> (r: String)
    ensures
        r@ == artifact_path(
            match env_override {
                Some(p) => Some(p@),
                None => None,
            },
            current_exe@,
            manifest_dir@,
        ),
{
    match env_override {
        Some(p) => {
            if p.as_str().unicode_len() > 0 {
                return p;
            }
        },
        None => {},
    }
    let parent = path_parent(current_exe);
    let in_build_tree = match &parent {
        Some(dir) => match path_file_name(dir.as_str()) {
            Some(name) => crate::text::str_eq(name.as_str(), "debug") || crate::text::str_eq(
                name.as_str(),
                "release",
            ),
            None => false,
        },
        None => false,
    };
    let grandparent = parent_of_opt(&parent);
    let workspace_root = parent_of_opt(&grandparent);
    if in_build_tree {
        match &workspace_root {
            Some(root) => {
                return path_join(root.as_str(), "shspectr-ebpf/target/bpfel-unknown-none/release/shspectr-ebpf");
            },
            None => {},
        }
    }
    match &grandparent {
        Some(root) => path_join(root.as_str(), "shspectr-ebpf"),
        None => {
            let mut s = owned(manifest_dir);
            push_str(&mut s, "/../");
            push_str(&mut s, "shspectr-ebpf/target/bpfel-unknown-none/release/shspectr-ebpf");
            s
        },
    }
}

/// What the host lacks for the recorder to run, checked in this order:
/// kernel BTF, the BPF filesystem, then root privileges.
pub open spec fn missing_capability(btf_available: bool, bpffs_mounted: bool, euid: u32) -> Option<Seq<char>> {
    if !btf_available {
        Some(
            "BTF not available at /sys/kernel/btf/vmlinux \u{2014} kernel must be built with CONFIG_DEBUG_INFO_BTF=y"@,
        )
    } else if !bpffs_mounted {
        Some("BPF filesystem not mounted at /sys/fs/bpf"@)
    } else if euid != 0 {
        Some("must run as root (or with CAP_BPF + CAP_PERFMON capabilities)"@)
    } else {
        None
    }
}

/// Decides whether the recorder can run, given whether
/// `/sys/kernel/btf/vmlinux` exists, whether `/sys/fs/bpf` exists, and the
/// effective UID; the error names the first thing missing.
pub fn check_capabilities(btf_available: bool, bpffs_mounted: bool, euid: u32) -> (r: Result<(), String>)
    ensures
        match r {
            Ok(()) => missing_capability(btf_available, bpffs_mounted, euid) is None,
            Err(m) => missing_capability(btf_available, bpffs_mounted, euid) == Some(m@),
        },
{
    if !btf_available {
        return Err(
            owned(
                "BTF not available at /sys/kernel/btf/vmlinux \u{2014} kernel must be built with CONFIG_DEBUG_INFO_BTF=y",
            ),
        );
    }
    if !bpffs_mounted {
        return Err(owned("BPF filesystem not mounted at /sys/fs/bpf"));
    }
    if euid != 0 {
        return Err(owned("must run as root (or with CAP_BPF + CAP_PERFMON capabilities)"));
    }
    Ok(())
}

/// The tracepoints the recorder attaches, in order.
pub fn tracepoint_names() -> (r: Vec<&'static str>)
    ensures
        r@.len() == 7,
        r@[0]@ == "sys_enter_execve"@,
        r@[1]@ == "sys_exit_execve"@,
        r@[2]@ == "sys_enter_exit_group"@,
        r@[3]@ == "sys_enter_write"@,
        r@[4]@ == "sys_exit_write"@,
        r@[5]@ == "sys_enter_read"@,
        r@[6]@ == "sys_exit_read"@,
{
    let mut v: Vec<&'static str> = Vec::new();
    v.push("sys_enter_execve");
    v.push("sys_exit_execve");
    v.push("sys_enter_exit_group");
    v.push("sys_enter_write");
    v.push("sys_exit_write");
    v.push("sys_enter_read");
    v.push("sys_exit_read");
    v
}

} // verus!
