//! The container side of a run: the user-namespace maps, the exit status of the
//! first process, the overlay layout, bind-mounted volumes, and what is dropped or
//! blocked before the command starts.
use vstd::prelude::*;
use crate::mapping::{pair_spec, split_pair};
use crate::paths::{join_path, join_spec};
use crate::text::{append_decimal, concat3, decimal, owned};

verus! {

/// One line of `/proc/self/uid_map` or `gid_map`: id 0 inside is `host_id` outside,
/// for a range of one id.
pub open spec fn id_map_line_spec(host_id: u32) -> Seq<char> {
    "0 "@ + decimal(host_id as nat) + " 1"@
}

/// The map line that makes the calling user root inside the user namespace.
pub fn id_map_line(host_id: u32) -> (r: String)
    ensures
        r@ == id_map_line_spec(host_id),
{
    let mut s = owned("0 ");
    append_decimal(&mut s, host_id as u64);
    s.append(" 1");
    s
}

/// How the container's first process ended, as `waitpid` reports it.
#[derive(Debug, Clone, Copy, PartialEq, Eq, Structural)]
pub enum Pid1Exit {
    /// It exited with this code.
    Exited(i32),
    /// It was killed by the signal with this number.
    Signaled(i32),
    /// Any other report.
    Other,
}

/// The exit code that the waiting parent passes on: the child's own code, 128 plus the
/// signal number for a killed child, 0 otherwise.
pub open spec fn pid1_exit_code_spec(status: Pid1Exit) -> int {
    match status {
        Pid1Exit::Exited(code) => code as int,
        Pid1Exit::Signaled(sig) => 128 + sig,
        Pid1Exit::Other => 0,
    }
}

/// The exit code that the waiting parent passes on for its child.
pub fn pid1_exit_code(status: Pid1Exit) -> (r: i32)
    requires
        status matches Pid1Exit::Signaled(sig) ==> sig <= i32::MAX - 128,
    ensures
        r as int == pid1_exit_code_spec(status),
{
    match status {
        Pid1Exit::Exited(code) => code,
        Pid1Exit::Signaled(sig) => 128 + sig,
        Pid1Exit::Other => 0,
    }
}

/// The directory under the working directory that holds one root filesystem per image.
pub open spec fn images_dir_spec() -> Seq<char> {
    "./images"@
}

/// Where the overlay of a container lives and what it is built from.
pub struct ContainerLayout {
    /// The image's root filesystem, the read-only lower layer.
    pub rootfs: String,
    /// The container's own directory.
    pub root_base: String,
    /// The writable layer.
    pub upper: String,
    /// The overlay's work directory.
    pub work: String,
    /// The mounted overlay, the container's root.
    pub merged: String,
    /// Where the old root is parked during `pivot_root`.
    pub old_root: String,
    /// The options of the overlay mount.
    pub overlay_options: String,
}

/// Where a run looks for the root filesystem of `image`, under the working directory
/// `cwd`.
pub open spec fn rootfs_spec(cwd: Seq<char>, image: Seq<char>) -> Seq<char> {
    join_spec(join_spec(cwd, images_dir_spec()), image)
}

/// The layout of container `name` from image `image`, under the working directory `cwd`.
pub open spec fn layout_ok(l: ContainerLayout, cwd: Seq<char>, image: Seq<char>, name: Seq<char>) -> bool {
    let base = join_spec(join_spec(cwd, "temp"@), name);
    &&& l.rootfs@ == rootfs_spec(cwd, image)
    &&& l.root_base@ == base
    &&& l.upper@ == join_spec(base, "upper"@)
    &&& l.work@ == join_spec(base, "work"@)
    &&& l.merged@ == join_spec(base, "merged"@)
    &&& l.old_root@ == join_spec(join_spec(base, "merged"@), ".old_root"@)
    &&& l.overlay_options@ == "lowerdir="@ + l.rootfs@ + ",upperdir="@ + l.upper@ + ",workdir="@ + l.work@
}

/// The overlay layout of container `name` from image `image`, under `cwd`.
pub fn container_layout(cwd: &str, image: &str, name: &str) -> (r: ContainerLayout)
    ensures
        layout_ok(r, cwd@, image@, name@),
{
    let images = join_path(cwd, "./images");
    let rootfs = join_path(images.as_str(), image);
    let temp = join_path(cwd, "temp");
    let root_base = join_path(temp.as_str(), name);
    let upper = join_path(root_base.as_str(), "upper");
    let work = join_path(root_base.as_str(), "work");
    let merged = join_path(root_base.as_str(), "merged");
    let old_root = join_path(merged.as_str(), ".old_root");
    let mut opts = concat3("lowerdir=", rootfs.as_str(), ",upperdir=");
    opts.append(upper.as_str());
    opts.append(",workdir=");
    opts.append(work.as_str());
    ContainerLayout { rootfs, root_base, upper, work, merged, old_root, overlay_options: opts }
}

/// A bind mount of a host directory into the container.
pub struct VolumeBind {
    /// The directory on the host.
    pub host_path: String,
    /// A named volume, whose host directory is created on demand.
    pub named: bool,
    /// The mount point, inside the merged root.
    pub target_path: String,
}

/// The directory that holds named volumes.
pub open spec fn volumes_dir_spec() -> Seq<char> {
    "/tmp/nucleus/volumes"@
}

/// The host side is a path (it starts with `/` or `.`), not a volume name.
pub open spec fn is_host_path(h: Seq<char>) -> bool {
    h.len() > 0 && (h[0] == '/' || h[0] == '.')
}

/// The container side without one leading `/`.
pub open spec fn relative_target(c: Seq<char>) -> Seq<char> {
    if c.len() > 0 && c[0] == '/' {
        c.drop_first()
    } else {
        c
    }
}

/// What the volume `spec` (`host:container`) binds, inside the root `merged`; nothing
/// for a spec that does not split into exactly two parts.
pub open spec fn volume_bind_matches(r: Option<VolumeBind>, merged: Seq<char>, spec: Seq<char>) -> bool {
    match pair_spec(spec) {
        None => r is None,
        Some((h, c)) => match r {
            None => false,
            Some(b) => {
                &&& b.named == !is_host_path(h)
                &&& b.host_path@ == (if is_host_path(h) { h } else { join_spec(volumes_dir_spec(), h) })
                &&& b.target_path@ == join_spec(merged, relative_target(c))
            },
        },
    }
}

/// The bind mount that the volume `spec` asks for, inside the root `merged`.
pub fn volume_bind(merged: &str, spec: &str) -> (r: Option<VolumeBind>)
    ensures
        volume_bind_matches(r, merged@, spec@),
{
    match split_pair(spec) {
        None => None,
        Some((host_part, container_part)) => {
            let cn = container_part.unicode_len();
            let rel = if cn > 0 && container_part.get_char(0) == '/' {
                container_part.substring_char(1, cn)
            } else {
                container_part
            };
            assert(rel@ =~= relative_target(container_part@));
            let target_path = join_path(merged, rel);
            let hn = host_part.unicode_len();
            let is_path = hn > 0 && (host_part.get_char(0) == '/' || host_part.get_char(0) == '.');
            if is_path {
                Some(VolumeBind { host_path: owned(host_part), named: false, target_path })
            } else {
                Some(VolumeBind {
                    host_path: join_path("/tmp/nucleus/volumes", host_part),
                    named: true,
                    target_path,
                })
            }
        },
    }
}

/// The system calls that the container's process may not make (they fail with EPERM).
pub fn blocked_syscalls() -> (r: Vec<&'static str>)
    ensures
        r@.len() == 6,
        r@[0]@ == "reboot"@,
        r@[1]@ == "sethostname"@,
        r@[2]@ == "swapon"@,
        r@[3]@ == "swapoff"@,
        r@[4]@ == "mount"@,
        r@[5]@ == "umount2"@,
{
    vec!["reboot", "sethostname", "swapon", "swapoff", "mount", "umount2"]
}

/// The Linux capabilities that the engine takes away.
#[derive(Debug, Clone, Copy, PartialEq, Eq, Structural)]
pub enum Capability {
    SysRawio,
    Mknod,
    SysTime,
    AuditControl,
    MacAdmin,
    MacOverride,
    SysModule,
    SysPtrace,
    SysPacct,
    SysTtyConfig,
}

/// The capabilities dropped from the inheritable and bounding sets before the command
/// starts.
pub open spec fn dropped_capabilities_spec() -> Seq<Capability> {
    seq![
        Capability::SysRawio,
        Capability::Mknod,
        Capability::SysTime,
        Capability::AuditControl,
        Capability::MacAdmin,
        Capability::MacOverride,
        Capability::SysModule,
        Capability::SysPtrace,
        Capability::SysPacct,
        Capability::SysTtyConfig,
    ]
}

/// The capabilities dropped before the command starts.
pub fn capabilities_to_drop() -> (r: Vec<Capability>)
    ensures
        r@ == dropped_capabilities_spec(),
{
    let r = vec![
        Capability::SysRawio,
        Capability::Mknod,
        Capability::SysTime,
        Capability::AuditControl,
        Capability::MacAdmin,
        Capability::MacOverride,
        Capability::SysModule,
        Capability::SysPtrace,
        Capability::SysPacct,
        Capability::SysTtyConfig,
    ];
    assert(r@ =~= dropped_capabilities_spec());
    r
}

/// The environment variables set for the command: a standard `PATH`, and `HOME` and
/// `USER` for root.
pub fn environment_settings() -> (r: Vec<(&'static str, &'static str)>)
    ensures
        r@.len() == 3,
        r@[0].0@ == "PATH"@ && r@[0].1@ == "/usr/local/sbin:/usr/local/bin:/usr/sbin:/usr/bin:/sbin:/bin"@,
        r@[1].0@ == "HOME"@ && r@[1].1@ == "/root"@,
        r@[2].0@ == "USER"@ && r@[2].1@ == "root"@,
{
    vec![
        ("PATH", "/usr/local/sbin:/usr/local/bin:/usr/sbin:/usr/bin:/sbin:/bin"),
        ("HOME", "/root"),
        ("USER", "root"),
    ]
}

/// The environment variables removed for the command: the host's shell prompts.
pub fn environment_removals() -> (r: Vec<&'static str>)
    ensures
        r@.len() == 2,
        r@[0]@ == "PS1"@,
        r@[1]@ == "PROMPT"@,
{
    vec!["PS1", "PROMPT"]
}

} // verus!
