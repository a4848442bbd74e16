use nucleus::container::{
    blocked_syscalls, capabilities_to_drop, container_layout, id_map_line, pid1_exit_code,
    volume_bind, Capability, Pid1Exit,
};
use nucleus::container::{environment_removals, environment_settings};

#[test]
fn id_maps() {
    assert_eq!(id_map_line(1000), "0 1000 1");
    assert_eq!(id_map_line(0), "0 0 1");
}

#[test]
fn exit_codes() {
    assert_eq!(pid1_exit_code(Pid1Exit::Exited(3)), 3);
    assert_eq!(pid1_exit_code(Pid1Exit::Signaled(9)), 137);
    assert_eq!(pid1_exit_code(Pid1Exit::Other), 0);
}

#[test]
fn overlay_layout() {
    let l = container_layout("/work", "alpine", "web");
    assert_eq!(l.rootfs, "/work/./images/alpine");
    assert_eq!(l.root_base, "/work/temp/web");
    assert_eq!(l.upper, "/work/temp/web/upper");
    assert_eq!(l.work, "/work/temp/web/work");
    assert_eq!(l.merged, "/work/temp/web/merged");
    assert_eq!(l.old_root, "/work/temp/web/merged/.old_root");
    assert_eq!(
        l.overlay_options,
        "lowerdir=/work/./images/alpine,upperdir=/work/temp/web/upper,workdir=/work/temp/web/work"
    );
}

#[test]
fn volume_binds() {
    let b = volume_bind("/m", "/home/u/data:/mnt/data").unwrap();
    assert_eq!(b.host_path, "/home/u/data");
    assert!(!b.named);
    assert_eq!(b.target_path, "/m/mnt/data");
    let b = volume_bind("/m", "cache:srv").unwrap();
    assert_eq!(b.host_path, "/tmp/nucleus/volumes/cache");
    assert!(b.named);
    assert_eq!(b.target_path, "/m/srv");
    let b = volume_bind("/m", "./rel:/x").unwrap();
    assert_eq!(b.host_path, "./rel");
    assert!(volume_bind("/m", "nocolon").is_none());
    assert!(volume_bind("/m", "a:b:c").is_none());
}

#[test]
fn hardening_lists() {
    assert_eq!(blocked_syscalls(), vec!["reboot", "sethostname", "swapon", "swapoff", "mount", "umount2"]);
    let caps = capabilities_to_drop();
    assert_eq!(caps.len(), 10);
    assert_eq!(caps[0], Capability::SysRawio);
    assert_eq!(caps[7], Capability::SysPtrace);
}

#[test]
fn environment_of_the_command() {
    let set = environment_settings();
    assert_eq!(set[0], ("PATH", "/usr/local/sbin:/usr/local/bin:/usr/sbin:/usr/bin:/sbin:/bin"));
    assert_eq!(set[1], ("HOME", "/root"));
    assert_eq!(set[2], ("USER", "root"));
    assert_eq!(environment_removals(), vec!["PS1", "PROMPT"]);
}
