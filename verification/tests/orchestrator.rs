use nucleus::actions::{HostAction, OutputMode};
use nucleus::args::RunArgs;
use nucleus::memory::MemoryError;
use nucleus::orchestrator::{
    bridge_setup, cgroup_limits, cgroup_path, cgroup_prepare, child_command_args, cleanup,
    forwarding_setup, short_name, signed_decimal_string, veth_names, veth_setup,
};

fn run_args(name: &str) -> RunArgs {
    RunArgs {
        image: "alpine".to_string(),
        name: name.to_string(),
        ip: None,
        network: "br0".to_string(),
        memory: "1G".to_string(),
        volumes: vec![],
        ports: vec![],
        command: vec!["/bin/sh".to_string()],
        pipe_fd: None,
        rootless: false,
        detach: false,
        readonly: false,
    }
}

fn command(a: &HostAction) -> (String, Vec<String>, OutputMode, bool) {
    match a {
        HostAction::Run(c) => (c.program.clone(), c.args.clone(), c.output, c.checked),
        other => panic!("not a command: {:?}", other),
    }
}

fn words(v: &[&str]) -> Vec<String> {
    v.iter().map(|s| s.to_string()).collect()
}

#[test]
fn bridge_commands() {
    let a = run_args("web");
    let steps = bridge_setup(&a);
    assert_eq!(steps.len(), 3);
    assert_eq!(command(&steps[0]), ("ip".to_string(), words(&["link", "add", "br0", "type", "bridge"]), OutputMode::Silent, false));
    assert_eq!(command(&steps[1]), ("ip".to_string(), words(&["addr", "add", "10.0.0.1/24", "dev", "br0"]), OutputMode::Silent, false));
    assert_eq!(command(&steps[2]), ("ip".to_string(), words(&["link", "set", "br0", "up"]), OutputMode::Silent, false));
    let mut r = run_args("web");
    r.rootless = true;
    assert!(bridge_setup(&r).is_empty());
}

#[test]
fn child_arguments() {
    let mut a = run_args("web");
    a.readonly = true;
    a.volumes = words(&["/data:/mnt"]);
    a.ports = words(&["8080:80", "9090:90"]);
    a.command = words(&["sleep", "10"]);
    let got = child_command_args(&a, "10.0.0.7", 5);
    let expected = words(&[
        "internal-child", "--image", "alpine", "--name", "web", "--ip", "10.0.0.7", "--pipe-fd", "5",
        "--memory", "1G", "--network", "br0", "--readonly", "--volumes", "/data:/mnt", "--ports",
        "8080:80", "--ports", "9090:90", "sleep", "10",
    ]);
    assert_eq!(got, expected);
    assert_eq!(signed_decimal_string(-12), "-12");
    assert_eq!(signed_decimal_string(i32::MIN), i32::MIN.to_string());
}

#[test]
fn veth_pair_names() {
    assert_eq!(veth_names("web"), ("vh-web".to_string(), "vc-web".to_string()));
    let long = "averyveryverylongname";
    assert_eq!(short_name(long), "averyveryver");
    let (h, c) = veth_names(long);
    assert_eq!(h, "vh-averyveryver");
    assert_eq!(c, "vc-averyveryver");
    assert!(h.len() <= 15 && c.len() <= 15);
    // 12 bytes then a two-byte character: byte 12 is a boundary.
    assert_eq!(short_name("abcdefghijklé"), "abcdefghijkl");
}

#[test]
fn veth_commands() {
    let a = run_args("web");
    let steps = veth_setup(&a, "10.0.0.2", 1234, "vh-web", "vc-web");
    assert_eq!(steps.len(), 10);
    assert_eq!(command(&steps[0]), ("ip".to_string(), words(&["link", "delete", "vh-web"]), OutputMode::NoErrors, false));
    assert_eq!(command(&steps[1]).1, words(&["link", "add", "vh-web", "type", "veth", "peer", "name", "vc-web"]));
    assert_eq!(command(&steps[2]).1, words(&["link", "set", "vc-web", "netns", "1234"]));
    assert_eq!(command(&steps[6]), ("nsenter".to_string(), words(&["-t", "1234", "-n", "ip", "addr", "add", "10.0.0.2/24", "dev", "eth0"]), OutputMode::Inherit, true));
    assert_eq!(command(&steps[9]).1, words(&["-t", "1234", "-n", "ip", "route", "add", "default", "via", "10.0.0.1"]));
    let mut r = run_args("web");
    r.rootless = true;
    assert!(veth_setup(&r, "10.0.0.2", 1234, "vh-web", "vc-web").is_empty());
}

#[test]
fn port_rules_added_then_deleted() {
    let mut a = run_args("web");
    a.ports = words(&["8080:80", "bad", "1:2:3", "53:5353"]);
    let setup = forwarding_setup(&a, "10.0.0.9");
    assert_eq!(setup.len(), 4 + 4);
    match &setup[0] {
        HostAction::WriteFile { path, contents, checked } => {
            assert_eq!(path, "/proc/sys/net/ipv4/ip_forward");
            assert_eq!(contents, "1");
            assert!(!checked);
        }
        other => panic!("unexpected {:?}", other),
    }
    assert_eq!(command(&setup[4]).1, words(&["-A", "FORWARD", "-p", "tcp", "-d", "10.0.0.9", "--dport", "80", "-m", "state", "--state", "NEW,ESTABLISHED,RELATED", "-j", "ACCEPT"]));
    assert_eq!(command(&setup[5]).1, words(&["-t", "nat", "-A", "PREROUTING", "-p", "tcp", "--dport", "8080", "-j", "DNAT", "--to-destination", "10.0.0.9:80"]));
    let teardown = cleanup(&a, "10.0.0.9", "vh-web");
    // record, cgroup, overlay directories, veth, then the port rules
    assert_eq!(teardown.len(), 4 + 4);
    for k in 0..4 {
        let mut added = command(&setup[4 + k]).1;
        let deleted = command(&teardown[4 + k]).1;
        let at = added.iter().position(|w| w == "-A").unwrap();
        added[at] = "-D".to_string();
        assert_eq!(added, deleted);
    }
}

#[test]
fn cleanup_steps() {
    let a = run_args("web");
    let steps = cleanup(&a, "10.0.0.2", "vh-web");
    assert_eq!(steps.len(), 4);
    assert!(matches!(&steps[0], HostAction::RemoveState { name } if name == "web"));
    assert!(matches!(&steps[1], HostAction::RemoveDir { path } if path == "/sys/fs/cgroup/web"));
    assert!(matches!(&steps[2], HostAction::RemoveDirAll { path } if path == "./temp/web"));
    assert_eq!(command(&steps[3]), ("ip".to_string(), words(&["link", "delete", "vh-web"]), OutputMode::Inherit, false));
    let mut r = run_args("web");
    r.rootless = true;
    r.ports = words(&["80:80"]);
    let steps = cleanup(&r, "10.0.0.2", "vh-web");
    assert_eq!(steps.len(), 2);
}

#[test]
fn cgroup_steps() {
    let a = run_args("web");
    assert_eq!(cgroup_path("web"), "/sys/fs/cgroup/web");
    let prep = cgroup_prepare(&a);
    assert_eq!(prep.len(), 2);
    assert!(matches!(&prep[1], HostAction::CreateDirAll { path } if path == "/sys/fs/cgroup/web"));
    let limits = cgroup_limits(&a, 77).unwrap().unwrap();
    assert_eq!(limits.len(), 4);
    let writes: Vec<(String, String, bool)> = limits
        .iter()
        .map(|s| match s {
            HostAction::WriteFile { path, contents, checked } => (path.clone(), contents.clone(), *checked),
            other => panic!("unexpected {:?}", other),
        })
        .collect();
    assert_eq!(writes[0], ("/sys/fs/cgroup/web/memory.max".to_string(), "1073741824".to_string(), false));
    assert_eq!(writes[1], ("/sys/fs/cgroup/web/cpu.max".to_string(), "max 100000".to_string(), false));
    assert_eq!(writes[2], ("/sys/fs/cgroup/web/pids.max".to_string(), "max".to_string(), false));
    assert_eq!(writes[3], ("/sys/fs/cgroup/web/cgroup.procs".to_string(), "77".to_string(), true));

    let mut bad = run_args("web");
    bad.memory = "lots".to_string();
    assert!(matches!(cgroup_limits(&bad, 77), Some(Err(MemoryError::InvalidValue))));
    bad.memory = "99999999999G".to_string();
    assert!(cgroup_limits(&bad, 77).is_none());
    bad.rootless = true;
    assert!(cgroup_limits(&bad, 77).unwrap().unwrap().is_empty());
    assert!(cgroup_prepare(&bad).is_empty());
}

#[test]
fn root_is_needed_unless_rootless() {
    let mut a = run_args("web");
    assert!(!nucleus::args::run_permitted(false, &a));
    assert!(nucleus::args::run_permitted(true, &a));
    a.rootless = true;
    assert!(nucleus::args::run_permitted(false, &a));
}
