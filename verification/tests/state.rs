use nucleus::state::{find_container, get_state_dir, log_file_path, running_state, state_file_path};

#[test]
fn state_locations() {
    assert_eq!(get_state_dir(), "/tmp/nucleus/state");
    assert_eq!(state_file_path("web"), "/tmp/nucleus/state/web.json");
    assert_eq!(log_file_path("web"), "/tmp/nucleus/logs/web.log");
}

#[test]
fn new_record_is_running() {
    let s = running_state("web", 42, "10.0.0.2", "br0", "vh-web");
    assert_eq!(s.name, "web");
    assert_eq!(s.pid, 42);
    assert_eq!(s.ip, "10.0.0.2");
    assert_eq!(s.network, "br0");
    assert_eq!(s.veth_host, "vh-web");
    assert_eq!(s.status, "Running");
}

#[test]
fn finding_containers_by_name() {
    let v = vec![
        running_state("a", 1, "10.0.0.2", "br0", "vh-a"),
        running_state("b", 2, "10.0.0.3", "br0", "vh-b"),
        running_state("b", 3, "10.0.0.4", "br0", "vh-b"),
    ];
    assert_eq!(find_container(&v, "b"), Some(1));
    assert_eq!(find_container(&v, "c"), None);
}

#[test]
fn distinct_names_have_distinct_state_files() {
    assert_ne!(state_file_path("a"), state_file_path("b"));
    assert_ne!(state_file_path("ab"), state_file_path("a"));
    // A name that is itself an absolute path replaces the directory when joined.
    assert_eq!(state_file_path("/tmp/nucleus/state/a"), state_file_path("a"));
}

#[test]
fn process_directories() {
    assert_eq!(nucleus::state::process_dir(4242), "/proc/4242");
}
