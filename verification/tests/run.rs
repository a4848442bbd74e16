use nucleus::actions::HostAction;
use nucleus::args::RunArgs;
use nucleus::run::{run_step, RunAction, RunError, RunEvent, RunPhase};

fn run_args(name: &str, ip: Option<&str>) -> RunArgs {
    RunArgs {
        image: "alpine".to_string(),
        name: name.to_string(),
        ip: ip.map(|s| s.to_string()),
        network: "br0".to_string(),
        memory: "512M".to_string(),
        volumes: vec![],
        ports: vec!["8080:80".to_string()],
        command: vec!["/bin/sh".to_string()],
        pipe_fd: None,
        rootless: false,
        detach: false,
        readonly: false,
    }
}

fn steps(a: &RunAction) -> &Vec<HostAction> {
    match a {
        RunAction::Perform(v) => v,
        other => panic!("expected steps, got {:?}", other),
    }
}

#[test]
fn a_whole_run_in_order() {
    let args = run_args("web", None);
    let (p, a) = run_step(&args, RunPhase::Start, RunEvent::Begin);
    assert!(matches!(a, RunAction::LookUpAddresses));
    let (p, a) = run_step(&args, p, RunEvent::Addresses(vec!["10.0.0.2".to_string()]));
    assert!(matches!(&p, RunPhase::BridgeUp { ip } if ip == "10.0.0.3"));
    assert_eq!(steps(&a).len(), 3);
    let (p, a) = run_step(&args, p, RunEvent::Done);
    assert!(matches!(a, RunAction::CreatePipe));
    let (p, a) = run_step(&args, p, RunEvent::PipeCreated(7));
    match &a {
        RunAction::Spawn(v) => assert_eq!(v[0], "internal-child"),
        other => panic!("unexpected {:?}", other),
    }
    let (p, a) = run_step(&args, p, RunEvent::Spawned(99));
    match &a {
        RunAction::SaveState(s) => {
            assert_eq!(s.pid, 99);
            assert_eq!(s.ip, "10.0.0.3");
            assert_eq!(s.veth_host, "vh-web");
        }
        other => panic!("unexpected {:?}", other),
    }
    let (p, a) = run_step(&args, p, RunEvent::Done);
    // veth pair (10 steps), then the cgroup (2 steps)
    assert_eq!(steps(&a).len(), 12);
    let (p, a) = run_step(&args, p, RunEvent::Done);
    // limits (4), forwarding (4), one port (2)
    assert_eq!(steps(&a).len(), 10);
    let (p, a) = run_step(&args, p, RunEvent::Done);
    assert!(matches!(a, RunAction::ReleaseChild));
    let (p, a) = run_step(&args, p, RunEvent::Done);
    assert!(matches!(a, RunAction::WaitChild { in_background: false }));
    let (p, a) = run_step(&args, p, RunEvent::ChildExited);
    assert_eq!(steps(&a).len(), 4 + 2);
    let (p, a) = run_step(&args, p, RunEvent::Done);
    assert!(matches!(a, RunAction::Finish));
    assert!(matches!(p, RunPhase::Finished));
}

#[test]
fn given_address_and_failures() {
    let args = run_args("web", Some("10.0.0.50"));
    let (p, _) = run_step(&args, RunPhase::Start, RunEvent::Begin);
    assert!(matches!(&p, RunPhase::BridgeUp { ip } if ip == "10.0.0.50"));
    let (p, a) = run_step(&args, p, RunEvent::Failed);
    assert!(matches!(p, RunPhase::Stopped));
    assert!(matches!(a, RunAction::Stop));
    let (p, a) = run_step(&args, p, RunEvent::Done);
    assert!(matches!(p, RunPhase::Stopped));
    assert!(matches!(a, RunAction::Fail(RunError::OutOfOrder)));
}

#[test]
fn bad_memory_stops_before_release() {
    let mut args = run_args("web", Some("10.0.0.5"));
    args.memory = "lots".to_string();
    let phase = RunPhase::Configuring { ip: "10.0.0.5".to_string(), pid: 1, v_host: "vh-web".to_string() };
    let (p, a) = run_step(&args, phase, RunEvent::Done);
    assert!(matches!(p, RunPhase::Stopped));
    assert!(matches!(a, RunAction::Fail(RunError::InvalidMemory)));
    args.memory = "99999999999G".to_string();
    let phase = RunPhase::Configuring { ip: "10.0.0.5".to_string(), pid: 1, v_host: "vh-web".to_string() };
    let (_, a) = run_step(&args, phase, RunEvent::Done);
    assert!(matches!(a, RunAction::Fail(RunError::MemoryOverflow)));
}

#[test]
fn exhausted_subnet_and_detached_wait() {
    let args = run_args("web", None);
    let used: Vec<String> = (2..254).map(|i| format!("10.0.0.{}", i)).collect();
    let (p, a) = run_step(&args, RunPhase::AwaitingAddresses, RunEvent::Addresses(used));
    assert!(matches!(p, RunPhase::Stopped));
    assert!(matches!(a, RunAction::Fail(RunError::NoAddress)));
    let mut d = run_args("web", None);
    d.detach = true;
    let phase = RunPhase::Releasing { ip: "10.0.0.2".to_string(), v_host: "vh-web".to_string() };
    let (_, a) = run_step(&d, phase, RunEvent::Done);
    assert!(matches!(a, RunAction::WaitChild { in_background: true }));
}
