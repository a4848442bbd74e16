//! The course of a container run, as a state machine: from the phase the run is in
//! and what just happened, the next phase and what the program must do next. The
//! program only carries the actions out and reports back.
use vstd::prelude::*;
use crate::actions::{ActionView, HostAction, actions_view, texts};
use crate::args::RunArgs;
use crate::ipam::{all_taken, allocate_ip, is_lowest_free};
use crate::memory::MemoryError;
use crate::orchestrator::{
    bridge_setup, bridge_setup_spec, cgroup_limits, cgroup_limits_spec, cgroup_prepare,
    cgroup_prepare_spec, child_args_spec, child_command_args, cleanup, cleanup_spec,
    forwarding_setup, forwarding_setup_spec, short_name_ok, veth_child_spec, veth_host_spec,
    veth_names, veth_setup, veth_setup_spec,
};
use crate::state::{ContainerState, running_state};

verus! {

/// Why a run stopped on a decision of its own.
#[derive(Debug, PartialEq, Eq, Structural, Clone, Copy)]
pub enum RunError {
    /// No address was given and every address of the subnet is in use.
    NoAddress,
    /// The memory limit is not a valid size.
    InvalidMemory,
    /// The memory limit's byte count does not fit in 64 bits.
    MemoryOverflow,
    /// An event came that the current phase does not expect.
    OutOfOrder,
}

/// Where a run stands.
#[derive(Debug)]
pub enum RunPhase {
    /// Nothing has happened yet.
    Start,
    /// Waiting for the addresses of the running containers.
    AwaitingAddresses,
    /// The address is chosen and the bridge is being set up.
    BridgeUp { ip: String },
    /// The start-up pipe is being created.
    Piping { ip: String },
    /// The child is being started.
    Spawning { ip: String },
    /// The child runs (blocked on the pipe) and its record is being saved.
    Recording { ip: String, pid: u32, v_host: String, v_child: String },
    /// The veth pair and the cgroup are being set up.
    Configuring { ip: String, pid: u32, v_host: String },
    /// The limits, NAT and port forwarding are being set up.
    Forwarding { ip: String, v_host: String },
    /// The child is being released.
    Releasing { ip: String, v_host: String },
    /// The container runs; waiting for it to end.
    Running { ip: String, v_host: String },
    /// The container ended; its traces are being removed.
    CleaningUp,
    /// The run ended normally.
    Finished,
    /// The run stopped on an error.
    Stopped,
}

/// What the program reports back.
#[derive(Debug)]
pub enum RunEvent {
    /// The run begins.
    Begin,
    /// The addresses held by the running containers.
    Addresses(Vec<String>),
    /// The start-up pipe exists; this is its read end.
    PipeCreated(i32),
    /// The child has started with this process id.
    Spawned(u32),
    /// The last action succeeded.
    Done,
    /// The last action failed.
    Failed,
    /// The container's first process has ended.
    ChildExited,
}

/// What the program must do next.
#[derive(Debug)]
pub enum RunAction {
    /// Read the addresses of the running containers.
    LookUpAddresses,
    /// Carry out these steps in order, stopping at the first checked one that fails.
    Perform(Vec<HostAction>),
    /// Create the start-up pipe.
    CreatePipe,
    /// Start the engine again as the container's first process, with these arguments.
    Spawn(Vec<String>),
    /// Save this record of the container.
    SaveState(ContainerState),
    /// Let the child go on (write to the start-up pipe).
    ReleaseChild,
    /// Wait for the container to end; in the background when the run is detached.
    WaitChild { in_background: bool },
    /// The run is over and succeeded.
    Finish,
    /// The run is over; it fails with the error of the last action.
    Stop,
    /// The run is over; it fails with this error.
    Fail(RunError),
}

/// The action carries out exactly the steps `steps`.
pub open spec fn performs(action: RunAction, steps: Seq<ActionView>) -> bool {
    &&& action matches RunAction::Perform(v) && actions_view(v@) == steps
}

/// The record of the container `args.name`, started as `pid` with address `ip`.
pub open spec fn records(action: RunAction, args: RunArgs, pid: u32, ip: Seq<char>, v_host: Seq<char>) -> bool {
    &&& action matches RunAction::SaveState(s) && s.name@ == args.name@ && s.pid == pid && s.ip@ == ip
        && s.network@ == args.network@ && s.veth_host@ == v_host && s.status@ == "Running"@
}

/// The phase is one after which nothing more happens.
pub open spec fn is_over(phase: RunPhase) -> bool {
    phase is Finished || phase is Stopped
}

/// Stopping because the event was not expected.
pub open spec fn out_of_order(next: RunPhase, action: RunAction) -> bool {
    next is Stopped && action == RunAction::Fail(RunError::OutOfOrder)
}

/// One step of a run: from `phase` and `event`, the run moves to `next` and asks for
/// `action`.
pub open spec fn run_step_spec(args: RunArgs, phase: RunPhase, event: RunEvent, next: RunPhase, action: RunAction) -> bool {
    if is_over(phase) {
        out_of_order(next, action)
    } else if event is Failed {
        next is Stopped && action is Stop
    } else {
        match phase {
            RunPhase::Start => if event is Begin {
                match args.ip {
                    Some(ip) => next == RunPhase::BridgeUp { ip } && performs(action, bridge_setup_spec(args.rootless, args.network@)),
                    None => next is AwaitingAddresses && action is LookUpAddresses,
                }
            } else {
                out_of_order(next, action)
            },
            RunPhase::AwaitingAddresses => match event {
                RunEvent::Addresses(used) => if all_taken(used@) {
                    next is Stopped && action == RunAction::Fail(RunError::NoAddress)
                } else {
                    &&& next matches RunPhase::BridgeUp { ip } && is_lowest_free(used@, ip@)
                    &&& performs(action, bridge_setup_spec(args.rootless, args.network@))
                },
                _ => out_of_order(next, action),
            },
            RunPhase::BridgeUp { ip } => if event is Done {
                next == RunPhase::Piping { ip } && action is CreatePipe
            } else {
                out_of_order(next, action)
            },
            RunPhase::Piping { ip } => match event {
                RunEvent::PipeCreated(fd) => {
                    &&& next == RunPhase::Spawning { ip }
                    &&& action matches RunAction::Spawn(a) && texts(a@) == child_args_spec(args, ip@, fd as int)
                },
                _ => out_of_order(next, action),
            },
            RunPhase::Spawning { ip } => match event {
                RunEvent::Spawned(pid) => {
                    &&& next matches RunPhase::Recording { ip: ip2, pid: pid2, v_host, v_child } && ip2 == ip
                        && pid2 == pid && v_host@ == veth_host_spec(args.name@) && v_child@ == veth_child_spec(args.name@)
                        && records(action, args, pid, ip@, v_host@)
                },
                _ => out_of_order(next, action),
            },
            RunPhase::Recording { ip, pid, v_host, v_child } => if event is Done {
                next == RunPhase::Configuring { ip, pid, v_host } && performs(
                    action,
                    veth_setup_spec(args.rootless, args.network@, ip@, pid, v_host@, v_child@) + cgroup_prepare_spec(args.rootless, args.name@),
                )
            } else {
                out_of_order(next, action)
            },
            RunPhase::Configuring { ip, pid, v_host } => if event is Done {
                match cgroup_limits_spec(args.rootless, args.name@, args.memory@, pid) {
                    None => next is Stopped && action == RunAction::Fail(RunError::MemoryOverflow),
                    Some(Err(_)) => next is Stopped && action == RunAction::Fail(RunError::InvalidMemory),
                    Some(Ok(limits)) => next == RunPhase::Forwarding { ip, v_host } && performs(
                        action,
                        limits + forwarding_setup_spec(args.rootless, args.network@, ip@, texts(args.ports@)),
                    ),
                }
            } else {
                out_of_order(next, action)
            },
            RunPhase::Forwarding { ip, v_host } => if event is Done {
                next == RunPhase::Releasing { ip, v_host } && action is ReleaseChild
            } else {
                out_of_order(next, action)
            },
            RunPhase::Releasing { ip, v_host } => if event is Done {
                next == RunPhase::Running { ip, v_host } && action == RunAction::WaitChild { in_background: args.detach }
            } else {
                out_of_order(next, action)
            },
            RunPhase::Running { ip, v_host } => if event is ChildExited {
                next is CleaningUp && performs(action, cleanup_spec(args.rootless, args.name@, ip@, v_host@, texts(args.ports@)))
            } else {
                out_of_order(next, action)
            },
            RunPhase::CleaningUp => if event is Done {
                next is Finished && action is Finish
            } else {
                out_of_order(next, action)
            },
            _ => out_of_order(next, action),
        }
    }
}

/// Stopping because the event was not expected.
fn out_of_order_step() -> (r: (RunPhase, RunAction))
    ensures
        out_of_order(r.0, r.1),
{
    (RunPhase::Stopped, RunAction::Fail(RunError::OutOfOrder))
}

/// One step of a run: the next phase and the next action.
pub fn run_step(args: &RunArgs, phase: RunPhase, event: RunEvent) -> (r: (RunPhase, RunAction))
    requires
        (phase is Spawning && event is Spawned) ==> short_name_ok(args.name@),
    ensures
        run_step_spec(*args, phase, event, r.0, r.1),
{
    let over = match &phase {
        RunPhase::Finished | RunPhase::Stopped => true,
        _ => false,
    };
    if over {
        return out_of_order_step();
    }
    if let RunEvent::Failed = &event {
        return (RunPhase::Stopped, RunAction::Stop);
    }
    match phase {
        RunPhase::Start => match event {
            RunEvent::Begin => match &args.ip {
                Some(ip) => (RunPhase::BridgeUp { ip: ip.clone() }, RunAction::Perform(bridge_setup(args))),
                None => (RunPhase::AwaitingAddresses, RunAction::LookUpAddresses),
            },
            _ => out_of_order_step(),
        },
        RunPhase::AwaitingAddresses => match event {
            RunEvent::Addresses(used) => match allocate_ip(&used) {
                Ok(ip) => (RunPhase::BridgeUp { ip }, RunAction::Perform(bridge_setup(args))),
                Err(_) => (RunPhase::Stopped, RunAction::Fail(RunError::NoAddress)),
            },
            _ => out_of_order_step(),
        },
        RunPhase::BridgeUp { ip } => match event {
            RunEvent::Done => (RunPhase::Piping { ip }, RunAction::CreatePipe),
            _ => out_of_order_step(),
        },
        RunPhase::Piping { ip } => match event {
            RunEvent::PipeCreated(fd) => {
                let a = child_command_args(args, ip.as_str(), fd);
                (RunPhase::Spawning { ip }, RunAction::Spawn(a))
            },
            _ => out_of_order_step(),
        },
        RunPhase::Spawning { ip } => match event {
            RunEvent::Spawned(pid) => {
                let (v_host, v_child) = veth_names(args.name.as_str());
                let s = running_state(args.name.as_str(), pid, ip.as_str(), args.network.as_str(), v_host.as_str());
                (RunPhase::Recording { ip, pid, v_host, v_child }, RunAction::SaveState(s))
            },
            _ => out_of_order_step(),
        },
        RunPhase::Recording { ip, pid, v_host, v_child } => match event {
            RunEvent::Done => {
                let mut steps = veth_setup(args, ip.as_str(), pid, v_host.as_str(), v_child.as_str());
                let ghost first = actions_view(steps@);
                let mut more = cgroup_prepare(args);
                let ghost second = actions_view(more@);
                steps.append(&mut more);
                proof {
                    assert(actions_view(steps@) =~= first + second);
                }
                (RunPhase::Configuring { ip, pid, v_host }, RunAction::Perform(steps))
            },
            _ => out_of_order_step(),
        },
        RunPhase::Configuring { ip, pid, v_host } => match event {
            RunEvent::Done => match cgroup_limits(args, pid) {
                None => (RunPhase::Stopped, RunAction::Fail(RunError::MemoryOverflow)),
                Some(Err(_)) => (RunPhase::Stopped, RunAction::Fail(RunError::InvalidMemory)),
                Some(Ok(mut steps)) => {
                    let ghost first = actions_view(steps@);
                    let mut more = forwarding_setup(args, ip.as_str());
                    let ghost second = actions_view(more@);
                    steps.append(&mut more);
                    proof {
                        assert(actions_view(steps@) =~= first + second);
                    }
                    (RunPhase::Forwarding { ip, v_host }, RunAction::Perform(steps))
                },
            },
            _ => out_of_order_step(),
        },
        RunPhase::Forwarding { ip, v_host } => match event {
            RunEvent::Done => (RunPhase::Releasing { ip, v_host }, RunAction::ReleaseChild),
            _ => out_of_order_step(),
        },
        RunPhase::Releasing { ip, v_host } => match event {
            RunEvent::Done => (RunPhase::Running { ip, v_host }, RunAction::WaitChild { in_background: args.detach }),
            _ => out_of_order_step(),
        },
        RunPhase::Running { ip, v_host } => match event {
            RunEvent::ChildExited => (RunPhase::CleaningUp, RunAction::Perform(cleanup(args, ip.as_str(), v_host.as_str()))),
            _ => out_of_order_step(),
        },
        RunPhase::CleaningUp => match event {
            RunEvent::Done => (RunPhase::Finished, RunAction::Finish),
            _ => out_of_order_step(),
        },
        _ => out_of_order_step(),
    }
}

/// The child is released only once the host side is ready: release comes only after the
/// limit and forwarding steps, which come only after the veth and cgroup steps, which
/// come only after the container's record is saved.
pub proof fn release_follows_setup(args: RunArgs, phase: RunPhase, event: RunEvent, next: RunPhase, action: RunAction)
    requires
        run_step_spec(args, phase, event, next, action),
    ensures
        action is ReleaseChild ==> (phase is Forwarding && event is Done),
        next is Forwarding ==> (phase matches RunPhase::Configuring { ip, pid, v_host } && event is Done
            && (cgroup_limits_spec(args.rootless, args.name@, args.memory@, pid) matches Some(Ok(limits))
            && performs(action, limits + forwarding_setup_spec(args.rootless, args.network@, ip@, texts(args.ports@))))),
        next is Configuring ==> (phase matches RunPhase::Recording { ip, pid, v_host, v_child } && event is Done
            && performs(
            action,
            veth_setup_spec(args.rootless, args.network@, ip@, pid, v_host@, v_child@) + cgroup_prepare_spec(args.rootless, args.name@),
        )),
        next is Recording ==> (phase is Spawning && event is Spawned && action is SaveState),
{
}

/// A failure stops the run for good: a failed action moves any running phase to
/// `Stopped` with the failure as the result, and from `Stopped` (or after the end)
/// nothing more is done; in particular the child is never released after a failure.
pub proof fn failure_stops_the_run(args: RunArgs, phase: RunPhase, event: RunEvent, next: RunPhase, action: RunAction)
    requires
        run_step_spec(args, phase, event, next, action),
    ensures
        (!is_over(phase) && event is Failed) ==> (next is Stopped && action is Stop),
        is_over(phase) ==> (next is Stopped && action is Fail),
        next is Stopped ==> (action is Stop || action is Fail),
{
}

/// The container's address is the one given, or else the lowest address that no
/// running container holds.
pub proof fn address_is_given_or_lowest_free(args: RunArgs, phase: RunPhase, event: RunEvent, next: RunPhase, action: RunAction)
    requires
        run_step_spec(args, phase, event, next, action),
    ensures
        next matches RunPhase::BridgeUp { ip } ==> ((phase is Start && event is Begin && args.ip == Some(ip))
            || (phase is AwaitingAddresses && (event matches RunEvent::Addresses(used) && is_lowest_free(used@, ip@)))),
{
}

} // verus!
