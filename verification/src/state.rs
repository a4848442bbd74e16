//! The record kept for each running container, and where such records and the
//! containers' logs live on disk.
use vstd::prelude::*;
use crate::paths::{join_path, join_spec};
use crate::text::{append_decimal, concat2, concat3, decimal, owned};

verus! {

/// What is known of a running container.
#[derive(Debug)]
pub struct ContainerState {
    pub name: String,
    pub pid: u32,
    pub ip: String,
    pub network: String,
    pub veth_host: String,
    pub status: String,
}

/// The directory that holds one state file per container.
pub open spec fn state_dir_spec() -> Seq<char> {
    "/tmp/nucleus/state"@
}

/// The state file of the container `name`: `<name>.json` joined onto the state directory.
pub open spec fn state_file_spec(name: Seq<char>) -> Seq<char> {
    join_spec(state_dir_spec(), name + ".json"@)
}

/// The log file of the container `name`.
pub open spec fn log_file_spec(name: Seq<char>) -> Seq<char> {
    "/tmp/nucleus/logs/"@ + name + ".log"@
}

/// The directory that holds one state file per container.
pub fn get_state_dir() -> (r: String)
    ensures
        r@ == state_dir_spec(),
{
    owned("/tmp/nucleus/state")
}

/// The state file of the container `name`.
pub fn state_file_path(name: &str) -> (r: String)
    ensures
        r@ == state_file_spec(name@),
{
    let dir = get_state_dir();
    let file = concat2(name, ".json");
    join_path(dir.as_str(), file.as_str())
}

/// The file that a detached container's output is appended to.
pub fn log_file_path(name: &str) -> (r: String)
    ensures
        r@ == log_file_spec(name@),
{
    concat3("/tmp/nucleus/logs/", name, ".log")
}

/// The `/proc` directory of process `pid`, which exists while the process lives.
pub open spec fn process_dir_spec(pid: u32) -> Seq<char> {
    "/proc/"@ + decimal(pid as nat)
}

/// The `/proc` directory of process `pid`; a record whose process has no such
/// directory is stale.
pub fn process_dir(pid: u32) -> (r: String)
    ensures
        r@ == process_dir_spec(pid),
{
    let mut s = owned("/proc/");
    append_decimal(&mut s, pid as u64);
    s
}

/// The record of a container that has just been started.
pub fn running_state(name: &str, pid: u32, ip: &str, network: &str, veth_host: &str) -> (r:
    ContainerState)
    ensures
        r.name@ == name@,
        r.pid == pid,
        r.ip@ == ip@,
        r.network@ == network@,
        r.veth_host@ == veth_host@,
        r.status@ == "Running"@,
{
    ContainerState {
        name: owned(name),
        pid,
        ip: owned(ip),
        network: owned(network),
        veth_host: owned(veth_host),
        status: owned("Running"),
    }
}

/// The position of the first container called `name`, if any.
pub fn find_container(containers: &Vec<ContainerState>, name: &str) -> (r: Option<usize>)
    ensures
        match r {
            Some(i) => i < containers.len() && containers[i as int].name@ == name@ && forall|j: int|
                0 <= j < i ==> #[trigger] containers[j].name@ != name@,
            None => forall|j: int| 0 <= j < containers.len() ==> #[trigger] containers[j].name@ != name@,
        },
{
    let wanted = owned(name);
    let mut i: usize = 0;
    while i < containers.len()
        invariant
            i <= containers.len(),
            wanted@ == name@,
            forall|j: int| 0 <= j < i ==> #[trigger] containers[j].name@ != name@,
        decreases containers.len() - i,
    {
        if containers[i].name == wanted {
            return Some(i);
        }
        i = i + 1;
    }
    None
}

/// Two containers whose names do not begin with `/` have the same state file only if
/// they have the same name.
pub proof fn state_files_are_distinct(a: Seq<char>, b: Seq<char>)
    requires
        !(a.len() > 0 && a[0] == '/'),
        !(b.len() > 0 && b[0] == '/'),
        state_file_spec(a) == state_file_spec(b),
    ensures
        a == b,
{
    reveal_strlit("/tmp/nucleus/state");
    reveal_strlit(".json");
    let d = state_dir_spec();
    let j = ".json"@;
    assert((a + j).len() > 0 ==> (a + j)[0] != '/') by {
        if a.len() == 0 {
            assert((a + j)[0] == j[0]);
        } else {
            assert((a + j)[0] == a[0]);
        }
    }
    assert((b + j).len() > 0 ==> (b + j)[0] != '/') by {
        if b.len() == 0 {
            assert((b + j)[0] == j[0]);
        } else {
            assert((b + j)[0] == b[0]);
        }
    }
    let pa = d + seq!['/'] + (a + j);
    let pb = d + seq!['/'] + (b + j);
    assert(state_file_spec(a) == pa);
    assert(state_file_spec(b) == pb);
    assert(pa.len() == d.len() + 1 + a.len() + j.len());
    assert(pb.len() == d.len() + 1 + b.len() + j.len());
    assert(a.len() == b.len());
    assert forall|i: int| 0 <= i < a.len() implies a[i] == b[i] by {
        assert(pa[d.len() + 1 + i] == a[i]);
        assert(pb[d.len() + 1 + i] == b[i]);
    }
    assert(a =~= b);
}

} // verus!
