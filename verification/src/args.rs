//! What a user asks of the engine: the subcommand and the options of a container run.
use vstd::prelude::*;

verus! {

/// The whole command line.
#[derive(Debug)]
pub struct OxideArgs {
    pub command: Option<Commands>,
}

/// The subcommands.
#[derive(Debug)]
pub enum Commands {
    /// Run a command in a new container.
    Run(RunArgs),
    /// The engine re-executing itself as the container's first process.
    InternalChild(RunArgs),
    /// List running containers.
    List,
    /// Show the log of a detached container.
    Logs { name: String, follow: bool },
    /// Stop a running container.
    Stop { name: String },
    /// Fetch a root filesystem image.
    Pull { distro: String },
    /// Show the resource usage of a running container, once or continuously.
    Stats { name: String, stream: bool },
}

/// The options of a container run.
#[derive(Debug)]
pub struct RunArgs {
    /// Image (root filesystem) to start from, such as `alpine`.
    pub image: String,
    /// Unique name of the container.
    pub name: String,
    /// Fixed address; one is allocated when absent.
    pub ip: Option<String>,
    /// Bridge to attach to.
    pub network: String,
    /// Memory limit, such as `512M`, `1G` or `max`.
    pub memory: String,
    /// Bind mounts, each `host:container`.
    pub volumes: Vec<String>,
    /// Published ports, each `host:container`.
    pub ports: Vec<String>,
    /// The program and its arguments.
    pub command: Vec<String>,
    /// Read end of the start-up pipe (internal).
    pub pipe_fd: Option<i32>,
    /// Use a user namespace instead of root privileges.
    pub rootless: bool,
    /// Run in the background with output going to the log file.
    pub detach: bool,
    /// Mount the root filesystem read-only.
    pub readonly: bool,
}

/// A run needs root privileges unless it is rootless.
pub fn run_permitted(is_root: bool, args: &RunArgs) -> (r: bool)
    ensures
        r == (is_root || args.rootless),
{
    is_root || args.rootless
}

} // verus!
