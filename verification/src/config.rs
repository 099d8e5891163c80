use vstd::prelude::*;
use crate::text::str_equal;

verus! {

/// How the client and the server talk.
#[derive(Debug, Clone, Copy, PartialEq, Eq)]
pub enum CommType {
    /// Shared memory, through the network emulator where `emulator` is set.
    Shm { emulator: bool },
    /// A TCP connection.
    Tcp,
}

/// The communication types a configuration may name.
pub open spec fn supported_comm_type(comm_type: Seq<char>, emulator: bool) -> bool {
    if emulator {
        comm_type == "shm"@
    } else {
        comm_type == "shm"@ || comm_type == "tcp"@
    }
}

/// The communication a configuration asks for: the emulator runs over
/// shared memory only; otherwise "shm" and "tcp" are understood.
pub fn checked_comm_type(comm_type: &str, emulator: bool) -> (t: CommType)
    requires
        supported_comm_type(comm_type@, emulator),
    ensures
        emulator ==> t == (CommType::Shm { emulator: true }),
        !emulator && comm_type@ == "shm"@ ==> t == (CommType::Shm { emulator: false }),
        !emulator && comm_type@ == "tcp"@ ==> t == CommType::Tcp,
{
    if emulator {
        return CommType::Shm { emulator: true };
    }
    proof {
        reveal_strlit("shm");
        reveal_strlit("tcp");
        assert("shm"@[0] != "tcp"@[0]);
    }
    if str_equal(comm_type, "shm") {
        CommType::Shm { emulator: false }
    } else {
        CommType::Tcp
    }
}

/// Whether `comm_type` with `emulator` is a configuration the library
/// understands.
pub fn is_supported_comm_type(comm_type: &str, emulator: bool) -> (b: bool)
    ensures
        b == supported_comm_type(comm_type@, emulator),
{
    if emulator {
        str_equal(comm_type, "shm")
    } else {
        str_equal(comm_type, "shm") || str_equal(comm_type, "tcp")
    }
}

/// Where the daemon and the devices are reached.
#[derive(Debug, Clone, PartialEq, Eq)]
pub struct NetworkConfig {
    pub daemon_socket: String,
    pub handshake_socket: String,
    pub device_name: String,
    pub device_port: u8,
}

/// The client's part of the configuration.
#[derive(Debug, Clone, PartialEq, Eq)]
pub struct ClientConfig {
    pub opt_local: bool,
    pub job_name: String,
    pub network: NetworkConfig,
}

/// The server's part of the configuration.
#[derive(Debug, Clone, PartialEq, Eq)]
pub struct ServerConfig {
    pub network: NetworkConfig,
}

/// The port client `id` talks to: the handshake port moved up by the id,
/// taken modulo 2^16 as a `u16`.
pub fn session_port(base: u16, id: i32) -> (p: u16)
    requires
        base + (id as u16) <= u16::MAX,
    ensures
        p == base + (id as u16),
{
    base + id as u16
}

/// What a checkpoint does to the job.
#[derive(Debug, Clone, Copy, PartialEq, Eq)]
pub enum CheckpointMode {
    Kill,
    LeaveRunning,
    Detach,
}

/// A request to checkpoint a job into a directory.
#[derive(Debug, Clone, PartialEq, Eq)]
pub struct CheckpointRequest {
    pub job_name: String,
    pub ckpt_dir: String,
    pub mode: CheckpointMode,
}

} // verus!
