use vstd::prelude::*;
use vstd::string::*;

verus! {

/// A request from the command-line tool to the daemon.
#[derive(Clone, Debug, PartialEq, Eq)]
pub enum ClientCommand {
    Scan { timeout_ms: u64 },
    Status,
    Connect { name: String },
    Disconnect { name: String },
    Record { name: String },
}

/// The power byte of one connected device, tagged with the device's name.
#[derive(Clone, Debug, PartialEq, Eq)]
pub struct DeviceStatus {
    pub name: String,
    pub power: u8,
}

/// The daemon's reply to one request.
#[derive(Clone, Debug, PartialEq, Eq)]
pub enum DaemonResponse {
    Success,
    Devices(Vec<String>),
    Status(Vec<DeviceStatus>),
    Error(String),
}

/// A reply as a mathematical value: names as character sequences.
pub enum Reply {
    Success,
    Devices(Seq<Seq<char>>),
    Status(Seq<(Seq<char>, u8)>),
    Error(Seq<char>),
}

/// The names of a list of strings.
pub open spec fn names_of(v: Seq<String>) -> Seq<Seq<char>> {
    v.map_values(|s: String| s@)
}

impl View for DeviceStatus {
    type V = (Seq<char>, u8);

    open spec fn view(&self) -> (Seq<char>, u8) {
        (self.name@, self.power)
    }
}

impl View for DaemonResponse {
    type V = Reply;

    open spec fn view(&self) -> Reply {
        match self {
            DaemonResponse::Success => Reply::Success,
            DaemonResponse::Devices(v) => Reply::Devices(names_of(v@)),
            DaemonResponse::Status(v) => Reply::Status(v@.map_values(|s: DeviceStatus| s@)),
            DaemonResponse::Error(m) => Reply::Error(m@),
        }
    }
}

/// The message for a request that names a device without a live actor.
pub open spec fn not_connected_msg() -> Seq<char> {
    "Device not connected"@
}

/// The message for a `Connect` whose device was not discovered.
pub open spec fn not_found_msg(name: Seq<char>) -> Seq<char> {
    name + " not found"@
}

/// The reply to a request that names a device without a live actor.
pub fn not_connected() -> (r: DaemonResponse)
    ensures
        r@ == Reply::Error(not_connected_msg()),
{
    proof {
        reveal_strlit("Device not connected");
    }
    DaemonResponse::Error(String::from_str("Device not connected"))
}

/// The reply to a `Connect` whose device was not discovered.
pub fn not_found(name: &String) -> (r: DaemonResponse)
    ensures
        r@ == Reply::Error(not_found_msg(name@)),
{
    proof {
        reveal_strlit(" not found");
    }
    let m = name.clone().concat(" not found");
    DaemonResponse::Error(m)
}

} // verus!
