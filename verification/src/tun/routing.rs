//! The routes of a full tunnel and of the kill switch: which commands set
//! them up, keep them and take them down, on each system.

use vstd::prelude::*;

use crate::text::{
    chars_of, decimal, decimal_chars, joined, spells, string_of, string_views, text, trim, trimmed,
};

verus! {

/// The network of the VPN.
pub const PAYPHONE_SUBNET_CIDR: &'static str = "10.77.0.0/24";

/// The server's address in the VPN: the tunnel's gateway and its resolver.
pub const TUNNEL_GATEWAY: &'static str = "10.77.0.1";

// ---------------------------------------------------------------------------
// Commands
// ---------------------------------------------------------------------------

/// What becomes of a plan where a command fails.
#[derive(Debug, Clone, Copy, PartialEq, Eq, Structural)]
pub enum OnFailure {
    /// It goes on.
    Ignore,
    /// It goes on behind so many commands that would have followed.
    Skip(u8),
    /// It ends, and has failed.
    Stop,
}

/// Where a plan goes on after the command at `at` has run; nowhere where it
/// has failed as a whole.
pub fn next_command(at: usize, fate: OnFailure, ok: bool) -> (next: Option<usize>)
    requires
        at + 256 <= usize::MAX,
    ensures
        next == (match fate {
            OnFailure::Stop if !ok => None,
            OnFailure::Skip(n) if !ok => Some((at + 1 + n) as usize),
            _ => Some((at + 1) as usize),
        }),
{
    if ok {
        return Some(at + 1);
    }
    match fate {
        OnFailure::Ignore => Some(at + 1),
        OnFailure::Skip(n) => Some(at + 1 + n as usize),
        OnFailure::Stop => None,
    }
}

/// A command to run.
#[derive(Debug)]
pub struct Command {
    pub program: &'static str,
    pub args: Vec<String>,
    /// What is written to its input.
    pub input: Option<&'static str>,
}

/// A command, its words as sequences.
pub ghost struct Call {
    pub program: Seq<char>,
    pub args: Seq<Seq<char>>,
    pub input: Option<Seq<char>>,
}

impl View for Command {
    type V = Call;

    open spec fn view(&self) -> Call {
        Call {
            program: self.program@,
            args: string_views(self.args@),
            input: match self.input {
                Some(input) => Some(input@),
                None => None,
            },
        }
    }
}

/// A command without input.
pub open spec fn call(program: Seq<char>, args: Seq<Seq<char>>) -> Call {
    Call { program, args, input: None }
}

pub open spec fn strs(list: Seq<&str>) -> Seq<Seq<char>> {
    Seq::new(list.len(), |i: int| list[i]@)
}

fn command(program: &'static str, list: &[&str]) -> (out: Command)
    ensures
        out@ == call(program@, strs(list@)),
{
    let mut args: Vec<String> = Vec::new();
    let mut i: usize = 0;
    while i < list.len()
        invariant
            i <= list@.len(),
            args@.len() == i,
            forall|j: int| 0 <= j < i ==> (#[trigger] args@[j])@ == list@[j]@,
        decreases list@.len() - i,
    {
        args.push(text(list[i]));
        i = i + 1;
    }
    assert(string_views(args@) =~= strs(list@));
    Command { program, args, input: None }
}

/// Half of all addresses.
#[derive(Debug, Clone, Copy, PartialEq, Eq, Structural)]
pub enum Half {
    V4Low,
    V4High,
    V6Low,
    V6High,
}

impl Half {
    pub open spec fn prefix(self) -> Seq<char> {
        match self {
            Half::V4Low => "0.0.0.0/1"@,
            Half::V4High => "128.0.0.0/1"@,
            Half::V6Low => "::/1"@,
            Half::V6High => "8000::/1"@,
        }
    }

    /// The prefix without its length.
    pub open spec fn network(self) -> Seq<char> {
        match self {
            Half::V4Low => "0.0.0.0"@,
            Half::V4High => "128.0.0.0"@,
            Half::V6Low => "::"@,
            Half::V6High => "8000::"@,
        }
    }

    pub open spec fn v6(self) -> bool {
        self == Half::V6Low || self == Half::V6High
    }

    fn prefix_text(self) -> (out: &'static str)
        ensures
            out@ == self.prefix(),
    {
        match self {
            Half::V4Low => "0.0.0.0/1",
            Half::V4High => "128.0.0.0/1",
            Half::V6Low => "::/1",
            Half::V6High => "8000::/1",
        }
    }

    fn network_text(self) -> (out: &'static str)
        ensures
            out@ == self.network(),
    {
        match self {
            Half::V4Low => "0.0.0.0",
            Half::V4High => "128.0.0.0",
            Half::V6Low => "::",
            Half::V6High => "8000::",
        }
    }

    fn is_v6(self) -> (yes: bool)
        ensures
            yes == self.v6(),
    {
        match self {
            Half::V4Low => false,
            Half::V4High => false,
            Half::V6Low => true,
            Half::V6High => true,
        }
    }
}

/// The server outside the tunnel, the gateway that leads there, and the
/// device in question.
#[derive(Debug)]
pub struct Way {
    pub server: String,
    pub gateway: String,
    pub device: String,
}

// ---------------------------------------------------------------------------
// Linux
// ---------------------------------------------------------------------------

#[derive(Debug, Clone, Copy, PartialEq, Eq, Structural)]
pub enum LinuxStep {
    /// The server stays reachable by its old way.
    Bypass,
    Unbypass,
    /// Half of all addresses goes through the device.
    ToDevice(Half),
    FromDevice(Half),
    /// Half of all addresses goes nowhere.
    Block(Half),
    Unblock(Half),
    /// The device's resolver is the server, for every name and by default.
    Resolver,
    ResolveAll,
    ResolveFirst,
    RevertResolver,
}

pub open spec fn linux_call(step: LinuxStep, way: Way) -> Call {
    let server = way.server@;
    let gateway = way.gateway@;
    let device = way.device@;
    match step {
        LinuxStep::Bypass => call("ip"@, seq!["route"@, "replace"@, server, "via"@, gateway]),
        LinuxStep::Unbypass => call("ip"@, seq!["route"@, "del"@, server, "via"@, gateway]),
        LinuxStep::ToDevice(half) => call("ip"@, seq!["route"@, "replace"@, half.prefix(), "dev"@, device]),
        LinuxStep::FromDevice(half) => call("ip"@, seq!["route"@, "del"@, half.prefix(), "dev"@, device]),
        LinuxStep::Block(half) => if half.v6() {
            call("ip"@, seq!["-6"@, "route"@, "replace"@, "blackhole"@, half.prefix()])
        } else {
            call("ip"@, seq!["route"@, "replace"@, "blackhole"@, half.prefix()])
        },
        LinuxStep::Unblock(half) => if half.v6() {
            call("ip"@, seq!["-6"@, "route"@, "del"@, "blackhole"@, half.prefix()])
        } else {
            call("ip"@, seq!["route"@, "del"@, "blackhole"@, half.prefix()])
        },
        LinuxStep::Resolver => call("resolvectl"@, seq!["dns"@, device, TUNNEL_GATEWAY@]),
        LinuxStep::ResolveAll => call("resolvectl"@, seq!["domain"@, device, "~."@]),
        LinuxStep::ResolveFirst => call("resolvectl"@, seq!["default-route"@, device, "yes"@]),
        LinuxStep::RevertResolver => call("resolvectl"@, seq!["revert"@, device]),
    }
}

/// The command of a step.
pub fn linux_command(step: LinuxStep, way: &Way) -> (out: Command)
    ensures
        out@ == linux_call(step, *way),
{
    let server: &str = &way.server;
    let gateway: &str = &way.gateway;
    let device: &str = &way.device;
    let out = match step {
        LinuxStep::Bypass => command("ip", &["route", "replace", server, "via", gateway]),
        LinuxStep::Unbypass => command("ip", &["route", "del", server, "via", gateway]),
        LinuxStep::ToDevice(half) => command("ip", &["route", "replace", half.prefix_text(), "dev", device]),
        LinuxStep::FromDevice(half) => command("ip", &["route", "del", half.prefix_text(), "dev", device]),
        LinuxStep::Block(half) => {
            if half.is_v6() {
                command("ip", &["-6", "route", "replace", "blackhole", half.prefix_text()])
            } else {
                command("ip", &["route", "replace", "blackhole", half.prefix_text()])
            }
        },
        LinuxStep::Unblock(half) => {
            if half.is_v6() {
                command("ip", &["-6", "route", "del", "blackhole", half.prefix_text()])
            } else {
                command("ip", &["route", "del", "blackhole", half.prefix_text()])
            }
        },
        LinuxStep::Resolver => command("resolvectl", &["dns", device, TUNNEL_GATEWAY]),
        LinuxStep::ResolveAll => command("resolvectl", &["domain", device, "~."]),
        LinuxStep::ResolveFirst => command("resolvectl", &["default-route", device, "yes"]),
        LinuxStep::RevertResolver => command("resolvectl", &["revert", device]),
    };
    assert(out@.args =~= linux_call(step, *way).args);
    out
}

pub open spec fn linux_install_steps() -> Seq<(LinuxStep, OnFailure)> {
    seq![
        (LinuxStep::Bypass, OnFailure::Stop),
        (LinuxStep::ToDevice(Half::V4Low), OnFailure::Stop),
        (LinuxStep::ToDevice(Half::V4High), OnFailure::Stop),
        (LinuxStep::Block(Half::V6Low), OnFailure::Ignore),
        (LinuxStep::Block(Half::V6High), OnFailure::Ignore),
        (LinuxStep::Resolver, OnFailure::Ignore),
        (LinuxStep::ResolveAll, OnFailure::Ignore),
        (LinuxStep::ResolveFirst, OnFailure::Ignore),
    ]
}

/// Sends all traffic but that to the server itself through the device.
pub fn linux_install() -> (plan: Vec<(LinuxStep, OnFailure)>)
    ensures
        plan@ == linux_install_steps(),
{
    let mut plan: Vec<(LinuxStep, OnFailure)> = Vec::new();
    plan.push((LinuxStep::Bypass, OnFailure::Stop));
    plan.push((LinuxStep::ToDevice(Half::V4Low), OnFailure::Stop));
    plan.push((LinuxStep::ToDevice(Half::V4High), OnFailure::Stop));
    plan.push((LinuxStep::Block(Half::V6Low), OnFailure::Ignore));
    plan.push((LinuxStep::Block(Half::V6High), OnFailure::Ignore));
    plan.push((LinuxStep::Resolver, OnFailure::Ignore));
    plan.push((LinuxStep::ResolveAll, OnFailure::Ignore));
    plan.push((LinuxStep::ResolveFirst, OnFailure::Ignore));
    assert(plan@ =~= linux_install_steps());
    plan
}

pub open spec fn linux_restore_steps() -> Seq<(LinuxStep, OnFailure)> {
    seq![
        (LinuxStep::Bypass, OnFailure::Ignore),
        (LinuxStep::ToDevice(Half::V4Low), OnFailure::Ignore),
        (LinuxStep::ToDevice(Half::V4High), OnFailure::Ignore),
        (LinuxStep::Block(Half::V6Low), OnFailure::Ignore),
        (LinuxStep::Block(Half::V6High), OnFailure::Ignore),
        (LinuxStep::Resolver, OnFailure::Ignore),
        (LinuxStep::ResolveAll, OnFailure::Ignore),
        (LinuxStep::ResolveFirst, OnFailure::Ignore),
    ]
}

/// Puts back what has gone missing while the tunnel is up.
pub fn linux_restore() -> (plan: Vec<(LinuxStep, OnFailure)>)
    ensures
        plan@ == linux_restore_steps(),
{
    let mut plan: Vec<(LinuxStep, OnFailure)> = Vec::new();
    plan.push((LinuxStep::Bypass, OnFailure::Ignore));
    plan.push((LinuxStep::ToDevice(Half::V4Low), OnFailure::Ignore));
    plan.push((LinuxStep::ToDevice(Half::V4High), OnFailure::Ignore));
    plan.push((LinuxStep::Block(Half::V6Low), OnFailure::Ignore));
    plan.push((LinuxStep::Block(Half::V6High), OnFailure::Ignore));
    plan.push((LinuxStep::Resolver, OnFailure::Ignore));
    plan.push((LinuxStep::ResolveAll, OnFailure::Ignore));
    plan.push((LinuxStep::ResolveFirst, OnFailure::Ignore));
    assert(plan@ =~= linux_restore_steps());
    plan
}

pub open spec fn linux_teardown_steps() -> Seq<(LinuxStep, OnFailure)> {
    seq![
        (LinuxStep::RevertResolver, OnFailure::Ignore),
        (LinuxStep::Unblock(Half::V6Low), OnFailure::Ignore),
        (LinuxStep::Unblock(Half::V6High), OnFailure::Ignore),
        (LinuxStep::FromDevice(Half::V4High), OnFailure::Ignore),
        (LinuxStep::FromDevice(Half::V4Low), OnFailure::Ignore),
        (LinuxStep::Unbypass, OnFailure::Ignore),
    ]
}

/// Takes the tunnel down.
pub fn linux_teardown() -> (plan: Vec<(LinuxStep, OnFailure)>)
    ensures
        plan@ == linux_teardown_steps(),
{
    let mut plan: Vec<(LinuxStep, OnFailure)> = Vec::new();
    plan.push((LinuxStep::RevertResolver, OnFailure::Ignore));
    plan.push((LinuxStep::Unblock(Half::V6Low), OnFailure::Ignore));
    plan.push((LinuxStep::Unblock(Half::V6High), OnFailure::Ignore));
    plan.push((LinuxStep::FromDevice(Half::V4High), OnFailure::Ignore));
    plan.push((LinuxStep::FromDevice(Half::V4Low), OnFailure::Ignore));
    plan.push((LinuxStep::Unbypass, OnFailure::Ignore));
    assert(plan@ =~= linux_teardown_steps());
    plan
}

pub open spec fn linux_arm_steps() -> Seq<(LinuxStep, OnFailure)> {
    seq![
        (LinuxStep::Bypass, OnFailure::Stop),
        (LinuxStep::Block(Half::V4Low), OnFailure::Ignore),
        (LinuxStep::Block(Half::V4High), OnFailure::Ignore),
        (LinuxStep::Block(Half::V6Low), OnFailure::Ignore),
        (LinuxStep::Block(Half::V6High), OnFailure::Ignore),
        (LinuxStep::Resolver, OnFailure::Ignore),
        (LinuxStep::ResolveAll, OnFailure::Ignore),
        (LinuxStep::ResolveFirst, OnFailure::Ignore),
    ]
}

/// Switches the kill switch on: only the server stays reachable.
pub fn linux_arm() -> (plan: Vec<(LinuxStep, OnFailure)>)
    ensures
        plan@ == linux_arm_steps(),
{
    let mut plan: Vec<(LinuxStep, OnFailure)> = Vec::new();
    plan.push((LinuxStep::Bypass, OnFailure::Stop));
    plan.push((LinuxStep::Block(Half::V4Low), OnFailure::Ignore));
    plan.push((LinuxStep::Block(Half::V4High), OnFailure::Ignore));
    plan.push((LinuxStep::Block(Half::V6Low), OnFailure::Ignore));
    plan.push((LinuxStep::Block(Half::V6High), OnFailure::Ignore));
    plan.push((LinuxStep::Resolver, OnFailure::Ignore));
    plan.push((LinuxStep::ResolveAll, OnFailure::Ignore));
    plan.push((LinuxStep::ResolveFirst, OnFailure::Ignore));
    assert(plan@ =~= linux_arm_steps());
    plan
}

pub open spec fn linux_rearm_steps() -> Seq<(LinuxStep, OnFailure)> {
    seq![
        (LinuxStep::Bypass, OnFailure::Ignore),
        (LinuxStep::Block(Half::V4Low), OnFailure::Ignore),
        (LinuxStep::Block(Half::V4High), OnFailure::Ignore),
        (LinuxStep::Block(Half::V6Low), OnFailure::Ignore),
        (LinuxStep::Block(Half::V6High), OnFailure::Ignore),
    ]
}

/// Puts the kill switch back in place of a tunnel that has gone.
pub fn linux_rearm() -> (plan: Vec<(LinuxStep, OnFailure)>)
    ensures
        plan@ == linux_rearm_steps(),
{
    let mut plan: Vec<(LinuxStep, OnFailure)> = Vec::new();
    plan.push((LinuxStep::Bypass, OnFailure::Ignore));
    plan.push((LinuxStep::Block(Half::V4Low), OnFailure::Ignore));
    plan.push((LinuxStep::Block(Half::V4High), OnFailure::Ignore));
    plan.push((LinuxStep::Block(Half::V6Low), OnFailure::Ignore));
    plan.push((LinuxStep::Block(Half::V6High), OnFailure::Ignore));
    assert(plan@ =~= linux_rearm_steps());
    plan
}

pub open spec fn linux_ensure_steps() -> Seq<(LinuxStep, OnFailure)> {
    seq![
        (LinuxStep::Bypass, OnFailure::Ignore),
        (LinuxStep::Block(Half::V4Low), OnFailure::Ignore),
        (LinuxStep::Block(Half::V4High), OnFailure::Ignore),
        (LinuxStep::Block(Half::V6Low), OnFailure::Ignore),
        (LinuxStep::Block(Half::V6High), OnFailure::Ignore),
        (LinuxStep::Resolver, OnFailure::Ignore),
        (LinuxStep::ResolveAll, OnFailure::Ignore),
        (LinuxStep::ResolveFirst, OnFailure::Ignore),
    ]
}

/// Puts back what has gone missing of the kill switch.
pub fn linux_ensure() -> (plan: Vec<(LinuxStep, OnFailure)>)
    ensures
        plan@ == linux_ensure_steps(),
{
    let mut plan: Vec<(LinuxStep, OnFailure)> = Vec::new();
    plan.push((LinuxStep::Bypass, OnFailure::Ignore));
    plan.push((LinuxStep::Block(Half::V4Low), OnFailure::Ignore));
    plan.push((LinuxStep::Block(Half::V4High), OnFailure::Ignore));
    plan.push((LinuxStep::Block(Half::V6Low), OnFailure::Ignore));
    plan.push((LinuxStep::Block(Half::V6High), OnFailure::Ignore));
    plan.push((LinuxStep::Resolver, OnFailure::Ignore));
    plan.push((LinuxStep::ResolveAll, OnFailure::Ignore));
    plan.push((LinuxStep::ResolveFirst, OnFailure::Ignore));
    assert(plan@ =~= linux_ensure_steps());
    plan
}

pub open spec fn linux_disarm_steps() -> Seq<(LinuxStep, OnFailure)> {
    seq![
        (LinuxStep::RevertResolver, OnFailure::Ignore),
        (LinuxStep::Unblock(Half::V6Low), OnFailure::Ignore),
        (LinuxStep::Unblock(Half::V6High), OnFailure::Ignore),
        (LinuxStep::Unblock(Half::V4Low), OnFailure::Ignore),
        (LinuxStep::Unblock(Half::V4High), OnFailure::Ignore),
        (LinuxStep::Unbypass, OnFailure::Ignore),
    ]
}

/// Switches the kill switch off.
pub fn linux_disarm() -> (plan: Vec<(LinuxStep, OnFailure)>)
    ensures
        plan@ == linux_disarm_steps(),
{
    let mut plan: Vec<(LinuxStep, OnFailure)> = Vec::new();
    plan.push((LinuxStep::RevertResolver, OnFailure::Ignore));
    plan.push((LinuxStep::Unblock(Half::V6Low), OnFailure::Ignore));
    plan.push((LinuxStep::Unblock(Half::V6High), OnFailure::Ignore));
    plan.push((LinuxStep::Unblock(Half::V4Low), OnFailure::Ignore));
    plan.push((LinuxStep::Unblock(Half::V4High), OnFailure::Ignore));
    plan.push((LinuxStep::Unbypass, OnFailure::Ignore));
    assert(plan@ =~= linux_disarm_steps());
    plan
}

// ---------------------------------------------------------------------------
// macOS
// ---------------------------------------------------------------------------

#[derive(Debug, Clone, Copy, PartialEq, Eq, Structural)]
pub enum MacStep {
    /// The server's own route, for the device alone or for all.
    DeleteScopedHost,
    DeleteHost,
    AddHost,
    AddScopedHost,
    /// Half of all addresses goes through the tunnel.
    AddTunnel(Half),
    DeleteTunnel(Half),
    /// Whatever route half of all addresses has.
    DeleteRoute(Half),
    /// Half of all addresses goes nowhere.
    Block(Half),
    Unblock(Half),
    /// The resolver is the server.
    SetResolver,
    ClearResolver,
    FlushResolver,
    /// The default route by the gateway.
    DeleteDefault,
    AddDefault,
    AddScopedDefault,
}

/// What the system's configuration is told to make the server the resolver.
pub const SET_RESOLVER: &'static str =
    "d.init\nd.add ServerAddresses * 10.77.0.1\nd.add SupplementalMatchDomains * \"\"\nset State:/Network/Service/PAYPHONE/DNS\n";

pub const CLEAR_RESOLVER: &'static str =
    "remove State:/Network/Service/PAYPHONE/DNS\nremove Setup:/Network/Service/PAYPHONE/DNS\n";

pub open spec fn family(half: Half) -> Seq<char> {
    if half.v6() {
        "-inet6"@
    } else {
        "-inet"@
    }
}

fn family_text(half: Half) -> (out: &'static str)
    ensures
        out@ == family(half),
{
    if half.is_v6() {
        "-inet6"
    } else {
        "-inet"
    }
}

pub open spec fn mac_call(step: MacStep, way: Way) -> Call {
    let server = way.server@;
    let gateway = way.gateway@;
    let device = way.device@;
    let tunnel = TUNNEL_GATEWAY@;
    match step {
        MacStep::DeleteScopedHost => call(
            "route"@,
            seq!["delete"@, "-ifscope"@, device, "-inet"@, "-host"@, server],
        ),
        MacStep::DeleteHost => call("route"@, seq!["delete"@, "-inet"@, "-host"@, server]),
        MacStep::AddHost => call("route"@, seq!["add"@, "-inet"@, "-host"@, server, gateway]),
        MacStep::AddScopedHost => call(
            "route"@,
            seq!["add"@, "-ifscope"@, device, "-inet"@, "-host"@, server, gateway],
        ),
        MacStep::AddTunnel(half) => call("route"@, seq!["add"@, "-inet"@, "-net"@, half.prefix(), tunnel]),
        MacStep::DeleteTunnel(half) => call("route"@, seq!["delete"@, "-inet"@, "-net"@, half.prefix(), tunnel]),
        MacStep::DeleteRoute(half) => if half.v6() {
            call("route"@, seq!["delete"@, "-inet6"@, half.prefix()])
        } else {
            call("route"@, seq!["delete"@, "-inet"@, "-net"@, half.prefix()])
        },
        MacStep::Block(half) => call("route"@, seq!["add"@, family(half), "-blackhole"@, half.prefix()]),
        MacStep::Unblock(half) => call("route"@, seq!["delete"@, family(half), "-blackhole"@, half.prefix()]),
        MacStep::SetResolver => Call { program: "scutil"@, args: seq![], input: Some(SET_RESOLVER@) },
        MacStep::ClearResolver => Call { program: "scutil"@, args: seq![], input: Some(CLEAR_RESOLVER@) },
        MacStep::FlushResolver => call("killall"@, seq!["-HUP"@, "mDNSResponder"@]),
        MacStep::DeleteDefault => call("route"@, seq!["delete"@, "default"@]),
        MacStep::AddDefault => call("route"@, seq!["add"@, "default"@, gateway]),
        MacStep::AddScopedDefault => call("route"@, seq!["add"@, "-ifscope"@, device, "default"@, gateway]),
    }
}

/// The command of a step.
pub fn mac_command(step: MacStep, way: &Way) -> (out: Command)
    ensures
        out@ == mac_call(step, *way),
{
    let server: &str = &way.server;
    let gateway: &str = &way.gateway;
    let device: &str = &way.device;
    let tunnel: &str = TUNNEL_GATEWAY;
    let out = match step {
        MacStep::DeleteScopedHost => command("route", &["delete", "-ifscope", device, "-inet", "-host", server]),
        MacStep::DeleteHost => command("route", &["delete", "-inet", "-host", server]),
        MacStep::AddHost => command("route", &["add", "-inet", "-host", server, gateway]),
        MacStep::AddScopedHost => command("route", &["add", "-ifscope", device, "-inet", "-host", server, gateway]),
        MacStep::AddTunnel(half) => command("route", &["add", "-inet", "-net", half.prefix_text(), tunnel]),
        MacStep::DeleteTunnel(half) => command("route", &["delete", "-inet", "-net", half.prefix_text(), tunnel]),
        MacStep::DeleteRoute(half) => {
            if half.is_v6() {
                command("route", &["delete", "-inet6", half.prefix_text()])
            } else {
                command("route", &["delete", "-inet", "-net", half.prefix_text()])
            }
        },
        MacStep::Block(half) => command("route", &["add", family_text(half), "-blackhole", half.prefix_text()]),
        MacStep::Unblock(half) => command("route", &["delete", family_text(half), "-blackhole", half.prefix_text()]),
        MacStep::SetResolver => Command { program: "scutil", args: Vec::new(), input: Some(SET_RESOLVER) },
        MacStep::ClearResolver => Command { program: "scutil", args: Vec::new(), input: Some(CLEAR_RESOLVER) },
        MacStep::FlushResolver => command("killall", &["-HUP", "mDNSResponder"]),
        MacStep::DeleteDefault => command("route", &["delete", "default"]),
        MacStep::AddDefault => command("route", &["add", "default", gateway]),
        MacStep::AddScopedDefault => command("route", &["add", "-ifscope", device, "default", gateway]),
    };
    assert(out@.args =~= mac_call(step, *way).args);
    out
}

pub open spec fn mac_install_steps() -> Seq<(MacStep, OnFailure)> {
    seq![
        (MacStep::DeleteScopedHost, OnFailure::Ignore),
        (MacStep::DeleteHost, OnFailure::Ignore),
        (MacStep::AddHost, OnFailure::Stop),
        (MacStep::AddScopedHost, OnFailure::Ignore),
        (MacStep::Unblock(Half::V4Low), OnFailure::Ignore),
        (MacStep::Unblock(Half::V4High), OnFailure::Ignore),
        (MacStep::DeleteRoute(Half::V4Low), OnFailure::Ignore),
        (MacStep::DeleteRoute(Half::V4High), OnFailure::Ignore),
        (MacStep::AddTunnel(Half::V4Low), OnFailure::Stop),
        (MacStep::AddTunnel(Half::V4High), OnFailure::Stop),
        (MacStep::DeleteScopedHost, OnFailure::Ignore),
        (MacStep::DeleteHost, OnFailure::Ignore),
        (MacStep::AddHost, OnFailure::Stop),
        (MacStep::AddScopedHost, OnFailure::Ignore),
        (MacStep::Block(Half::V6Low), OnFailure::Ignore),
        (MacStep::Block(Half::V6High), OnFailure::Ignore),
        (MacStep::SetResolver, OnFailure::Ignore),
        (MacStep::FlushResolver, OnFailure::Ignore),
    ]
}

/// Sends all traffic but that to the server itself through the tunnel.
pub fn mac_install() -> (plan: Vec<(MacStep, OnFailure)>)
    ensures
        plan@ == mac_install_steps(),
{
    let mut plan: Vec<(MacStep, OnFailure)> = Vec::new();
    plan.push((MacStep::DeleteScopedHost, OnFailure::Ignore));
    plan.push((MacStep::DeleteHost, OnFailure::Ignore));
    plan.push((MacStep::AddHost, OnFailure::Stop));
    plan.push((MacStep::AddScopedHost, OnFailure::Ignore));
    plan.push((MacStep::Unblock(Half::V4Low), OnFailure::Ignore));
    plan.push((MacStep::Unblock(Half::V4High), OnFailure::Ignore));
    plan.push((MacStep::DeleteRoute(Half::V4Low), OnFailure::Ignore));
    plan.push((MacStep::DeleteRoute(Half::V4High), OnFailure::Ignore));
    plan.push((MacStep::AddTunnel(Half::V4Low), OnFailure::Stop));
    plan.push((MacStep::AddTunnel(Half::V4High), OnFailure::Stop));
    plan.push((MacStep::DeleteScopedHost, OnFailure::Ignore));
    plan.push((MacStep::DeleteHost, OnFailure::Ignore));
    plan.push((MacStep::AddHost, OnFailure::Stop));
    plan.push((MacStep::AddScopedHost, OnFailure::Ignore));
    plan.push((MacStep::Block(Half::V6Low), OnFailure::Ignore));
    plan.push((MacStep::Block(Half::V6High), OnFailure::Ignore));
    plan.push((MacStep::SetResolver, OnFailure::Ignore));
    plan.push((MacStep::FlushResolver, OnFailure::Ignore));
    assert(plan@ =~= mac_install_steps());
    plan
}

pub open spec fn mac_bypass_steps() -> Seq<(MacStep, OnFailure)> {
    seq![
        (MacStep::DeleteScopedHost, OnFailure::Ignore),
        (MacStep::DeleteHost, OnFailure::Ignore),
        (MacStep::AddHost, OnFailure::Skip(1)),
        (MacStep::AddScopedHost, OnFailure::Ignore),
    ]
}

/// Gives the server its own route.
pub fn mac_bypass() -> (plan: Vec<(MacStep, OnFailure)>)
    ensures
        plan@ == mac_bypass_steps(),
{
    let mut plan: Vec<(MacStep, OnFailure)> = Vec::new();
    plan.push((MacStep::DeleteScopedHost, OnFailure::Ignore));
    plan.push((MacStep::DeleteHost, OnFailure::Ignore));
    plan.push((MacStep::AddHost, OnFailure::Skip(1)));
    plan.push((MacStep::AddScopedHost, OnFailure::Ignore));
    assert(plan@ =~= mac_bypass_steps());
    plan
}

pub open spec fn mac_split_steps() -> Seq<(MacStep, OnFailure)> {
    seq![
        (MacStep::DeleteScopedHost, OnFailure::Ignore),
        (MacStep::DeleteHost, OnFailure::Ignore),
        (MacStep::AddHost, OnFailure::Skip(1)),
        (MacStep::AddScopedHost, OnFailure::Ignore),
        (MacStep::AddTunnel(Half::V4Low), OnFailure::Ignore),
        (MacStep::AddTunnel(Half::V4High), OnFailure::Ignore),
        (MacStep::DeleteScopedHost, OnFailure::Ignore),
        (MacStep::DeleteHost, OnFailure::Ignore),
        (MacStep::AddHost, OnFailure::Skip(1)),
        (MacStep::AddScopedHost, OnFailure::Ignore),
    ]
}

/// Gives the tunnel its routes, and the server its own before and after them.
pub fn mac_split() -> (plan: Vec<(MacStep, OnFailure)>)
    ensures
        plan@ == mac_split_steps(),
{
    let mut plan: Vec<(MacStep, OnFailure)> = Vec::new();
    plan.push((MacStep::DeleteScopedHost, OnFailure::Ignore));
    plan.push((MacStep::DeleteHost, OnFailure::Ignore));
    plan.push((MacStep::AddHost, OnFailure::Skip(1)));
    plan.push((MacStep::AddScopedHost, OnFailure::Ignore));
    plan.push((MacStep::AddTunnel(Half::V4Low), OnFailure::Ignore));
    plan.push((MacStep::AddTunnel(Half::V4High), OnFailure::Ignore));
    plan.push((MacStep::DeleteScopedHost, OnFailure::Ignore));
    plan.push((MacStep::DeleteHost, OnFailure::Ignore));
    plan.push((MacStep::AddHost, OnFailure::Skip(1)));
    plan.push((MacStep::AddScopedHost, OnFailure::Ignore));
    assert(plan@ =~= mac_split_steps());
    plan
}

pub open spec fn mac_block_v6_steps() -> Seq<(MacStep, OnFailure)> {
    seq![
        (MacStep::Block(Half::V6Low), OnFailure::Ignore),
        (MacStep::Block(Half::V6High), OnFailure::Ignore),
    ]
}

/// Sends IPv6 nowhere.
pub fn mac_block_v6() -> (plan: Vec<(MacStep, OnFailure)>)
    ensures
        plan@ == mac_block_v6_steps(),
{
    let mut plan: Vec<(MacStep, OnFailure)> = Vec::new();
    plan.push((MacStep::Block(Half::V6Low), OnFailure::Ignore));
    plan.push((MacStep::Block(Half::V6High), OnFailure::Ignore));
    assert(plan@ =~= mac_block_v6_steps());
    plan
}

pub open spec fn mac_resolver_steps() -> Seq<(MacStep, OnFailure)> {
    seq![
        (MacStep::SetResolver, OnFailure::Ignore),
    ]
}

/// Makes the server the resolver.
pub fn mac_resolver() -> (plan: Vec<(MacStep, OnFailure)>)
    ensures
        plan@ == mac_resolver_steps(),
{
    let mut plan: Vec<(MacStep, OnFailure)> = Vec::new();
    plan.push((MacStep::SetResolver, OnFailure::Ignore));
    assert(plan@ =~= mac_resolver_steps());
    plan
}

pub open spec fn mac_arm_steps() -> Seq<(MacStep, OnFailure)> {
    seq![
        (MacStep::DeleteScopedHost, OnFailure::Ignore),
        (MacStep::DeleteHost, OnFailure::Ignore),
        (MacStep::AddHost, OnFailure::Stop),
        (MacStep::AddScopedHost, OnFailure::Ignore),
        (MacStep::DeleteTunnel(Half::V4Low), OnFailure::Ignore),
        (MacStep::DeleteTunnel(Half::V4High), OnFailure::Ignore),
        (MacStep::DeleteRoute(Half::V4Low), OnFailure::Ignore),
        (MacStep::DeleteRoute(Half::V4High), OnFailure::Ignore),
        (MacStep::Block(Half::V4Low), OnFailure::Ignore),
        (MacStep::Block(Half::V4High), OnFailure::Ignore),
        (MacStep::Block(Half::V6Low), OnFailure::Ignore),
        (MacStep::Block(Half::V6High), OnFailure::Ignore),
        (MacStep::SetResolver, OnFailure::Ignore),
        (MacStep::FlushResolver, OnFailure::Ignore),
    ]
}

/// Switches the kill switch on: only the server stays reachable.
pub fn mac_arm() -> (plan: Vec<(MacStep, OnFailure)>)
    ensures
        plan@ == mac_arm_steps(),
{
    let mut plan: Vec<(MacStep, OnFailure)> = Vec::new();
    plan.push((MacStep::DeleteScopedHost, OnFailure::Ignore));
    plan.push((MacStep::DeleteHost, OnFailure::Ignore));
    plan.push((MacStep::AddHost, OnFailure::Stop));
    plan.push((MacStep::AddScopedHost, OnFailure::Ignore));
    plan.push((MacStep::DeleteTunnel(Half::V4Low), OnFailure::Ignore));
    plan.push((MacStep::DeleteTunnel(Half::V4High), OnFailure::Ignore));
    plan.push((MacStep::DeleteRoute(Half::V4Low), OnFailure::Ignore));
    plan.push((MacStep::DeleteRoute(Half::V4High), OnFailure::Ignore));
    plan.push((MacStep::Block(Half::V4Low), OnFailure::Ignore));
    plan.push((MacStep::Block(Half::V4High), OnFailure::Ignore));
    plan.push((MacStep::Block(Half::V6Low), OnFailure::Ignore));
    plan.push((MacStep::Block(Half::V6High), OnFailure::Ignore));
    plan.push((MacStep::SetResolver, OnFailure::Ignore));
    plan.push((MacStep::FlushResolver, OnFailure::Ignore));
    assert(plan@ =~= mac_arm_steps());
    plan
}

pub open spec fn mac_rearm_steps() -> Seq<(MacStep, OnFailure)> {
    seq![
        (MacStep::DeleteScopedHost, OnFailure::Ignore),
        (MacStep::DeleteHost, OnFailure::Ignore),
        (MacStep::AddHost, OnFailure::Skip(1)),
        (MacStep::AddScopedHost, OnFailure::Ignore),
        (MacStep::DeleteTunnel(Half::V4Low), OnFailure::Ignore),
        (MacStep::DeleteTunnel(Half::V4High), OnFailure::Ignore),
        (MacStep::DeleteRoute(Half::V4Low), OnFailure::Ignore),
        (MacStep::DeleteRoute(Half::V4High), OnFailure::Ignore),
        (MacStep::Block(Half::V4Low), OnFailure::Ignore),
        (MacStep::Block(Half::V4High), OnFailure::Ignore),
        (MacStep::Block(Half::V6Low), OnFailure::Ignore),
        (MacStep::Block(Half::V6High), OnFailure::Ignore),
        (MacStep::SetResolver, OnFailure::Ignore),
        (MacStep::FlushResolver, OnFailure::Ignore),
    ]
}

/// Puts the kill switch back, in place of a tunnel that has gone or of what has gone missing.
pub fn mac_rearm() -> (plan: Vec<(MacStep, OnFailure)>)
    ensures
        plan@ == mac_rearm_steps(),
{
    let mut plan: Vec<(MacStep, OnFailure)> = Vec::new();
    plan.push((MacStep::DeleteScopedHost, OnFailure::Ignore));
    plan.push((MacStep::DeleteHost, OnFailure::Ignore));
    plan.push((MacStep::AddHost, OnFailure::Skip(1)));
    plan.push((MacStep::AddScopedHost, OnFailure::Ignore));
    plan.push((MacStep::DeleteTunnel(Half::V4Low), OnFailure::Ignore));
    plan.push((MacStep::DeleteTunnel(Half::V4High), OnFailure::Ignore));
    plan.push((MacStep::DeleteRoute(Half::V4Low), OnFailure::Ignore));
    plan.push((MacStep::DeleteRoute(Half::V4High), OnFailure::Ignore));
    plan.push((MacStep::Block(Half::V4Low), OnFailure::Ignore));
    plan.push((MacStep::Block(Half::V4High), OnFailure::Ignore));
    plan.push((MacStep::Block(Half::V6Low), OnFailure::Ignore));
    plan.push((MacStep::Block(Half::V6High), OnFailure::Ignore));
    plan.push((MacStep::SetResolver, OnFailure::Ignore));
    plan.push((MacStep::FlushResolver, OnFailure::Ignore));
    assert(plan@ =~= mac_rearm_steps());
    plan
}

pub open spec fn mac_teardown_steps() -> Seq<(MacStep, OnFailure)> {
    seq![
        (MacStep::DeleteTunnel(Half::V4High), OnFailure::Ignore),
        (MacStep::DeleteTunnel(Half::V4Low), OnFailure::Ignore),
        (MacStep::DeleteRoute(Half::V4High), OnFailure::Ignore),
        (MacStep::DeleteRoute(Half::V4Low), OnFailure::Ignore),
        (MacStep::DeleteScopedHost, OnFailure::Ignore),
        (MacStep::DeleteHost, OnFailure::Ignore),
        (MacStep::DeleteRoute(Half::V6Low), OnFailure::Ignore),
        (MacStep::DeleteRoute(Half::V6High), OnFailure::Ignore),
        (MacStep::Unblock(Half::V6Low), OnFailure::Ignore),
        (MacStep::Unblock(Half::V6High), OnFailure::Ignore),
        (MacStep::ClearResolver, OnFailure::Ignore),
        (MacStep::FlushResolver, OnFailure::Ignore),
    ]
}

/// Takes the tunnel and the kill switch down.
pub fn mac_teardown() -> (plan: Vec<(MacStep, OnFailure)>)
    ensures
        plan@ == mac_teardown_steps(),
{
    let mut plan: Vec<(MacStep, OnFailure)> = Vec::new();
    plan.push((MacStep::DeleteTunnel(Half::V4High), OnFailure::Ignore));
    plan.push((MacStep::DeleteTunnel(Half::V4Low), OnFailure::Ignore));
    plan.push((MacStep::DeleteRoute(Half::V4High), OnFailure::Ignore));
    plan.push((MacStep::DeleteRoute(Half::V4Low), OnFailure::Ignore));
    plan.push((MacStep::DeleteScopedHost, OnFailure::Ignore));
    plan.push((MacStep::DeleteHost, OnFailure::Ignore));
    plan.push((MacStep::DeleteRoute(Half::V6Low), OnFailure::Ignore));
    plan.push((MacStep::DeleteRoute(Half::V6High), OnFailure::Ignore));
    plan.push((MacStep::Unblock(Half::V6Low), OnFailure::Ignore));
    plan.push((MacStep::Unblock(Half::V6High), OnFailure::Ignore));
    plan.push((MacStep::ClearResolver, OnFailure::Ignore));
    plan.push((MacStep::FlushResolver, OnFailure::Ignore));
    assert(plan@ =~= mac_teardown_steps());
    plan
}

pub open spec fn mac_lan_default_steps() -> Seq<(MacStep, OnFailure)> {
    seq![
        (MacStep::DeleteDefault, OnFailure::Ignore),
        (MacStep::AddDefault, OnFailure::Ignore),
        (MacStep::AddScopedDefault, OnFailure::Ignore),
    ]
}

/// Gives the system its default route back.
pub fn mac_lan_default() -> (plan: Vec<(MacStep, OnFailure)>)
    ensures
        plan@ == mac_lan_default_steps(),
{
    let mut plan: Vec<(MacStep, OnFailure)> = Vec::new();
    plan.push((MacStep::DeleteDefault, OnFailure::Ignore));
    plan.push((MacStep::AddDefault, OnFailure::Ignore));
    plan.push((MacStep::AddScopedDefault, OnFailure::Ignore));
    assert(plan@ =~= mac_lan_default_steps());
    plan
}

/// Puts back what has gone missing while the tunnel is up.
pub open spec fn mac_restore_steps(host_ok: bool, split_ok: bool, v6_ok: bool) -> Seq<(MacStep, OnFailure)> {
    let none = Seq::<(MacStep, OnFailure)>::empty();
    (if host_ok {
        none
    } else {
        mac_bypass_steps()
    }) + (if split_ok {
        none
    } else {
        mac_split_steps()
    }) + (if v6_ok {
        none
    } else {
        mac_block_v6_steps()
    }) + mac_resolver_steps()
}

/// Puts back what has gone missing while the tunnel is up: the server's own
/// route, the tunnel's, or those that block IPv6.
pub fn mac_restore(host_ok: bool, split_ok: bool, v6_ok: bool) -> (plan: Vec<(MacStep, OnFailure)>)
    ensures
        plan@ == mac_restore_steps(host_ok, split_ok, v6_ok),
{
    let mut plan: Vec<(MacStep, OnFailure)> = Vec::new();
    if !host_ok {
        plan.append(&mut mac_bypass());
    }
    if !split_ok {
        plan.append(&mut mac_split());
    }
    if !v6_ok {
        plan.append(&mut mac_block_v6());
    }
    plan.append(&mut mac_resolver());
    assert(plan@ =~= mac_restore_steps(host_ok, split_ok, v6_ok));
    plan
}

// ---------------------------------------------------------------------------
// Windows
// ---------------------------------------------------------------------------

#[derive(Debug, Clone, Copy, PartialEq, Eq, Structural)]
pub enum WindowsStep {
    /// The server's own route.
    DeleteHost,
    AddHost,
    /// Half of all addresses goes through the tunnel, at the device with this
    /// number where it is known.
    AddTunnel(Half, Option<u32>),
    DeleteTunnel(Half, Option<u32>),
    /// Whatever route half of all addresses has.
    DeleteRoute(Half),
    /// Half of all addresses goes nowhere.
    Block(Half),
    Unblock(Half),
    /// The device's resolver is the server.
    SetResolver,
    ClearResolver,
    /// The rule that every name is asked of the server; one that was added
    /// already stays, and only one that was added is removed.
    AddRule,
    RemoveRule,
}

pub const ADD_RULE: &'static str =
    "Add-DnsClientNrptRule -Namespace '.' -NameServers '10.77.0.1' | Out-Null; (Get-DnsClientNrptRule | Where-Object { $_.NameServers -contains '10.77.0.1' } | Select-Object -Last 1).Name";

/// The number of a device as the last two words of a route.
pub open spec fn at_device(index: Option<u32>) -> Seq<Seq<char>> {
    match index {
        Some(index) => seq!["IF"@, decimal(index as nat)],
        None => Seq::empty(),
    }
}

/// `rule` is the name of the rule that was added.
pub open spec fn windows_call(step: WindowsStep, way: Way, rule: Seq<char>) -> Call {
    let server = way.server@;
    let gateway = way.gateway@;
    let device = way.device@;
    let tunnel = TUNNEL_GATEWAY@;
    match step {
        WindowsStep::DeleteHost => call("route"@, seq!["delete"@, server, "mask"@, "255.255.255.255"@, gateway]),
        WindowsStep::AddHost => call(
            "route"@,
            seq!["add"@, server, "mask"@, "255.255.255.255"@, gateway, "metric"@, "1"@],
        ),
        WindowsStep::AddTunnel(half, index) => call(
            "route"@,
            seq!["add"@, half.network(), "mask"@, "128.0.0.0"@, tunnel, "metric"@, "1"@] + at_device(index),
        ),
        WindowsStep::DeleteTunnel(half, index) => call(
            "route"@,
            seq!["delete"@, half.network(), "mask"@, "128.0.0.0"@, tunnel] + at_device(index),
        ),
        WindowsStep::DeleteRoute(half) => call("route"@, seq!["delete"@, half.network(), "mask"@, "128.0.0.0"@]),
        WindowsStep::Block(half) => if half.v6() {
            call(
                "netsh"@,
                seq![
                    "interface"@,
                    "ipv6"@,
                    "add"@,
                    "route"@,
                    half.prefix(),
                    "interface=1"@,
                    "metric=1"@,
                    "store=active"@,
                ],
            )
        } else {
            call(
                "route"@,
                seq!["add"@, half.network(), "mask"@, "128.0.0.0"@, "127.0.0.1"@, "metric"@, "400"@],
            )
        },
        WindowsStep::Unblock(half) => if half.v6() {
            call(
                "netsh"@,
                seq!["interface"@, "ipv6"@, "delete"@, "route"@, half.prefix(), "interface=1"@, "store=active"@],
            )
        } else {
            call("route"@, seq!["delete"@, half.network(), "mask"@, "128.0.0.0"@, "127.0.0.1"@])
        },
        WindowsStep::SetResolver => call(
            "netsh"@,
            seq![
                "interface"@,
                "ipv4"@,
                "set"@,
                "dnsservers"@,
                "name="@ + device,
                "static"@,
                tunnel,
                "validate=no"@,
            ],
        ),
        WindowsStep::ClearResolver => call(
            "netsh"@,
            seq!["interface"@, "ipv4"@, "set"@, "dnsservers"@, "name="@ + device, "source=dhcp"@],
        ),
        WindowsStep::AddRule => call("powershell"@, seq!["-NoProfile"@, "-NonInteractive"@, "-Command"@, ADD_RULE@]),
        WindowsStep::RemoveRule => call(
            "powershell"@,
            seq![
                "-NoProfile"@,
                "-NonInteractive"@,
                "-Command"@,
                "Remove-DnsClientNrptRule -Name '"@ + rule + "' -Force"@,
            ],
        ),
    }
}

/// The command of a step; `rule` is the name of the rule that was added.
pub fn windows_command(step: WindowsStep, way: &Way, rule: &str) -> (out: Command)
    ensures
        out@ == windows_call(step, *way, rule@),
{
    let server: &str = &way.server;
    let gateway: &str = &way.gateway;
    let tunnel: &str = TUNNEL_GATEWAY;
    let named = joined("name=", &way.device);
    let out = match step {
        WindowsStep::DeleteHost => command("route", &["delete", server, "mask", "255.255.255.255", gateway]),
        WindowsStep::AddHost => command("route", &["add", server, "mask", "255.255.255.255", gateway, "metric", "1"]),
        WindowsStep::AddTunnel(half, Some(index)) => {
            let number = string_of(&decimal_chars(index as u64));
            command(
                "route",
                &["add", half.network_text(), "mask", "128.0.0.0", tunnel, "metric", "1", "IF", &number],
            )
        },
        WindowsStep::AddTunnel(half, None) => command(
            "route",
            &["add", half.network_text(), "mask", "128.0.0.0", tunnel, "metric", "1"],
        ),
        WindowsStep::DeleteTunnel(half, Some(index)) => {
            let number = string_of(&decimal_chars(index as u64));
            command("route", &["delete", half.network_text(), "mask", "128.0.0.0", tunnel, "IF", &number])
        },
        WindowsStep::DeleteTunnel(half, None) => command(
            "route",
            &["delete", half.network_text(), "mask", "128.0.0.0", tunnel],
        ),
        WindowsStep::DeleteRoute(half) => command("route", &["delete", half.network_text(), "mask", "128.0.0.0"]),
        WindowsStep::Block(half) => {
            if half.is_v6() {
                command(
                    "netsh",
                    &[
                        "interface",
                        "ipv6",
                        "add",
                        "route",
                        half.prefix_text(),
                        "interface=1",
                        "metric=1",
                        "store=active",
                    ],
                )
            } else {
                command("route", &["add", half.network_text(), "mask", "128.0.0.0", "127.0.0.1", "metric", "400"])
            }
        },
        WindowsStep::Unblock(half) => {
            if half.is_v6() {
                command(
                    "netsh",
                    &["interface", "ipv6", "delete", "route", half.prefix_text(), "interface=1", "store=active"],
                )
            } else {
                command("route", &["delete", half.network_text(), "mask", "128.0.0.0", "127.0.0.1"])
            }
        },
        WindowsStep::SetResolver => command(
            "netsh",
            &["interface", "ipv4", "set", "dnsservers", &named, "static", tunnel, "validate=no"],
        ),
        WindowsStep::ClearResolver => command(
            "netsh",
            &["interface", "ipv4", "set", "dnsservers", &named, "source=dhcp"],
        ),
        WindowsStep::AddRule => command("powershell", &["-NoProfile", "-NonInteractive", "-Command", ADD_RULE]),
        WindowsStep::RemoveRule => {
            let script = joined(&joined("Remove-DnsClientNrptRule -Name '", rule), "' -Force");
            command("powershell", &["-NoProfile", "-NonInteractive", "-Command", &script])
        },
    };
    assert(out@.args =~= windows_call(step, *way, rule@).args);
    out
}

pub open spec fn windows_install_steps(index: Option<u32>) -> Seq<(WindowsStep, OnFailure)> {
    seq![
        (WindowsStep::DeleteHost, OnFailure::Ignore),
        (WindowsStep::AddHost, OnFailure::Stop),
        (WindowsStep::DeleteTunnel(Half::V4Low, index), OnFailure::Ignore),
        (WindowsStep::AddTunnel(Half::V4Low, index), OnFailure::Stop),
        (WindowsStep::DeleteTunnel(Half::V4High, index), OnFailure::Ignore),
        (WindowsStep::AddTunnel(Half::V4High, index), OnFailure::Stop),
        (WindowsStep::Block(Half::V6Low), OnFailure::Ignore),
        (WindowsStep::Block(Half::V6High), OnFailure::Ignore),
        (WindowsStep::SetResolver, OnFailure::Ignore),
        (WindowsStep::AddRule, OnFailure::Ignore),
    ]
}

/// Sends all traffic but that to the server itself through the tunnel.
pub fn windows_install(index: Option<u32>) -> (plan: Vec<(WindowsStep, OnFailure)>)
    ensures
        plan@ == windows_install_steps(index),
{
    let mut plan: Vec<(WindowsStep, OnFailure)> = Vec::new();
    plan.push((WindowsStep::DeleteHost, OnFailure::Ignore));
    plan.push((WindowsStep::AddHost, OnFailure::Stop));
    plan.push((WindowsStep::DeleteTunnel(Half::V4Low, index), OnFailure::Ignore));
    plan.push((WindowsStep::AddTunnel(Half::V4Low, index), OnFailure::Stop));
    plan.push((WindowsStep::DeleteTunnel(Half::V4High, index), OnFailure::Ignore));
    plan.push((WindowsStep::AddTunnel(Half::V4High, index), OnFailure::Stop));
    plan.push((WindowsStep::Block(Half::V6Low), OnFailure::Ignore));
    plan.push((WindowsStep::Block(Half::V6High), OnFailure::Ignore));
    plan.push((WindowsStep::SetResolver, OnFailure::Ignore));
    plan.push((WindowsStep::AddRule, OnFailure::Ignore));
    assert(plan@ =~= windows_install_steps(index));
    plan
}

pub open spec fn windows_restore_steps(index: Option<u32>) -> Seq<(WindowsStep, OnFailure)> {
    seq![
        (WindowsStep::DeleteHost, OnFailure::Ignore),
        (WindowsStep::AddHost, OnFailure::Ignore),
        (WindowsStep::DeleteTunnel(Half::V4Low, index), OnFailure::Ignore),
        (WindowsStep::AddTunnel(Half::V4Low, index), OnFailure::Skip(2)),
        (WindowsStep::DeleteTunnel(Half::V4High, index), OnFailure::Ignore),
        (WindowsStep::AddTunnel(Half::V4High, index), OnFailure::Ignore),
        (WindowsStep::Block(Half::V6Low), OnFailure::Ignore),
        (WindowsStep::Block(Half::V6High), OnFailure::Ignore),
        (WindowsStep::SetResolver, OnFailure::Ignore),
        (WindowsStep::AddRule, OnFailure::Ignore),
    ]
}

/// Puts back what has gone missing while the tunnel is up.
pub fn windows_restore(index: Option<u32>) -> (plan: Vec<(WindowsStep, OnFailure)>)
    ensures
        plan@ == windows_restore_steps(index),
{
    let mut plan: Vec<(WindowsStep, OnFailure)> = Vec::new();
    plan.push((WindowsStep::DeleteHost, OnFailure::Ignore));
    plan.push((WindowsStep::AddHost, OnFailure::Ignore));
    plan.push((WindowsStep::DeleteTunnel(Half::V4Low, index), OnFailure::Ignore));
    plan.push((WindowsStep::AddTunnel(Half::V4Low, index), OnFailure::Skip(2)));
    plan.push((WindowsStep::DeleteTunnel(Half::V4High, index), OnFailure::Ignore));
    plan.push((WindowsStep::AddTunnel(Half::V4High, index), OnFailure::Ignore));
    plan.push((WindowsStep::Block(Half::V6Low), OnFailure::Ignore));
    plan.push((WindowsStep::Block(Half::V6High), OnFailure::Ignore));
    plan.push((WindowsStep::SetResolver, OnFailure::Ignore));
    plan.push((WindowsStep::AddRule, OnFailure::Ignore));
    assert(plan@ =~= windows_restore_steps(index));
    plan
}

pub open spec fn windows_teardown_steps() -> Seq<(WindowsStep, OnFailure)> {
    seq![
        (WindowsStep::RemoveRule, OnFailure::Ignore),
        (WindowsStep::ClearResolver, OnFailure::Ignore),
        (WindowsStep::Unblock(Half::V6Low), OnFailure::Ignore),
        (WindowsStep::Unblock(Half::V6High), OnFailure::Ignore),
        (WindowsStep::DeleteTunnel(Half::V4High, None), OnFailure::Ignore),
        (WindowsStep::DeleteTunnel(Half::V4Low, None), OnFailure::Ignore),
        (WindowsStep::DeleteHost, OnFailure::Ignore),
    ]
}

/// Takes the tunnel down.
pub fn windows_teardown() -> (plan: Vec<(WindowsStep, OnFailure)>)
    ensures
        plan@ == windows_teardown_steps(),
{
    let mut plan: Vec<(WindowsStep, OnFailure)> = Vec::new();
    plan.push((WindowsStep::RemoveRule, OnFailure::Ignore));
    plan.push((WindowsStep::ClearResolver, OnFailure::Ignore));
    plan.push((WindowsStep::Unblock(Half::V6Low), OnFailure::Ignore));
    plan.push((WindowsStep::Unblock(Half::V6High), OnFailure::Ignore));
    plan.push((WindowsStep::DeleteTunnel(Half::V4High, None), OnFailure::Ignore));
    plan.push((WindowsStep::DeleteTunnel(Half::V4Low, None), OnFailure::Ignore));
    plan.push((WindowsStep::DeleteHost, OnFailure::Ignore));
    assert(plan@ =~= windows_teardown_steps());
    plan
}

pub open spec fn windows_arm_steps() -> Seq<(WindowsStep, OnFailure)> {
    seq![
        (WindowsStep::DeleteHost, OnFailure::Ignore),
        (WindowsStep::AddHost, OnFailure::Stop),
        (WindowsStep::DeleteRoute(Half::V4Low), OnFailure::Ignore),
        (WindowsStep::DeleteRoute(Half::V4High), OnFailure::Ignore),
        (WindowsStep::Block(Half::V4Low), OnFailure::Stop),
        (WindowsStep::Block(Half::V4High), OnFailure::Stop),
        (WindowsStep::Block(Half::V6Low), OnFailure::Ignore),
        (WindowsStep::Block(Half::V6High), OnFailure::Ignore),
        (WindowsStep::AddRule, OnFailure::Ignore),
    ]
}

/// Switches the kill switch on: only the server stays reachable.
pub fn windows_arm() -> (plan: Vec<(WindowsStep, OnFailure)>)
    ensures
        plan@ == windows_arm_steps(),
{
    let mut plan: Vec<(WindowsStep, OnFailure)> = Vec::new();
    plan.push((WindowsStep::DeleteHost, OnFailure::Ignore));
    plan.push((WindowsStep::AddHost, OnFailure::Stop));
    plan.push((WindowsStep::DeleteRoute(Half::V4Low), OnFailure::Ignore));
    plan.push((WindowsStep::DeleteRoute(Half::V4High), OnFailure::Ignore));
    plan.push((WindowsStep::Block(Half::V4Low), OnFailure::Stop));
    plan.push((WindowsStep::Block(Half::V4High), OnFailure::Stop));
    plan.push((WindowsStep::Block(Half::V6Low), OnFailure::Ignore));
    plan.push((WindowsStep::Block(Half::V6High), OnFailure::Ignore));
    plan.push((WindowsStep::AddRule, OnFailure::Ignore));
    assert(plan@ =~= windows_arm_steps());
    plan
}

pub open spec fn windows_rearm_steps() -> Seq<(WindowsStep, OnFailure)> {
    seq![
        (WindowsStep::DeleteHost, OnFailure::Ignore),
        (WindowsStep::AddHost, OnFailure::Ignore),
        (WindowsStep::DeleteRoute(Half::V4Low), OnFailure::Ignore),
        (WindowsStep::DeleteRoute(Half::V4High), OnFailure::Ignore),
        (WindowsStep::Block(Half::V4Low), OnFailure::Skip(1)),
        (WindowsStep::Block(Half::V4High), OnFailure::Ignore),
        (WindowsStep::Block(Half::V6Low), OnFailure::Ignore),
        (WindowsStep::Block(Half::V6High), OnFailure::Ignore),
    ]
}

/// Puts the kill switch back in place of a tunnel that has gone.
pub fn windows_rearm() -> (plan: Vec<(WindowsStep, OnFailure)>)
    ensures
        plan@ == windows_rearm_steps(),
{
    let mut plan: Vec<(WindowsStep, OnFailure)> = Vec::new();
    plan.push((WindowsStep::DeleteHost, OnFailure::Ignore));
    plan.push((WindowsStep::AddHost, OnFailure::Ignore));
    plan.push((WindowsStep::DeleteRoute(Half::V4Low), OnFailure::Ignore));
    plan.push((WindowsStep::DeleteRoute(Half::V4High), OnFailure::Ignore));
    plan.push((WindowsStep::Block(Half::V4Low), OnFailure::Skip(1)));
    plan.push((WindowsStep::Block(Half::V4High), OnFailure::Ignore));
    plan.push((WindowsStep::Block(Half::V6Low), OnFailure::Ignore));
    plan.push((WindowsStep::Block(Half::V6High), OnFailure::Ignore));
    assert(plan@ =~= windows_rearm_steps());
    plan
}

pub open spec fn windows_ensure_steps() -> Seq<(WindowsStep, OnFailure)> {
    seq![
        (WindowsStep::DeleteHost, OnFailure::Ignore),
        (WindowsStep::AddHost, OnFailure::Ignore),
        (WindowsStep::DeleteRoute(Half::V4Low), OnFailure::Ignore),
        (WindowsStep::DeleteRoute(Half::V4High), OnFailure::Ignore),
        (WindowsStep::Block(Half::V4Low), OnFailure::Skip(1)),
        (WindowsStep::Block(Half::V4High), OnFailure::Ignore),
        (WindowsStep::Block(Half::V6Low), OnFailure::Ignore),
        (WindowsStep::Block(Half::V6High), OnFailure::Ignore),
        (WindowsStep::AddRule, OnFailure::Ignore),
    ]
}

/// Puts back what has gone missing of the kill switch.
pub fn windows_ensure() -> (plan: Vec<(WindowsStep, OnFailure)>)
    ensures
        plan@ == windows_ensure_steps(),
{
    let mut plan: Vec<(WindowsStep, OnFailure)> = Vec::new();
    plan.push((WindowsStep::DeleteHost, OnFailure::Ignore));
    plan.push((WindowsStep::AddHost, OnFailure::Ignore));
    plan.push((WindowsStep::DeleteRoute(Half::V4Low), OnFailure::Ignore));
    plan.push((WindowsStep::DeleteRoute(Half::V4High), OnFailure::Ignore));
    plan.push((WindowsStep::Block(Half::V4Low), OnFailure::Skip(1)));
    plan.push((WindowsStep::Block(Half::V4High), OnFailure::Ignore));
    plan.push((WindowsStep::Block(Half::V6Low), OnFailure::Ignore));
    plan.push((WindowsStep::Block(Half::V6High), OnFailure::Ignore));
    plan.push((WindowsStep::AddRule, OnFailure::Ignore));
    assert(plan@ =~= windows_ensure_steps());
    plan
}

pub open spec fn windows_disarm_steps() -> Seq<(WindowsStep, OnFailure)> {
    seq![
        (WindowsStep::Unblock(Half::V4Low), OnFailure::Ignore),
        (WindowsStep::Unblock(Half::V4High), OnFailure::Ignore),
        (WindowsStep::Unblock(Half::V6Low), OnFailure::Ignore),
        (WindowsStep::Unblock(Half::V6High), OnFailure::Ignore),
        (WindowsStep::DeleteHost, OnFailure::Ignore),
        (WindowsStep::RemoveRule, OnFailure::Ignore),
    ]
}

/// Switches the kill switch off.
pub fn windows_disarm() -> (plan: Vec<(WindowsStep, OnFailure)>)
    ensures
        plan@ == windows_disarm_steps(),
{
    let mut plan: Vec<(WindowsStep, OnFailure)> = Vec::new();
    plan.push((WindowsStep::Unblock(Half::V4Low), OnFailure::Ignore));
    plan.push((WindowsStep::Unblock(Half::V4High), OnFailure::Ignore));
    plan.push((WindowsStep::Unblock(Half::V6Low), OnFailure::Ignore));
    plan.push((WindowsStep::Unblock(Half::V6High), OnFailure::Ignore));
    plan.push((WindowsStep::DeleteHost, OnFailure::Ignore));
    plan.push((WindowsStep::RemoveRule, OnFailure::Ignore));
    assert(plan@ =~= windows_disarm_steps());
    plan
}

// ---------------------------------------------------------------------------
// Forwarding on the server
// ---------------------------------------------------------------------------

/// A rule of the server's firewall.
#[derive(Debug, Clone, Copy, PartialEq, Eq, Structural)]
pub enum ForwardRule {
    /// What the network sends out goes by the server's own address.
    Masquerade,
    FromNetwork,
    ToNetwork,
    /// Connections through the server keep to the size that fits the path.
    ClampSegments,
}

/// `-A` adds a rule, `-C` asks whether it is there.
pub open spec fn rule_call(rule: ForwardRule, ask: bool, network: Seq<char>) -> Call {
    let flag = if ask {
        "-C"@
    } else {
        "-A"@
    };
    match rule {
        ForwardRule::Masquerade => call(
            "iptables"@,
            seq!["-t"@, "nat"@, flag, "POSTROUTING"@, "-s"@, network, "-j"@, "MASQUERADE"@],
        ),
        ForwardRule::FromNetwork => call("iptables"@, seq![flag, "FORWARD"@, "-s"@, network, "-j"@, "ACCEPT"@]),
        ForwardRule::ToNetwork => call("iptables"@, seq![flag, "FORWARD"@, "-d"@, network, "-j"@, "ACCEPT"@]),
        ForwardRule::ClampSegments => call(
            "iptables"@,
            seq![
                "-t"@,
                "mangle"@,
                flag,
                "FORWARD"@,
                "-p"@,
                "tcp"@,
                "--tcp-flags"@,
                "SYN,RST"@,
                "SYN"@,
                "-j"@,
                "TCPMSS"@,
                "--clamp-mss-to-pmtu"@,
            ],
        ),
    }
}

/// The command that asks for a rule or adds it.
pub fn rule_command(rule: ForwardRule, ask: bool, network: &str) -> (out: Command)
    ensures
        out@ == rule_call(rule, ask, network@),
{
    let flag: &'static str = if ask {
        "-C"
    } else {
        "-A"
    };
    let out = match rule {
        ForwardRule::Masquerade => command(
            "iptables",
            &["-t", "nat", flag, "POSTROUTING", "-s", network, "-j", "MASQUERADE"],
        ),
        ForwardRule::FromNetwork => command("iptables", &[flag, "FORWARD", "-s", network, "-j", "ACCEPT"]),
        ForwardRule::ToNetwork => command("iptables", &[flag, "FORWARD", "-d", network, "-j", "ACCEPT"]),
        ForwardRule::ClampSegments => command(
            "iptables",
            &[
                "-t",
                "mangle",
                flag,
                "FORWARD",
                "-p",
                "tcp",
                "--tcp-flags",
                "SYN,RST",
                "SYN",
                "-j",
                "TCPMSS",
                "--clamp-mss-to-pmtu",
            ],
        ),
    };
    assert(out@.args =~= rule_call(rule, ask, network@).args);
    out
}

/// The rules that let the network reach the Internet. One that is there
/// already is not added again.
pub fn forwarding_rules() -> (rules: [ForwardRule; 4])
    ensures
        rules@ == seq![
            ForwardRule::Masquerade,
            ForwardRule::FromNetwork,
            ForwardRule::ToNetwork,
            ForwardRule::ClampSegments,
        ],
{
    let rules = [
        ForwardRule::Masquerade,
        ForwardRule::FromNetwork,
        ForwardRule::ToNetwork,
        ForwardRule::ClampSegments,
    ];
    assert(rules@ =~= seq![
        ForwardRule::Masquerade,
        ForwardRule::FromNetwork,
        ForwardRule::ToNetwork,
        ForwardRule::ClampSegments,
    ]);
    rules
}

/// Whether the system says that it forwards.
pub fn forwarding_is_on(value: &str) -> (on: bool)
    ensures
        on == (trim(value@) == "1"@),
{
    let chars = chars_of(value);
    spells(trimmed(&chars), "1")
}

} // verus!
