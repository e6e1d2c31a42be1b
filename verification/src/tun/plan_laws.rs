//! What the plans for the routes come to when their commands go well: where
//! each half of all addresses goes, whether the server keeps its own route,
//! and who is asked for names.

use vstd::prelude::*;

use super::routing::{
    linux_arm, linux_disarm, linux_ensure, linux_install, linux_rearm, linux_restore, linux_teardown, mac_arm,
    mac_install, mac_lan_default, mac_rearm, mac_restore, mac_teardown, windows_arm, windows_disarm, windows_ensure,
    windows_install, windows_rearm, windows_restore, windows_teardown, Half, LinuxStep, MacStep, OnFailure,
    WindowsStep,
};

verus! {

/// The routes of a system, as far as the plans change them.
pub ghost struct Routes {
    /// The server's own route, and the one for the device alone.
    pub own: bool,
    pub scoped: bool,
    /// The halves that go into the tunnel, and those that go nowhere.
    pub tunnel: Set<Half>,
    pub blocked: Set<Half>,
    /// The tunnel's resolver, and whether it is asked for all names, before
    /// any other.
    pub resolver: bool,
    pub all_names: bool,
    pub first: bool,
    /// The default routes by the gateway.
    pub default: bool,
    pub scoped_default: bool,
}

impl Routes {
    /// All of IPv4 goes into the tunnel, all of IPv6 goes nowhere, and the
    /// server is reached by its own route.
    pub open spec fn tunnelled(self) -> bool {
        &&& self.own
        &&& self.tunnel.contains(Half::V4Low) && self.tunnel.contains(Half::V4High)
        &&& self.blocked.contains(Half::V6Low) && self.blocked.contains(Half::V6High)
    }

    /// Nothing but the server is reached.
    pub open spec fn shut(self) -> bool {
        &&& self.own
        &&& !self.tunnel.contains(Half::V4Low) && !self.tunnel.contains(Half::V4High)
        &&& self.blocked.contains(Half::V4Low) && self.blocked.contains(Half::V4High)
        &&& self.blocked.contains(Half::V6Low) && self.blocked.contains(Half::V6High)
    }

    /// No half goes anywhere but where it went before.
    pub open spec fn open_again(self) -> bool {
        &&& !self.own && !self.scoped
        &&& forall|half: Half| !#[trigger] self.tunnel.contains(half)
        &&& forall|half: Half| !#[trigger] self.blocked.contains(half)
    }
}

/// On Linux a route takes the place of one to the same addresses, and one is
/// removed where it goes as the command says.
pub open spec fn linux_step(step: LinuxStep, r: Routes) -> Routes {
    match step {
        LinuxStep::Bypass => Routes { own: true, ..r },
        LinuxStep::Unbypass => Routes { own: false, ..r },
        LinuxStep::ToDevice(half) => Routes { tunnel: r.tunnel.insert(half), blocked: r.blocked.remove(half), ..r },
        LinuxStep::FromDevice(half) => Routes { tunnel: r.tunnel.remove(half), ..r },
        LinuxStep::Block(half) => Routes { blocked: r.blocked.insert(half), tunnel: r.tunnel.remove(half), ..r },
        LinuxStep::Unblock(half) => Routes { blocked: r.blocked.remove(half), ..r },
        LinuxStep::Resolver => Routes { resolver: true, ..r },
        LinuxStep::ResolveAll => Routes { all_names: true, ..r },
        LinuxStep::ResolveFirst => Routes { first: true, ..r },
        LinuxStep::RevertResolver => Routes { resolver: false, all_names: false, first: false, ..r },
    }
}

/// On macOS a route is added only where there is none to the same addresses.
pub open spec fn mac_step(step: MacStep, r: Routes) -> Routes {
    match step {
        MacStep::DeleteScopedHost => Routes { scoped: false, ..r },
        MacStep::DeleteHost => Routes { own: false, ..r },
        MacStep::AddHost => Routes { own: true, ..r },
        MacStep::AddScopedHost => Routes { scoped: true, ..r },
        MacStep::AddTunnel(half) => if r.blocked.contains(half) {
            r
        } else {
            Routes { tunnel: r.tunnel.insert(half), ..r }
        },
        MacStep::DeleteTunnel(half) => Routes { tunnel: r.tunnel.remove(half), ..r },
        MacStep::DeleteRoute(half) => Routes { tunnel: r.tunnel.remove(half), blocked: r.blocked.remove(half), ..r },
        MacStep::Block(half) => if r.tunnel.contains(half) {
            r
        } else {
            Routes { blocked: r.blocked.insert(half), ..r }
        },
        MacStep::Unblock(half) => Routes { blocked: r.blocked.remove(half), ..r },
        MacStep::SetResolver => Routes { resolver: true, ..r },
        MacStep::ClearResolver => Routes { resolver: false, ..r },
        MacStep::FlushResolver => r,
        MacStep::DeleteDefault => Routes { default: false, ..r },
        MacStep::AddDefault => Routes { default: true, ..r },
        MacStep::AddScopedDefault => Routes { scoped_default: true, ..r },
    }
}

/// On Windows routes to the same addresses stand beside each other. The rule
/// for names counts as asking the server first.
pub open spec fn windows_step(step: WindowsStep, r: Routes) -> Routes {
    match step {
        WindowsStep::DeleteHost => Routes { own: false, ..r },
        WindowsStep::AddHost => Routes { own: true, ..r },
        WindowsStep::AddTunnel(half, _) => Routes { tunnel: r.tunnel.insert(half), ..r },
        WindowsStep::DeleteTunnel(half, _) => Routes { tunnel: r.tunnel.remove(half), ..r },
        WindowsStep::DeleteRoute(half) => Routes {
            tunnel: r.tunnel.remove(half),
            blocked: r.blocked.remove(half),
            ..r
        },
        WindowsStep::Block(half) => Routes { blocked: r.blocked.insert(half), ..r },
        WindowsStep::Unblock(half) => Routes { blocked: r.blocked.remove(half), ..r },
        WindowsStep::SetResolver => Routes { resolver: true, ..r },
        WindowsStep::ClearResolver => Routes { resolver: false, ..r },
        WindowsStep::AddRule => Routes { first: true, ..r },
        WindowsStep::RemoveRule => Routes { first: false, ..r },
    }
}

/// The routes after the steps of a plan from the `i`th on.
pub open spec fn after_linux(plan: Seq<(LinuxStep, OnFailure)>, i: int, r: Routes) -> Routes
    decreases plan.len() - i,
{
    if i < 0 || i >= plan.len() {
        r
    } else {
        after_linux(plan, i + 1, linux_step(plan[i].0, r))
    }
}

pub open spec fn after_mac(plan: Seq<(MacStep, OnFailure)>, i: int, r: Routes) -> Routes
    decreases plan.len() - i,
{
    if i < 0 || i >= plan.len() {
        r
    } else {
        after_mac(plan, i + 1, mac_step(plan[i].0, r))
    }
}

pub open spec fn after_windows(plan: Seq<(WindowsStep, OnFailure)>, i: int, r: Routes) -> Routes
    decreases plan.len() - i,
{
    if i < 0 || i >= plan.len() {
        r
    } else {
        after_windows(plan, i + 1, windows_step(plan[i].0, r))
    }
}

/// Whether a plan goes on whatever fails.
pub open spec fn goes_on<S>(plan: Seq<(S, OnFailure)>) -> bool {
    forall|i: int| 0 <= i < plan.len() ==> (#[trigger] plan[i]).1 != OnFailure::Stop
}

/// On Linux the tunnel is up after it was installed or restored, whatever was
/// there before, and the server is asked for all names.
pub proof fn law_linux_tunnel(
    r: Routes,
    install: Vec<(LinuxStep, OnFailure)>,
    restore: Vec<(LinuxStep, OnFailure)>,
)
    requires
        call_ensures(linux_install, (), install),
        call_ensures(linux_restore, (), restore),
    ensures
        ({
            let up = after_linux(install@, 0, r);
            let again = after_linux(restore@, 0, r);
            &&& up.tunnelled() && up.resolver && up.all_names && up.first
            &&& again.tunnelled() && again.resolver && again.all_names && again.first
        }),
        goes_on(restore@),
{
    reveal_with_fuel(after_linux, 9);
}

/// On Linux the kill switch leaves nothing but the server reachable, whatever
/// was there before: when it is switched on, put back or kept.
pub proof fn law_linux_kill_switch(
    r: Routes,
    arm: Vec<(LinuxStep, OnFailure)>,
    rearm: Vec<(LinuxStep, OnFailure)>,
    ensure: Vec<(LinuxStep, OnFailure)>,
)
    requires
        call_ensures(linux_arm, (), arm),
        call_ensures(linux_rearm, (), rearm),
        call_ensures(linux_ensure, (), ensure),
    ensures
        ({
            let on = after_linux(arm@, 0, r);
            let kept = after_linux(ensure@, 0, r);
            &&& on.shut() && on.resolver && on.all_names && on.first
            &&& kept.shut() && kept.resolver && kept.all_names && kept.first
            &&& after_linux(rearm@, 0, r).shut()
        }),
        arm@[0] == (LinuxStep::Bypass, OnFailure::Stop),
        goes_on(rearm@) && goes_on(ensure@),
{
    reveal_with_fuel(after_linux, 9);
}

/// On Linux taking the tunnel down undoes installing it, and switching the
/// kill switch off undoes switching it on.
pub proof fn law_linux_all_is_undone(
    r: Routes,
    install: Vec<(LinuxStep, OnFailure)>,
    teardown: Vec<(LinuxStep, OnFailure)>,
    arm: Vec<(LinuxStep, OnFailure)>,
    disarm: Vec<(LinuxStep, OnFailure)>,
)
    requires
        call_ensures(linux_install, (), install),
        call_ensures(linux_teardown, (), teardown),
        call_ensures(linux_arm, (), arm),
        call_ensures(linux_disarm, (), disarm),
        r.open_again(),
    ensures
        ({
            let down = after_linux(teardown@, 0, after_linux(install@, 0, r));
            let off = after_linux(disarm@, 0, after_linux(arm@, 0, r));
            &&& down.open_again() && !down.resolver && !down.all_names && !down.first
            &&& off.open_again() && !off.resolver && !off.all_names && !off.first
        }),
        goes_on(teardown@) && goes_on(disarm@),
{
    reveal_with_fuel(after_linux, 9);
}

/// On macOS the tunnel is up after it was installed, whatever was there
/// before.
pub proof fn law_mac_tunnel(r: Routes, install: Vec<(MacStep, OnFailure)>)
    requires
        call_ensures(mac_install, (), install),
        !r.tunnel.contains(Half::V6Low) && !r.tunnel.contains(Half::V6High),
    ensures
        after_mac(install@, 0, r).tunnelled(),
        after_mac(install@, 0, r).scoped,
        after_mac(install@, 0, r).resolver,
{
    reveal_with_fuel(after_mac, 19);
}

/// On macOS restoring puts back what is said to be missing.
pub proof fn law_mac_restore(
    r: Routes,
    host_ok: bool,
    split_ok: bool,
    v6_ok: bool,
    restore: Vec<(MacStep, OnFailure)>,
)
    requires
        call_ensures(mac_restore, (host_ok, split_ok, v6_ok), restore),
        host_ok ==> r.own,
        split_ok ==> r.tunnel.contains(Half::V4Low) && r.tunnel.contains(Half::V4High),
        v6_ok ==> r.blocked.contains(Half::V6Low) && r.blocked.contains(Half::V6High),
        !r.blocked.contains(Half::V4Low) && !r.blocked.contains(Half::V4High),
        !r.tunnel.contains(Half::V6Low) && !r.tunnel.contains(Half::V6High),
    ensures
        after_mac(restore@, 0, r).tunnelled(),
        after_mac(restore@, 0, r).resolver,
        host_ok && split_ok && v6_ok ==> after_mac(restore@, 0, r) == (Routes { resolver: true, ..r }),
        goes_on(restore@),
{
    reveal_with_fuel(after_mac, 18);
}

/// On macOS the kill switch leaves nothing but the server reachable, whatever
/// was there before.
pub proof fn law_mac_kill_switch(r: Routes, arm: Vec<(MacStep, OnFailure)>, rearm: Vec<(MacStep, OnFailure)>)
    requires
        call_ensures(mac_arm, (), arm),
        call_ensures(mac_rearm, (), rearm),
        !r.tunnel.contains(Half::V6Low) && !r.tunnel.contains(Half::V6High),
    ensures
        after_mac(arm@, 0, r).shut() && after_mac(arm@, 0, r).scoped && after_mac(arm@, 0, r).resolver,
        after_mac(rearm@, 0, r).shut() && after_mac(rearm@, 0, r).scoped && after_mac(rearm@, 0, r).resolver,
        arm@[2] == (MacStep::AddHost, OnFailure::Stop),
        goes_on(rearm@),
{
    reveal_with_fuel(after_mac, 15);
}

/// On macOS taking down leaves no route of the tunnel or of the kill switch,
/// and the default route can be put back.
pub proof fn law_mac_all_is_undone(r: Routes, teardown: Vec<(MacStep, OnFailure)>, lan: Vec<(MacStep, OnFailure)>)
    requires
        call_ensures(mac_teardown, (), teardown),
        call_ensures(mac_lan_default, (), lan),
    ensures
        after_mac(teardown@, 0, r).open_again(),
        !after_mac(teardown@, 0, r).resolver,
        after_mac(lan@, 0, r) == (Routes { default: true, scoped_default: true, ..r }),
        goes_on(teardown@) && goes_on(lan@),
{
    reveal_with_fuel(after_mac, 13);
    let down = after_mac(teardown@, 0, r);
    assert forall|half: Half| !#[trigger] down.tunnel.contains(half) by {
        match half {
            Half::V4Low => {},
            Half::V4High => {},
            Half::V6Low => {},
            Half::V6High => {},
        }
    }
    assert forall|half: Half| !#[trigger] down.blocked.contains(half) by {
        match half {
            Half::V4Low => {},
            Half::V4High => {},
            Half::V6Low => {},
            Half::V6High => {},
        }
    }
}

/// On Windows the tunnel is up after it was installed or restored, at the
/// device that was named, and the server is asked for all names.
pub proof fn law_windows_tunnel(
    r: Routes,
    index: Option<u32>,
    install: Vec<(WindowsStep, OnFailure)>,
    restore: Vec<(WindowsStep, OnFailure)>,
    i: int,
)
    requires
        call_ensures(windows_install, (index,), install),
        call_ensures(windows_restore, (index,), restore),
    ensures
        ({
            let up = after_windows(install@, 0, r);
            let again = after_windows(restore@, 0, r);
            &&& up.tunnelled() && up.resolver && up.first
            &&& again.tunnelled() && again.resolver && again.first
        }),
        0 <= i < install@.len() ==> (install@[i].0 matches WindowsStep::AddTunnel(_, at) ==> at == index),
        0 <= i < restore@.len() ==> (restore@[i].0 matches WindowsStep::AddTunnel(_, at) ==> at == index),
        goes_on(restore@),
{
    reveal_with_fuel(after_windows, 11);
}

/// On Windows the kill switch blocks all but the server's own route, whatever
/// was there before.
pub proof fn law_windows_kill_switch(
    r: Routes,
    arm: Vec<(WindowsStep, OnFailure)>,
    rearm: Vec<(WindowsStep, OnFailure)>,
    ensure: Vec<(WindowsStep, OnFailure)>,
)
    requires
        call_ensures(windows_arm, (), arm),
        call_ensures(windows_rearm, (), rearm),
        call_ensures(windows_ensure, (), ensure),
    ensures
        after_windows(arm@, 0, r).shut() && after_windows(arm@, 0, r).first,
        after_windows(rearm@, 0, r).shut(),
        after_windows(ensure@, 0, r).shut() && after_windows(ensure@, 0, r).first,
        arm@[1] == (WindowsStep::AddHost, OnFailure::Stop),
        arm@[4] == (WindowsStep::Block(Half::V4Low), OnFailure::Stop),
        arm@[5] == (WindowsStep::Block(Half::V4High), OnFailure::Stop),
        goes_on(rearm@) && goes_on(ensure@),
{
    reveal_with_fuel(after_windows, 10);
}

/// On Windows taking the tunnel down undoes installing it, and switching the
/// kill switch off undoes switching it on.
pub proof fn law_windows_all_is_undone(
    r: Routes,
    index: Option<u32>,
    install: Vec<(WindowsStep, OnFailure)>,
    teardown: Vec<(WindowsStep, OnFailure)>,
    arm: Vec<(WindowsStep, OnFailure)>,
    disarm: Vec<(WindowsStep, OnFailure)>,
)
    requires
        call_ensures(windows_install, (index,), install),
        call_ensures(windows_teardown, (), teardown),
        call_ensures(windows_arm, (), arm),
        call_ensures(windows_disarm, (), disarm),
        r.open_again(),
    ensures
        ({
            let down = after_windows(teardown@, 0, after_windows(install@, 0, r));
            let off = after_windows(disarm@, 0, after_windows(arm@, 0, r));
            &&& down.open_again() && !down.resolver && !down.first
            &&& off.open_again() && !off.first
        }),
        goes_on(teardown@) && goes_on(disarm@),
{
    reveal_with_fuel(after_windows, 11);
}

} // verus!
