//! What the plans for the routes have in common on every system.

use vstd::prelude::*;

use super::routing::{
    linux_arm_steps, linux_disarm_steps, linux_ensure_steps, linux_install_steps, linux_rearm_steps,
    linux_restore_steps, linux_teardown_steps, mac_arm_steps, mac_install_steps, mac_rearm_steps, mac_teardown_steps,
    windows_arm_steps, windows_disarm_steps, windows_ensure_steps, windows_install_steps, windows_rearm_steps,
    windows_restore_steps, windows_teardown_steps, Half, LinuxStep, MacStep, OnFailure, WindowsStep,
};

verus! {

/// Whether a plan takes a step.
pub open spec fn takes<S>(plan: Seq<(S, OnFailure)>, step: S) -> bool {
    exists|i: int| 0 <= i < plan.len() && (#[trigger] plan[i]).0 == step
}

/// Whether the plan is given up where the step fails.
pub open spec fn insists<S>(plan: Seq<(S, OnFailure)>, step: S) -> bool {
    exists|i: int| 0 <= i < plan.len() && #[trigger] plan[i] == (step, OnFailure::Stop)
}

/// With the tunnel up, and with the kill switch on, IPv6 goes nowhere.
pub proof fn law_ipv6_is_blocked(half: Half, index: Option<u32>)
    requires
        half.v6(),
    ensures
        takes(linux_install_steps(), LinuxStep::Block(half)),
        takes(linux_restore_steps(), LinuxStep::Block(half)),
        takes(linux_arm_steps(), LinuxStep::Block(half)),
        takes(linux_rearm_steps(), LinuxStep::Block(half)),
        takes(linux_ensure_steps(), LinuxStep::Block(half)),
        takes(mac_install_steps(), MacStep::Block(half)),
        takes(mac_arm_steps(), MacStep::Block(half)),
        takes(mac_rearm_steps(), MacStep::Block(half)),
        takes(windows_install_steps(index), WindowsStep::Block(half)),
        takes(windows_restore_steps(index), WindowsStep::Block(half)),
        takes(windows_arm_steps(), WindowsStep::Block(half)),
        takes(windows_rearm_steps(), WindowsStep::Block(half)),
        takes(windows_ensure_steps(), WindowsStep::Block(half)),
{
    let low: int = if half == Half::V6Low {
        0
    } else {
        1
    };
    assert(linux_install_steps()[3 + low].0 == LinuxStep::Block(half));
    assert(linux_restore_steps()[3 + low].0 == LinuxStep::Block(half));
    assert(linux_arm_steps()[3 + low].0 == LinuxStep::Block(half));
    assert(linux_rearm_steps()[3 + low].0 == LinuxStep::Block(half));
    assert(linux_ensure_steps()[3 + low].0 == LinuxStep::Block(half));
    assert(mac_install_steps()[14 + low].0 == MacStep::Block(half));
    assert(mac_arm_steps()[10 + low].0 == MacStep::Block(half));
    assert(mac_rearm_steps()[10 + low].0 == MacStep::Block(half));
    assert(windows_install_steps(index)[6 + low].0 == WindowsStep::Block(half));
    assert(windows_restore_steps(index)[6 + low].0 == WindowsStep::Block(half));
    assert(windows_arm_steps()[6 + low].0 == WindowsStep::Block(half));
    assert(windows_rearm_steps()[6 + low].0 == WindowsStep::Block(half));
    assert(windows_ensure_steps()[6 + low].0 == WindowsStep::Block(half));
}

/// The kill switch sends IPv4 nowhere either, however it comes to be on; it
/// does not come on without the server's own route.
pub proof fn law_kill_switch_blocks_ipv4(half: Half)
    requires
        !half.v6(),
    ensures
        insists(linux_arm_steps(), LinuxStep::Bypass),
        takes(linux_arm_steps(), LinuxStep::Block(half)),
        takes(linux_rearm_steps(), LinuxStep::Block(half)),
        takes(linux_ensure_steps(), LinuxStep::Block(half)),
        insists(mac_arm_steps(), MacStep::AddHost),
        takes(mac_arm_steps(), MacStep::Block(half)),
        takes(mac_rearm_steps(), MacStep::Block(half)),
        insists(windows_arm_steps(), WindowsStep::AddHost),
        insists(windows_arm_steps(), WindowsStep::Block(half)),
        takes(windows_rearm_steps(), WindowsStep::Block(half)),
        takes(windows_ensure_steps(), WindowsStep::Block(half)),
{
    let low: int = if half == Half::V4Low {
        0
    } else {
        1
    };
    assert(linux_arm_steps()[0] == (LinuxStep::Bypass, OnFailure::Stop));
    assert(linux_arm_steps()[1 + low].0 == LinuxStep::Block(half));
    assert(linux_rearm_steps()[1 + low].0 == LinuxStep::Block(half));
    assert(linux_ensure_steps()[1 + low].0 == LinuxStep::Block(half));
    assert(mac_arm_steps()[2] == (MacStep::AddHost, OnFailure::Stop));
    assert(mac_arm_steps()[8 + low].0 == MacStep::Block(half));
    assert(mac_rearm_steps()[8 + low].0 == MacStep::Block(half));
    assert(windows_arm_steps()[1] == (WindowsStep::AddHost, OnFailure::Stop));
    assert(windows_arm_steps()[4 + low] == (WindowsStep::Block(half), OnFailure::Stop));
    assert(windows_rearm_steps()[4 + low].0 == WindowsStep::Block(half));
    assert(windows_ensure_steps()[4 + low].0 == WindowsStep::Block(half));
}

/// A tunnel comes up only with the server's own route and both halves of
/// IPv4.
pub proof fn law_tunnel_needs_its_routes(half: Half, index: Option<u32>)
    requires
        !half.v6(),
    ensures
        insists(linux_install_steps(), LinuxStep::Bypass),
        insists(linux_install_steps(), LinuxStep::ToDevice(half)),
        insists(mac_install_steps(), MacStep::AddHost),
        insists(mac_install_steps(), MacStep::AddTunnel(half)),
        insists(windows_install_steps(index), WindowsStep::AddHost),
        insists(windows_install_steps(index), WindowsStep::AddTunnel(half, index)),
{
    let low: int = if half == Half::V4Low {
        0
    } else {
        1
    };
    assert(linux_install_steps()[0] == (LinuxStep::Bypass, OnFailure::Stop));
    assert(linux_install_steps()[1 + low] == (LinuxStep::ToDevice(half), OnFailure::Stop));
    assert(mac_install_steps()[2] == (MacStep::AddHost, OnFailure::Stop));
    assert(mac_install_steps()[8 + low] == (MacStep::AddTunnel(half), OnFailure::Stop));
    assert(windows_install_steps(index)[1] == (WindowsStep::AddHost, OnFailure::Stop));
    assert(windows_install_steps(index)[3 + 2 * low] == (WindowsStep::AddTunnel(half, index), OnFailure::Stop));
}

/// Whatever route the tunnel added on Linux, taking it down removes.
pub proof fn law_linux_teardown_undoes(half: Half)
    ensures
        takes(linux_install_steps(), LinuxStep::ToDevice(half)) ==> takes(
            linux_teardown_steps(),
            LinuxStep::FromDevice(half),
        ),
        takes(linux_install_steps(), LinuxStep::Block(half)) ==> takes(linux_teardown_steps(), LinuxStep::Unblock(half)),
        takes(linux_arm_steps(), LinuxStep::Block(half)) ==> takes(linux_disarm_steps(), LinuxStep::Unblock(half)),
        takes(linux_teardown_steps(), LinuxStep::Unbypass),
        takes(linux_teardown_steps(), LinuxStep::RevertResolver),
        takes(linux_disarm_steps(), LinuxStep::Unbypass),
        takes(linux_disarm_steps(), LinuxStep::RevertResolver),
{
    let down = linux_teardown_steps();
    let off = linux_disarm_steps();
    assert(down[0].0 == LinuxStep::RevertResolver && off[0].0 == LinuxStep::RevertResolver);
    assert(down[5].0 == LinuxStep::Unbypass && off[5].0 == LinuxStep::Unbypass);
    match half {
        Half::V4Low => {
            assert(down[4].0 == LinuxStep::FromDevice(half));
            assert(off[3].0 == LinuxStep::Unblock(half));
            lemma_linux_install(half);
        },
        Half::V4High => {
            assert(down[3].0 == LinuxStep::FromDevice(half));
            assert(off[4].0 == LinuxStep::Unblock(half));
            lemma_linux_install(half);
        },
        Half::V6Low => {
            assert(down[1].0 == LinuxStep::Unblock(half));
            assert(off[1].0 == LinuxStep::Unblock(half));
            lemma_linux_install(half);
        },
        Half::V6High => {
            assert(down[2].0 == LinuxStep::Unblock(half));
            assert(off[2].0 == LinuxStep::Unblock(half));
            lemma_linux_install(half);
        },
    }
}

proof fn lemma_linux_install(half: Half)
    ensures
        half.v6() ==> !takes(linux_install_steps(), LinuxStep::ToDevice(half)),
        !half.v6() ==> !takes(linux_install_steps(), LinuxStep::Block(half)),
{
    let plan = linux_install_steps();
    assert forall|i: int| 0 <= i < plan.len() implies (half.v6() ==> (#[trigger] plan[i]).0 != LinuxStep::ToDevice(half))
        && (!half.v6() ==> plan[i].0 != LinuxStep::Block(half)) by {
        assert(i == 0 || i == 1 || i == 2 || i == 3 || i == 4 || i == 5 || i == 6 || i == 7);
    }
}

/// Taking the tunnel or the kill switch down gives macOS its IPv4 and IPv6
/// routes and its resolver back.
pub proof fn law_mac_teardown_undoes(half: Half)
    ensures
        takes(mac_teardown_steps(), MacStep::DeleteRoute(half)),
        !half.v6() ==> takes(mac_teardown_steps(), MacStep::DeleteTunnel(half)),
        half.v6() ==> takes(mac_teardown_steps(), MacStep::Unblock(half)),
        takes(mac_teardown_steps(), MacStep::DeleteHost),
        takes(mac_teardown_steps(), MacStep::DeleteScopedHost),
        takes(mac_teardown_steps(), MacStep::ClearResolver),
{
    let down = mac_teardown_steps();
    assert(down[4].0 == MacStep::DeleteScopedHost && down[5].0 == MacStep::DeleteHost);
    assert(down[10].0 == MacStep::ClearResolver);
    match half {
        Half::V4Low => {
            assert(down[1].0 == MacStep::DeleteTunnel(half) && down[3].0 == MacStep::DeleteRoute(half));
        },
        Half::V4High => {
            assert(down[0].0 == MacStep::DeleteTunnel(half) && down[2].0 == MacStep::DeleteRoute(half));
        },
        Half::V6Low => {
            assert(down[6].0 == MacStep::DeleteRoute(half) && down[8].0 == MacStep::Unblock(half));
        },
        Half::V6High => {
            assert(down[7].0 == MacStep::DeleteRoute(half) && down[9].0 == MacStep::Unblock(half));
        },
    }
}

/// Taking the tunnel down removes its routes, the IPv6 block, the server's
/// own route and the resolver on Windows; switching the kill switch off
/// removes every block, the server's own route and the rule.
pub proof fn law_windows_teardown_undoes(half: Half)
    ensures
        !half.v6() ==> takes(windows_teardown_steps(), WindowsStep::DeleteTunnel(half, None)),
        half.v6() ==> takes(windows_teardown_steps(), WindowsStep::Unblock(half)),
        takes(windows_teardown_steps(), WindowsStep::DeleteHost),
        takes(windows_teardown_steps(), WindowsStep::ClearResolver),
        takes(windows_teardown_steps(), WindowsStep::RemoveRule),
        takes(windows_disarm_steps(), WindowsStep::Unblock(half)),
        takes(windows_disarm_steps(), WindowsStep::DeleteHost),
        takes(windows_disarm_steps(), WindowsStep::RemoveRule),
{
    let down = windows_teardown_steps();
    let off = windows_disarm_steps();
    assert(down[0].0 == WindowsStep::RemoveRule && down[1].0 == WindowsStep::ClearResolver);
    assert(down[6].0 == WindowsStep::DeleteHost);
    assert(off[4].0 == WindowsStep::DeleteHost && off[5].0 == WindowsStep::RemoveRule);
    match half {
        Half::V4Low => {
            assert(down[5].0 == WindowsStep::DeleteTunnel(half, None) && off[0].0 == WindowsStep::Unblock(half));
        },
        Half::V4High => {
            assert(down[4].0 == WindowsStep::DeleteTunnel(half, None) && off[1].0 == WindowsStep::Unblock(half));
        },
        Half::V6Low => {
            assert(down[2].0 == WindowsStep::Unblock(half) && off[2].0 == WindowsStep::Unblock(half));
        },
        Half::V6High => {
            assert(down[3].0 == WindowsStep::Unblock(half) && off[3].0 == WindowsStep::Unblock(half));
        },
    }
}

} // verus!
