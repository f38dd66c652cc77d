//! What a node does as it starts, as its users change, and as it stops.

use crate::config::{CliArgs, NaiveConfig, NaiveNetwork};
use crate::config_auto::{fixed_exceeds_auto_cap, ResolveMode, ResolvedMaxConnections};
use crate::proxy_core::hooks::UserId;
use crate::text;
use vstd::prelude::*;

verus! {

/// Seconds that connections get to end once they are cancelled.
pub const DRAIN_TIMEOUT_SECS: u64 = 5;

/// Milliseconds between two looks at the connections that are left.
pub const DRAIN_POLL_MS: u64 = 100;

/// The name that the panel's certificate must show: the one given, or else the panel's host.
pub fn panel_server_name(cli: &CliArgs) -> (r: String)
    ensures
        r@ == (match cli.server_name {
            Some(n) => n@,
            None => cli.server_host@,
        }),
{
    match &cli.server_name {
        Some(n) => text::owned(n.as_str()),
        None => text::owned(cli.server_host.as_str()),
    }
}

/// Whether a node serves HTTP/3 rather than HTTP/2.
pub fn serves_h3(config: &NaiveConfig) -> (r: bool)
    ensures
        r == (config.network == NaiveNetwork::Udp),
{
    match config.network {
        NaiveNetwork::Udp => true,
        NaiveNetwork::Tcp => false,
    }
}

/// Whether a fixed number of connections is more than the machine can carry, so that a warning
/// is due.
pub fn warns_of_limit(resolved: &ResolvedMaxConnections) -> (r: bool)
    ensures
        r == (resolved.mode == ResolveMode::Fixed && (resolved.value > resolved.breakdown.cpu_cap
            || resolved.value > resolved.breakdown.mem_cap || resolved.value
            > resolved.breakdown.fd_cap)),
{
    match resolved.mode {
        ResolveMode::Fixed => fixed_exceeds_auto_cap(resolved.value, &resolved.breakdown),
        ResolveMode::Auto => false,
    }
}

/// The name of how the number of connections came about.
pub fn mode_name(mode: ResolveMode) -> (r: &'static str)
    ensures
        r@ == (match mode {
            ResolveMode::Auto => "auto"@,
            ResolveMode::Fixed => "fixed"@,
        }),
{
    match mode {
        ResolveMode::Auto => "auto",
        ResolveMode::Fixed => "fixed",
    }
}

/// The users whose connections are cancelled when the users change: those that were removed,
/// then those whose credential changed.
pub fn users_to_kick(removed: &[UserId], changed: &[UserId]) -> (r: Vec<UserId>)
    ensures
        forall|u: UserId| #[trigger]
            r@.contains(u) <==> removed@.contains(u) || changed@.contains(u),
        r@ == removed@ + changed@,
{
    let mut out: Vec<UserId> = Vec::new();
    push_users(&mut out, removed);
    push_users(&mut out, changed);
    assert(out@ =~= removed@ + changed@);
    proof {
        law_kick_list_holds_both(removed@, changed@);
    }
    out
}

fn push_users(out: &mut Vec<UserId>, more: &[UserId])
    ensures
        final(out)@ == old(out)@ + more@,
{
    let mut i: usize = 0;
    while i < more.len()
        invariant
            i <= more@.len(),
            out@ == old(out)@ + more@.take(i as int),
        decreases more@.len() - i,
    {
        out.push(more[i]);
        i += 1;
        assert(out@ =~= old(out)@ + more@.take(i as int));
    }
    assert(more@.take(more@.len() as int) =~= more@);
}

/// What the shutdown does about the connections that are left.
#[derive(Debug, Clone, Copy, PartialEq, Eq, Structural)]
pub enum DrainStep {
    /// None is left.
    Drained,
    /// The time is up with this many left.
    GiveUp(usize),
    /// Look again later.
    Wait,
}

/// What the shutdown does about the connections that are left.
pub open spec fn drain_next(remaining: usize, deadline_passed: bool) -> DrainStep {
    if remaining == 0 {
        DrainStep::Drained
    } else if deadline_passed {
        DrainStep::GiveUp(remaining)
    } else {
        DrainStep::Wait
    }
}

/// What the shutdown does about the connections that are left: it waits for them, but not
/// beyond the deadline.
pub fn drain_step(remaining: usize, deadline_passed: bool) -> (r: DrainStep)
    ensures
        r == drain_next(remaining, deadline_passed),
        r == (if remaining == 0 {
            DrainStep::Drained
        } else if deadline_passed {
            DrainStep::GiveUp(remaining)
        } else {
            DrainStep::Wait
        }),
{
    if remaining == 0 {
        DrainStep::Drained
    } else if deadline_passed {
        DrainStep::GiveUp(remaining)
    } else {
        DrainStep::Wait
    }
}

/// The shutdown never waits once the deadline has passed, nor where no connection is left; it
/// gives up exactly where the deadline finds some, and says how many.
pub proof fn law_shutdown_does_not_hang(remaining: usize, deadline_passed: bool)
    ensures
        drain_next(remaining, deadline_passed) == DrainStep::Wait <==> remaining > 0
            && !deadline_passed,
        drain_next(remaining, deadline_passed) == DrainStep::Drained <==> remaining == 0,
        drain_next(remaining, deadline_passed) matches DrainStep::GiveUp(n) ==> n == remaining
            && deadline_passed,
{
}

/// Both those that were removed and those that changed are in the list of the two, and nobody
/// else.
pub proof fn law_kick_list_holds_both(removed: Seq<UserId>, changed: Seq<UserId>)
    ensures
        forall|u: UserId| #[trigger]
            (removed + changed).contains(u) <==> removed.contains(u) || changed.contains(u),
{
    assert forall|u: UserId| #[trigger]
        (removed + changed).contains(u) <==> removed.contains(u) || changed.contains(u) by {
        let all = removed + changed;
        if all.contains(u) {
            let i = choose|i: int| 0 <= i < all.len() && all[i] == u;
            if i < removed.len() {
                assert(removed[i] == u);
            } else {
                assert(changed[i - removed.len()] == u);
            }
        }
        if removed.contains(u) {
            let i = choose|i: int| 0 <= i < removed.len() && removed[i] == u;
            assert(all[i] == u);
        }
        if changed.contains(u) {
            let i = choose|i: int| 0 <= i < changed.len() && changed[i] == u;
            assert(all[removed.len() + i] == u);
        }
    }
}

} // verus!
