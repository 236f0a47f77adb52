//! Fleet-wide reconciliation: when to probe the engine, when to run the
//! batch status query, how its result is applied to every project, and
//! which project may have its logs followed.
use vstd::prelude::*;
use crate::service::{reconciled, Service};
use crate::status::{is_transitional, Status};

verus! {

/// Ticks between two probes of the engine while it is known to be up.
pub const DAEMON_PROBE_COOLDOWN_TICKS: u8 = 60;

/// The fleet-wide part of reconciliation.
#[derive(Clone, Copy, Debug, PartialEq, Eq, Structural)]
pub struct Fleet {
    /// Whether the engine was reachable at the last probe.
    pub daemon_running: bool,
    /// No batch query has been run yet.
    pub first_status_check: bool,
    /// Ticks left before the engine must be probed again.
    pub daemon_probe_cooldown_ticks: u8,
    /// Whether the event listener is taken to be running.
    pub event_listener_running: bool,
}

/// What one reconciliation pass does to the projects.
#[derive(Clone, Copy, Debug, PartialEq, Eq, Structural)]
pub enum RefreshPlan {
    /// The engine is unreachable: every project shows `DaemonNotRunning`.
    DaemonDown,
    /// Run the batch query once and reconcile every project with it.
    Batch,
    /// Nothing to do this time.
    Idle,
}

/// Whether the engine must be probed now: on the first check, when the
/// cooldown has run out, or while it is known to be down.
pub open spec fn probe_due(f: Fleet) -> bool {
    f.first_status_check || f.daemon_probe_cooldown_ticks == 0 || !f.daemon_running
}

/// Whether the engine is up after a pass that probed it with result
/// `probed` (`None`: not probed).
pub open spec fn running_after(f: Fleet, probed: Option<bool>) -> bool {
    match probed {
        Some(b) => b,
        None => f.daemon_running,
    }
}

/// Some project is pulling, starting or stopping.
pub open spec fn any_transitional(statuses: Seq<Status>) -> bool {
    exists|i: int| 0 <= i < statuses.len() && is_transitional(#[trigger] statuses[i])
}

/// The plan of one pass: down when the engine is unreachable; else one
/// batch query on the first check, when reachability changed, or while a
/// project is in transition; else nothing.
pub open spec fn refresh_plan(f: Fleet, probed: Option<bool>, transitional: bool) -> RefreshPlan {
    if !running_after(f, probed) {
        RefreshPlan::DaemonDown
    } else if f.first_status_check || running_after(f, probed) != f.daemon_running
        || transitional {
        RefreshPlan::Batch
    } else {
        RefreshPlan::Idle
    }
}

/// The number of status queries a plan issues.
pub open spec fn queries_issued(p: RefreshPlan) -> nat {
    if p == RefreshPlan::Batch {
        1
    } else {
        0
    }
}

/// The status a project ends a pass in.
pub open spec fn refreshed_status(p: RefreshPlan, current: Status, observed: Status) -> Status {
    match p {
        RefreshPlan::DaemonDown => Status::DaemonNotRunning,
        RefreshPlan::Batch => reconciled(current, observed),
        RefreshPlan::Idle => current,
    }
}

pub open spec fn statuses_of(v: Seq<Service>) -> Seq<Status> {
    v.map_values(|s: Service| s.status)
}

impl Fleet {
    /// The state at startup, before any check.
    pub fn new(daemon_running: bool) -> (r: Fleet)
        ensures
            r.daemon_running == daemon_running,
            r.first_status_check,
            r.daemon_probe_cooldown_ticks == 0,
            !r.event_listener_running,
    {
        Fleet {
            daemon_running,
            first_status_check: true,
            daemon_probe_cooldown_ticks: 0,
            event_listener_running: false,
        }
    }

    /// Whether the engine must be probed before this pass.
    pub fn should_probe_daemon(&self) -> (r: bool)
        ensures
            r == probe_due(*self),
    {
        self.first_status_check || self.daemon_probe_cooldown_ticks == 0 || !self.daemon_running
    }

    /// Starts a pass. `probed` is the result of the engine probe when one was
    /// made, `transitional` whether some project is in transition. A probe
    /// restarts the cooldown, a pass without one counts it down; an
    /// unreachable engine also stops the event listener.
    pub fn begin_refresh(&mut self, probed: Option<bool>, transitional: bool) -> (r: RefreshPlan)
        ensures
            r == refresh_plan(*old(self), probed, transitional),
            final(self).daemon_running == running_after(*old(self), probed),
            final(self).daemon_probe_cooldown_ticks == (if probed is Some {
                DAEMON_PROBE_COOLDOWN_TICKS
            } else if old(self).daemon_probe_cooldown_ticks > 0 {
                (old(self).daemon_probe_cooldown_ticks - 1) as u8
            } else {
                0
            }),
            final(self).first_status_check == (old(self).first_status_check && r
                != RefreshPlan::Batch),
            final(self).event_listener_running == (old(self).event_listener_running
                && r != RefreshPlan::DaemonDown),
    {
        let was_running = self.daemon_running;
        match probed {
            Some(b) => {
                self.daemon_running = b;
                self.daemon_probe_cooldown_ticks = DAEMON_PROBE_COOLDOWN_TICKS;
            },
            None => {
                if self.daemon_probe_cooldown_ticks > 0 {
                    self.daemon_probe_cooldown_ticks = self.daemon_probe_cooldown_ticks - 1;
                }
            },
        }
        if !self.daemon_running {
            self.event_listener_running = false;
            RefreshPlan::DaemonDown
        } else if self.first_status_check || self.daemon_running != was_running || transitional {
            self.first_status_check = false;
            RefreshPlan::Batch
        } else {
            RefreshPlan::Idle
        }
    }

    /// Whether the event listener should be (re)started: the engine is up
    /// and no listener runs.
    pub fn listener_due(&self) -> (r: bool)
        ensures
            r == (self.daemon_running && !self.event_listener_running),
    {
        self.daemon_running && !self.event_listener_running
    }

    /// The event listener was started.
    pub fn listener_started(&mut self)
        ensures
            final(self).event_listener_running,
            final(self).daemon_running == old(self).daemon_running,
            final(self).first_status_check == old(self).first_status_check,
            final(self).daemon_probe_cooldown_ticks == old(self).daemon_probe_cooldown_ticks,
    {
        self.event_listener_running = true;
    }

    /// Makes the next pass probe the engine.
    pub fn probe_next(&mut self)
        ensures
            final(self).daemon_probe_cooldown_ticks == 0,
            final(self).daemon_running == old(self).daemon_running,
            final(self).first_status_check == old(self).first_status_check,
            final(self).event_listener_running == old(self).event_listener_running,
    {
        self.daemon_probe_cooldown_ticks = 0;
    }
}

/// Whether some project is pulling, starting or stopping.
pub fn any_busy(services: &Vec<Service>) -> (r: bool)
    ensures
        r == any_transitional(statuses_of(services@)),
{
    let ghost st = statuses_of(services@);
    let mut i: usize = 0;
    while i < services.len()
        invariant
            st == statuses_of(services@),
            i <= services@.len(),
            forall|j: int| 0 <= j < i ==> !is_transitional(#[trigger] st[j]),
        decreases services@.len() - i,
    {
        if services[i].status.is_busy() {
            assert(is_transitional(st[i as int]));
            return true;
        }
        i = i + 1;
    }
    false
}

/// What a pass leaves of one project: the status of `refreshed_status`; no
/// pull progress when the engine is down, none when a transition completed,
/// else the old one; every log and the follower as they were.
pub open spec fn refreshed_cell(p: RefreshPlan, old: Service, new: Service, observed: Status) -> bool {
    &&& new.status == refreshed_status(p, old.status, observed)
    &&& new.pull_progress == (match p {
        RefreshPlan::DaemonDown => None,
        RefreshPlan::Batch => if is_transitional(old.status) && new.status != old.status {
            None
        } else {
            old.pull_progress
        },
        RefreshPlan::Idle => old.pull_progress,
    })
    &&& new.name == old.name
    &&& new.events == old.events
    &&& new.logs == old.logs
    &&& new.live_logs == old.live_logs
    &&& new.follow_active == old.follow_active
}

/// The observation a pass reads for project `i`.
pub open spec fn observed_at(p: RefreshPlan, observed: Seq<Status>, i: int) -> Status {
    if p == RefreshPlan::Batch {
        observed[i]
    } else {
        Status::Error
    }
}

/// Applies a pass to every project: `observed` holds, in the same order,
/// what the batch query showed (read only for `Batch`).
pub fn apply_refresh(services: &mut Vec<Service>, plan: RefreshPlan, observed: &Vec<Status>)
    requires
        plan == RefreshPlan::Batch ==> observed@.len() == old(services)@.len(),
    ensures
        final(services)@.len() == old(services)@.len(),
        forall|i: int|
            0 <= i < final(services)@.len() ==> refreshed_cell(
                plan,
                old(services)@[i],
                #[trigger] final(services)@[i],
                observed_at(plan, observed@, i),
            ),
{
    let n = services.len();
    if plan == RefreshPlan::Idle {
        return;
    }
    let mut i: usize = 0;
    while i < n
        invariant
            n == old(services)@.len(),
            services@.len() == n,
            i <= n,
            plan != RefreshPlan::Idle,
            plan == RefreshPlan::Batch ==> observed@.len() == n,
            forall|j: int| i <= j < n ==> #[trigger] services@[j] == old(services)@[j],
            forall|j: int|
                0 <= j < i ==> refreshed_cell(
                    plan,
                    old(services)@[j],
                    #[trigger] services@[j],
                    observed_at(plan, observed@, j),
                ),
        decreases n - i,
    {
        if plan == RefreshPlan::DaemonDown {
            services[i].force_daemon_down();
        } else {
            let o = observed[i];
            services[i].reconcile(o);
        }
        i = i + 1;
    }
}

/// One reconciliation pass that finds the engine unreachable, whether by a
/// probe or as already known without one, leaves every project
/// `DaemonNotRunning`, whatever its status before.
pub proof fn lemma_unreachable_pass_forces_all(
    f: Fleet,
    probed: Option<bool>,
    before: Seq<Status>,
    observed: Seq<Status>,
)
    requires
        !running_after(f, probed),
    ensures
        refresh_plan(f, probed, any_transitional(before)) == RefreshPlan::DaemonDown,
        forall|i: int|
            0 <= i < before.len() ==> refreshed_status(
                refresh_plan(f, probed, any_transitional(before)),
                #[trigger] before[i],
                observed[i],
            ) == Status::DaemonNotRunning,
{
}

/// A pass issues at most one status query, for any number of projects, and
/// exactly one when the engine is up and a check is due (first check,
/// changed reachability, or a project in transition).
pub proof fn lemma_one_batch_query(f: Fleet, probed: Option<bool>, statuses: Seq<Status>)
    ensures
        queries_issued(refresh_plan(f, probed, any_transitional(statuses))) <= 1,
        running_after(f, probed) && (f.first_status_check || running_after(f, probed)
            != f.daemon_running || any_transitional(statuses)) ==> queries_issued(
            refresh_plan(f, probed, any_transitional(statuses)),
        ) == 1,
{
}

/// The project whose logs may be followed: the selected one, while the
/// live-log view is shown and it runs.
pub open spec fn follow_target(statuses: Seq<Status>, selected: Option<usize>, live_tab: bool) -> Option<
    int,
> {
    match selected {
        Some(i) => if live_tab && i < statuses.len() && statuses[i as int] == Status::Running {
            Some(i as int)
        } else {
            None
        },
        None => None,
    }
}

/// What one tick does to the log followers.
#[derive(Clone, Debug)]
pub struct FollowPlan {
    /// Projects whose follower is to be ended, in order.
    pub stop: Vec<usize>,
    /// The project to start following, if any.
    pub start: Option<usize>,
}

pub open spec fn follows_after(active: Seq<bool>, plan: FollowPlan, i: int) -> bool {
    (active[i] && !plan.stop@.contains(i as usize)) || plan.start == Some(i as usize)
}

/// Plans the log followers for one tick: every follower but the target's
/// ends, and the target gets one if it has none. Afterwards at most one
/// project, the target, is followed.
pub fn plan_follow(services: &Vec<Service>, selected: Option<usize>, live_tab: bool) -> (r:
    FollowPlan)
    ensures
        forall|i: usize|
            r.stop@.contains(i) <==> (i < services@.len() && services@[i as int].follow_active
                && follow_target(statuses_of(services@), selected, live_tab) != Some(i as int)),
        r.start == (match follow_target(statuses_of(services@), selected, live_tab) {
            Some(t) => if !services@[t].follow_active {
                Some(t as usize)
            } else {
                None
            },
            None => None,
        }),
        forall|i: int|
            0 <= i < services@.len() && (#[trigger] services@[i].follow_active && !r.stop@.contains(
                i as usize,
            ) || r.start == Some(i as usize)) ==> follow_target(
                statuses_of(services@),
                selected,
                live_tab,
            ) == Some(i),
{
    let ghost st = statuses_of(services@);
    let target: Option<usize> = match selected {
        Some(i) => if live_tab && i < services.len() && services[i].status == Status::Running {
            Some(i)
        } else {
            None
        },
        None => None,
    };
    assert(st.len() == services@.len());
    assert(target matches Some(t) ==> st[t as int] == services@[t as int].status);
    assert(match target {
        Some(t) => follow_target(st, selected, live_tab) == Some(t as int),
        None => follow_target(st, selected, live_tab) is None,
    });
    let mut stop: Vec<usize> = Vec::new();
    let mut i: usize = 0;
    while i < services.len()
        invariant
            i <= services@.len(),
            st == statuses_of(services@),
            match target {
                Some(t) => follow_target(st, selected, live_tab) == Some(t as int),
                None => follow_target(st, selected, live_tab) is None,
            },
            forall|k: usize|
                stop@.contains(k) <==> (k < i && services@[k as int].follow_active
                    && follow_target(st, selected, live_tab) != Some(k as int)),
        decreases services@.len() - i,
    {
        let ghost prev = stop@;
        let pushed = services[i].follow_active && target != Some(i);
        assert(pushed == (services@[i as int].follow_active && follow_target(st, selected, live_tab)
            != Some(i as int)));
        if pushed {
            stop.push(i);
        }
        proof {
            assert forall|k: usize| stop@.contains(k) <==> (prev.contains(k) || (pushed && k == i)) by {
                if pushed {
                    assert(stop@ == prev.push(i));
                    if k == i {
                        assert(stop@[prev.len() as int] == k);
                    }
                    if prev.contains(k) {
                        let j = choose|j: int| 0 <= j < prev.len() && prev[j] == k;
                        assert(stop@[j] == k);
                    }
                    if stop@.contains(k) {
                        let j = choose|j: int| 0 <= j < stop@.len() && stop@[j] == k;
                        if j < prev.len() {
                            assert(prev[j] == k);
                        }
                    }
                }
            }
            assert forall|k: usize|
                stop@.contains(k) <==> (k < i + 1 && services@[k as int].follow_active
                    && follow_target(st, selected, live_tab) != Some(k as int)) by {
                assert(prev.contains(k) <==> (k < i && services@[k as int].follow_active
                    && follow_target(st, selected, live_tab) != Some(k as int)));
            }
        }
        i = i + 1;
    }
    let start = match target {
        Some(t) => if !services[t].follow_active {
            Some(t)
        } else {
            None
        },
        None => None,
    };
    FollowPlan { stop, start }
}

/// The selection after moving down one row, wrapping to the top; `None`
/// when the list is empty.
pub fn next_selection(selected: Option<usize>, len: usize) -> (r: Option<usize>)
    ensures
        len == 0 ==> r is None,
        len > 0 ==> r == Some(
            match selected {
                Some(i) => if i + 1 >= len {
                    0
                } else {
                    (i + 1) as usize
                },
                None => 0usize,
            },
        ),
{
    if len == 0 {
        return None;
    }
    match selected {
        Some(i) => if i >= len - 1 {
            Some(0)
        } else {
            Some(i + 1)
        },
        None => Some(0),
    }
}

/// The selection after moving up one row, wrapping to the bottom; `None`
/// when the list is empty.
pub fn previous_selection(selected: Option<usize>, len: usize) -> (r: Option<usize>)
    ensures
        len == 0 ==> r is None,
        len > 0 ==> r == Some(
            match selected {
                Some(i) => if i == 0 {
                    (len - 1) as usize
                } else {
                    (i - 1) as usize
                },
                None => 0usize,
            },
        ),
{
    if len == 0 {
        return None;
    }
    match selected {
        Some(i) => if i == 0 {
            Some(len - 1)
        } else {
            Some(i - 1)
        },
        None => Some(0),
    }
}

} // verus!
