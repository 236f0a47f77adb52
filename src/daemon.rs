//! Control of the container engine's service: the privileged start, stop
//! and restart commands, the bounded wait for the expected state, and the
//! drain of running projects that must come before a stop or restart.
use vstd::prelude::*;
use vstd::string::*;
use crate::service::{Outcome, Service};
use crate::status::{is_transitional, Status};
use crate::text::{chars_of, contains, push_chars, push_str, string_of, trim, trim_chars, CharClass};

verus! {

/// A daemon-level action.
#[derive(Clone, Copy, Debug, PartialEq, Eq, Structural)]
pub enum DaemonAction {
    Start,
    Stop,
    Restart,
}

/// The verb of an action, as the service manager takes it.
pub open spec fn action_word(a: DaemonAction) -> Seq<char> {
    match a {
        DaemonAction::Start => "start"@,
        DaemonAction::Stop => "stop"@,
        DaemonAction::Restart => "restart"@,
    }
}

/// Whether the engine's service is to be active once the action is done.
pub open spec fn expects_active(a: DaemonAction) -> bool {
    a != DaemonAction::Stop
}

/// Whether running projects are stopped before the action.
pub open spec fn drains_first(a: DaemonAction) -> bool {
    a != DaemonAction::Start
}

impl DaemonAction {
    pub fn word(&self) -> (r: &'static str)
        ensures
            r@ == action_word(*self),
    {
        match self {
            DaemonAction::Start => "start",
            DaemonAction::Stop => "stop",
            DaemonAction::Restart => "restart",
        }
    }

    pub fn expect_active(&self) -> (r: bool)
        ensures
            r == expects_active(*self),
    {
        !matches!(self, DaemonAction::Stop)
    }

    pub fn drains(&self) -> (r: bool)
        ensures
            r == drains_first(*self),
    {
        !matches!(self, DaemonAction::Start)
    }

    /// The action's name in the daemon menu.
    pub fn label(&self) -> (r: &'static str)
        ensures
            r@ == match *self {
                DaemonAction::Start => "Start"@,
                DaemonAction::Stop => "Stop"@,
                DaemonAction::Restart => "Restart"@,
            },
    {
        match self {
            DaemonAction::Start => "Start",
            DaemonAction::Stop => "Stop",
            DaemonAction::Restart => "Restart",
        }
    }

    /// What the action does, as the daemon menu explains it.
    pub fn description(&self) -> (r: &'static str)
        ensures
            r@ == match *self {
                DaemonAction::Start => "Bring up docker.service and docker.socket"@,
                DaemonAction::Stop => "Stop active services first, then shut daemon down"@,
                DaemonAction::Restart => "Stop active services first, then restart daemon"@,
            },
    {
        match self {
            DaemonAction::Start => "Bring up docker.service and docker.socket",
            DaemonAction::Stop => "Stop active services first, then shut daemon down",
            DaemonAction::Restart => "Stop active services first, then restart daemon",
        }
    }
}

/// The privileged command for an action: the arguments of the helper that
/// reads the password on its standard input, and the state to wait for.
#[derive(Clone, Debug)]
pub struct PrivilegedCommand {
    pub action: DaemonAction,
    pub args: Vec<String>,
    pub expect_active: bool,
}

pub open spec fn string_seq_views(v: Seq<String>) -> Seq<Seq<char>> {
    v.map_values(|s: String| s@)
}

/// `-S -p "" systemctl <verb> docker.service docker.socket`.
pub open spec fn privileged_args(a: DaemonAction) -> Seq<Seq<char>> {
    seq!["-S"@, "-p"@, ""@, "systemctl"@, action_word(a), "docker.service"@, "docker.socket"@]
}

/// The warning for an action asked without a password.
pub open spec fn password_prompt(a: DaemonAction) -> Seq<char> {
    "Enter sudo password to "@ + action_word(a) + " Docker daemon"@
}

/// The privileged command for `action`, or the warning when `password` is
/// empty (then nothing is to be run).
pub fn privileged_command(action: DaemonAction, password: &str) -> (r: Result<
    PrivilegedCommand,
    String,
>)
    ensures
        password@.len() == 0 <==> r is Err,
        r matches Err(m) ==> m@ == password_prompt(action),
        r matches Ok(c) ==> c.action == action && c.expect_active == expects_active(action)
            && string_seq_views(c.args@) == privileged_args(action),
{
    if password.unicode_len() == 0 {
        let mut m = String::from_str("Enter sudo password to ");
        m.append(action.word());
        m.append(" Docker daemon");
        return Err(m);
    }
    let args = vec![
        String::from_str("-S"),
        String::from_str("-p"),
        String::from_str(""),
        String::from_str("systemctl"),
        String::from_str(action.word()),
        String::from_str("docker.service"),
        String::from_str("docker.socket"),
    ];
    assert(string_seq_views(args@) =~= privileged_args(action));
    Ok(PrivilegedCommand { action, args, expect_active: action.expect_active() })
}

/// The privileged command that starts the engine's service and socket, or
/// the warning for an empty password; how the action ends is
/// `daemon_result` of how this command ran and the states read after it.
pub fn start(password: &str) -> (r: Result<PrivilegedCommand, String>)
    ensures
        password@.len() == 0 <==> r is Err,
        r matches Err(m) ==> m@ == password_prompt(DaemonAction::Start),
        r matches Ok(c) ==> c.action == DaemonAction::Start && c.expect_active
            && string_seq_views(c.args@) == privileged_args(DaemonAction::Start),
{
    privileged_command(DaemonAction::Start, password)
}

/// The privileged command that stops the engine's service and socket, or
/// the warning for an empty password; how the action ends is
/// `daemon_result` of how this command ran and the states read after it.
pub fn stop(password: &str) -> (r: Result<PrivilegedCommand, String>)
    ensures
        password@.len() == 0 <==> r is Err,
        r matches Err(m) ==> m@ == password_prompt(DaemonAction::Stop),
        r matches Ok(c) ==> c.action == DaemonAction::Stop && !c.expect_active
            && string_seq_views(c.args@) == privileged_args(DaemonAction::Stop),
{
    privileged_command(DaemonAction::Stop, password)
}

/// The privileged command that restarts the engine's service and socket, or
/// the warning for an empty password; how the action ends is
/// `daemon_result` of how this command ran and the states read after it.
pub fn restart(password: &str) -> (r: Result<PrivilegedCommand, String>)
    ensures
        password@.len() == 0 <==> r is Err,
        r matches Err(m) ==> m@ == password_prompt(DaemonAction::Restart),
        r matches Ok(c) ==> c.action == DaemonAction::Restart && c.expect_active
            && string_seq_views(c.args@) == privileged_args(DaemonAction::Restart),
{
    privileged_command(DaemonAction::Restart, password)
}

/// `Failed to <verb> Docker daemon`, followed by `: <stderr>` when the
/// helper printed something.
pub open spec fn privileged_failure(a: DaemonAction, stderr: Seq<char>) -> Seq<char> {
    "Failed to "@ + action_word(a) + " Docker daemon"@ + if trim(stderr).len() == 0 {
        seq![]
    } else {
        ": "@ + trim(stderr)
    }
}

/// The report of a privileged command that failed, from what it printed on
/// its error stream.
pub fn privileged_failure_message(action: DaemonAction, stderr: &str) -> (r: String)
    ensures
        r@ == privileged_failure(action, stderr@),
{
    let t = trim_chars(&chars_of(stderr), CharClass::Space);
    let mut out: Vec<char> = Vec::new();
    push_str(&mut out, "Failed to ");
    push_str(&mut out, action.word());
    push_str(&mut out, " Docker daemon");
    if t.len() > 0 {
        push_str(&mut out, ": ");
        push_chars(&mut out, &t);
    }
    assert(out@ =~= privileged_failure(action, stderr@));
    string_of(&out)
}

/// How many times the service state is read before giving up.
pub const MAX_POLL_ATTEMPTS: u32 = 20;

/// Milliseconds between two reads of the service state.
pub const POLL_INTERVAL_MS: u64 = 100;

/// A bounded wait for a predicate: each observation either satisfies it,
/// or counts one failed attempt, until the attempts run out.
#[derive(Clone, Copy, Debug, PartialEq, Eq, Structural)]
pub struct Poll {
    pub attempts: u32,
    pub max_attempts: u32,
}

/// What to do after one observation.
#[derive(Clone, Copy, Debug, PartialEq, Eq, Structural)]
pub enum PollStep {
    /// The predicate holds.
    Confirmed,
    /// Wait one interval and observe again.
    Wait,
    /// The attempts ran out.
    TimedOut,
}

impl Poll {
    pub fn new(max_attempts: u32) -> (r: Poll)
        ensures
            r.attempts == 0,
            r.max_attempts == max_attempts,
    {
        Poll { attempts: 0, max_attempts }
    }

    /// Takes one observation: whether the predicate held.
    pub fn observe(&mut self, holds: bool) -> (r: PollStep)
        requires
            old(self).attempts < old(self).max_attempts,
        ensures
            holds ==> r == PollStep::Confirmed && *final(self) == *old(self),
            !holds ==> final(self).attempts == old(self).attempts + 1 && final(self).max_attempts
                == old(self).max_attempts && r == (if final(self).attempts >= final(
                self).max_attempts {
                PollStep::TimedOut
            } else {
                PollStep::Wait
            }),
    {
        if holds {
            return PollStep::Confirmed;
        }
        self.attempts = self.attempts + 1;
        if self.attempts >= self.max_attempts {
            PollStep::TimedOut
        } else {
            PollStep::Wait
        }
    }
}

/// `Docker daemon did not become running|stopped after <verb>`.
pub open spec fn poll_timeout(a: DaemonAction) -> Seq<char> {
    "Docker daemon did not become "@ + (if expects_active(a) {
        "running"@
    } else {
        "stopped"@
    }) + " after "@ + action_word(a)
}

/// The report of a wait for the service state that timed out.
pub fn poll_timeout_message(action: DaemonAction) -> (r: String)
    ensures
        r@ == poll_timeout(action),
{
    let mut out: Vec<char> = Vec::new();
    push_str(&mut out, "Docker daemon did not become ");
    if action.expect_active() {
        push_str(&mut out, "running");
    } else {
        push_str(&mut out, "stopped");
    }
    push_str(&mut out, " after ");
    push_str(&mut out, action.word());
    assert(out@ =~= poll_timeout(action));
    string_of(&out)
}

/// The report of a daemon action that reached the expected state, with the
/// number of projects stopped first.
pub open spec fn action_done(a: DaemonAction, drained: nat) -> Seq<char> {
    match a {
        DaemonAction::Start => "Docker daemon started"@,
        DaemonAction::Stop => "Docker daemon stopped ("@ + crate::text::decimal(drained)
            + " service(s) stopped first)"@,
        DaemonAction::Restart => "Docker daemon restarted ("@ + crate::text::decimal(drained)
            + " service(s) stopped first)"@,
    }
}

pub fn action_done_message(action: DaemonAction, drained: usize) -> (r: String)
    ensures
        r@ == action_done(action, drained as nat),
{
    let mut out: Vec<char> = Vec::new();
    match action {
        DaemonAction::Start => {
            push_str(&mut out, "Docker daemon started");
        },
        DaemonAction::Stop => {
            push_str(&mut out, "Docker daemon stopped (");
            crate::text::push_decimal(&mut out, drained as u64);
            push_str(&mut out, " service(s) stopped first)");
        },
        DaemonAction::Restart => {
            push_str(&mut out, "Docker daemon restarted (");
            crate::text::push_decimal(&mut out, drained as u64);
            push_str(&mut out, " service(s) stopped first)");
        },
    }
    assert(out@ =~= action_done(action, drained as nat));
    string_of(&out)
}

/// How the privileged command ended.
#[derive(Clone, Debug)]
pub enum PrivilegedOutcome {
    /// It ran and exited with success.
    Succeeded,
    /// It ran and failed; the text is what it printed on its error stream.
    Failed(String),
    /// It could not be started; the text says why.
    NotRun(String),
}

/// The expected state was observed within the allowed number of reads.
pub open spec fn state_confirmed(expect_active: bool, observed: Seq<bool>) -> bool {
    exists|i: int| 0 <= i < observed.len() && i < MAX_POLL_ATTEMPTS && observed[i] == expect_active
}

/// The result of a daemon action: the error of a privileged command that
/// failed; else success once the service state is confirmed by one of the
/// first reads of `observed`, or the timeout report. A zero exit alone
/// never succeeds.
pub open spec fn daemon_outcome(a: DaemonAction, run: PrivilegedOutcome, observed: Seq<bool>) -> Result<
    (),
    Seq<char>,
> {
    match run {
        PrivilegedOutcome::NotRun(e) => Err(e@),
        PrivilegedOutcome::Failed(stderr) => Err(privileged_failure(a, stderr@)),
        PrivilegedOutcome::Succeeded => if state_confirmed(expects_active(a), observed) {
            Ok(())
        } else {
            Err(poll_timeout(a))
        },
    }
}

/// The result of `action`, from how its privileged command ended and the
/// service states read afterwards, in order (see `daemon_outcome`).
pub fn daemon_result(action: DaemonAction, run: &PrivilegedOutcome, observed: &Vec<bool>) -> (r:
    Result<(), String>)
    ensures
        match r {
            Ok(()) => daemon_outcome(action, *run, observed@) == Ok::<(), Seq<char>>(()),
            Err(m) => daemon_outcome(action, *run, observed@) == Err::<(), Seq<char>>(m@),
        },
{
    match run {
        PrivilegedOutcome::NotRun(e) => Err(e.clone()),
        PrivilegedOutcome::Failed(stderr) => Err(privileged_failure_message(action, stderr.as_str())),
        PrivilegedOutcome::Succeeded => {
            let expect = action.expect_active();
            let mut i: usize = 0;
            while i < observed.len() && i < MAX_POLL_ATTEMPTS as usize
                invariant
                    i <= observed@.len(),
                    i <= MAX_POLL_ATTEMPTS,
                    expect == expects_active(action),
                    *run is Succeeded,
                    forall|j: int| 0 <= j < i ==> #[trigger] observed@[j] != expect,
                decreases observed@.len() - i,
            {
                if observed[i] == expect {
                    assert(state_confirmed(expect, observed@));
                    return Ok(());
                }
                i = i + 1;
            }
            Err(poll_timeout_message(action))
        },
    }
}

/// A project is drained before a daemon stop or restart when it runs or is
/// in transition.
pub open spec fn needs_drain(s: Status) -> bool {
    s == Status::Running || is_transitional(s)
}

/// `a` sorts strictly before `b`, character by character.
pub open spec fn lex_lt(a: Seq<char>, b: Seq<char>) -> bool
    decreases a.len(),
{
    if a.len() == 0 {
        b.len() > 0
    } else if b.len() == 0 {
        false
    } else if a[0] != b[0] {
        a[0] < b[0]
    } else {
        lex_lt(a.drop_first(), b.drop_first())
    }
}

pub open spec fn lex_le(a: Seq<char>, b: Seq<char>) -> bool {
    !lex_lt(b, a)
}

pub open spec fn sorted_names(v: Seq<Seq<char>>) -> bool {
    forall|i: int, j: int| 0 <= i < j < v.len() ==> lex_le(v[i], v[j])
}

pub proof fn lemma_lex_total(a: Seq<char>, b: Seq<char>)
    ensures
        !lex_lt(a, b) ==> lex_le(b, a),
        lex_lt(a, b) ==> !lex_lt(b, a),
        lex_lt(a, b) || lex_lt(b, a) || a =~= b,
    decreases a.len(),
{
    if a.len() > 0 && b.len() > 0 && a[0] == b[0] {
        lemma_lex_total(a.drop_first(), b.drop_first());
        if a.drop_first() =~= b.drop_first() {
            assert(a =~= b) by {
                assert forall|i: int| 0 <= i < a.len() implies a[i] == b[i] by {
                    if i > 0 {
                        assert(a[i] == a.drop_first()[i - 1]);
                    }
                }
            }
        }
    }
}

pub proof fn lemma_lex_trans(a: Seq<char>, b: Seq<char>, c: Seq<char>)
    requires
        lex_le(a, b),
        lex_le(b, c),
    ensures
        lex_le(a, c),
    decreases a.len(),
{
    lemma_lex_total(a, b);
    lemma_lex_total(b, c);
    lemma_lex_total(a, c);
    if a.len() > 0 && b.len() > 0 && c.len() > 0 && a[0] == b[0] && b[0] == c[0] {
        lemma_lex_trans(a.drop_first(), b.drop_first(), c.drop_first());
    }
}

/// Whether `a` sorts strictly before `b`.
pub fn lex_lt_exec(a: &Vec<char>, b: &Vec<char>) -> (r: bool)
    ensures
        r == lex_lt(a@, b@),
{
    let mut i: usize = 0;
    assert(a@.subrange(0, a@.len() as int) =~= a@);
    assert(b@.subrange(0, b@.len() as int) =~= b@);
    while i < a.len() && i < b.len() && a[i] == b[i]
        invariant
            i <= a@.len(),
            i <= b@.len(),
            lex_lt(a@, b@) == lex_lt(a@.subrange(i as int, a@.len() as int), b@.subrange(
                i as int,
                b@.len() as int,
            )),
        decreases a@.len() - i,
    {
        assert(a@.subrange(i as int, a@.len() as int).drop_first() =~= a@.subrange(
            i as int + 1,
            a@.len() as int,
        ));
        assert(b@.subrange(i as int, b@.len() as int).drop_first() =~= b@.subrange(
            i as int + 1,
            b@.len() as int,
        ));
        i = i + 1;
    }
    proof {
        assert(a@.subrange(0, a@.len() as int) =~= a@);
        assert(b@.subrange(0, b@.len() as int) =~= b@);
    }
    if i == a.len() {
        i < b.len()
    } else if i == b.len() {
        false
    } else {
        a[i] < b[i]
    }
}

/// Inserts `x` into the sorted `v`, keeping it sorted.
fn insert_sorted(v: &mut Vec<Vec<char>>, x: Vec<char>)
    requires
        sorted_names(crate::text::views(old(v)@)),
    ensures
        sorted_names(crate::text::views(final(v)@)),
        crate::text::views(final(v)@).to_multiset() == crate::text::views(old(v)@).to_multiset().insert(
            x@,
        ),
{
    let ghost vs = crate::text::views(v@);
    let mut k: usize = 0;
    while k < v.len() && !lex_lt_exec(&x, &v[k])
        invariant
            vs == crate::text::views(v@),
            k <= v@.len(),
            forall|j: int| 0 <= j < k ==> lex_le(#[trigger] vs[j], x@),
        decreases v@.len() - k,
    {
        assert(vs[k as int] == v@[k as int]@);
        proof {
            lemma_lex_total(x@, vs[k as int]);
        }
        k = k + 1;
    }
    proof {
        if k < v@.len() {
            assert(vs[k as int] == v@[k as int]@);
            assert(lex_lt(x@, vs[k as int]));
            lemma_lex_total(x@, vs[k as int]);
        }
    }
    let ghost xv = x@;
    v.insert(k, x);
    proof {
        let ws = crate::text::views(v@);
        assert(ws =~= vs.insert(k as int, xv));
        assert forall|i: int, j: int| 0 <= i < j < ws.len() implies lex_le(ws[i], ws[j]) by {
            if j < k {
                assert(ws[i] == vs[i] && ws[j] == vs[j]);
            } else if j == k {
                assert(ws[i] == vs[i]);
            } else if i == k {
                assert(ws[j] == vs[j - 1]);
                assert(lex_le(xv, vs[k as int]));
                if j - 1 > k {
                    lemma_lex_trans(xv, vs[k as int], vs[j - 1]);
                }
            } else if i < k {
                assert(ws[i] == vs[i] && ws[j] == vs[j - 1]);
            } else {
                assert(ws[i] == vs[i - 1] && ws[j] == vs[j - 1]);
            }
        }
        broadcast use vstd::multiset::group_multiset_axioms;

        assert(ws.remove(k as int) =~= vs);
        ws.to_multiset_ensures();
        assert(ws[k as int] == xv);
        assert(ws.contains(xv));
        assert(ws.to_multiset() =~= vs.to_multiset().insert(xv));
    }
}

/// The names of the projects to drain, each once, in sorted order: those
/// that run or are in transition.
pub fn drain_order(services: &Vec<Service>) -> (r: Vec<String>)
    ensures
        sorted_names(string_seq_views(r@)),
        string_seq_views(r@).to_multiset() == drain_candidates(services@).to_multiset(),
{
    let mut chars: Vec<Vec<char>> = Vec::new();
    let mut i: usize = 0;
    assert(crate::text::views(chars@) =~= seq![]);
    assert(services@.subrange(0, 0) =~= seq![]);
    while i < services.len()
        invariant
            i <= services@.len(),
            sorted_names(crate::text::views(chars@)),
            crate::text::views(chars@).to_multiset() == drain_candidates(
                services@.subrange(0, i as int),
            ).to_multiset(),
        decreases services@.len() - i,
    {
        let busy = services[i].status == Status::Running || services[i].status.is_busy();
        proof {
            let next = services@.subrange(0, i as int + 1);
            assert(next.drop_last() =~= services@.subrange(0, i as int));
            assert(next.last() == services@[i as int]);
        }
        if busy {
            let name = chars_of(services[i].name.as_str());
            let ghost nv = name@;
            proof {
                let next = services@.subrange(0, i as int + 1);
                assert(drain_candidates(next) == drain_candidates(services@.subrange(0, i as int)).push(
                    nv,
                ));
                drain_candidates(services@.subrange(0, i as int)).to_multiset_ensures();
            }
            insert_sorted(&mut chars, name);
        }
        i = i + 1;
    }
    assert(services@.subrange(0, i as int) =~= services@);
    let mut out: Vec<String> = Vec::new();
    let mut k: usize = 0;
    while k < chars.len()
        invariant
            k <= chars@.len(),
            out@.len() == k,
            string_seq_views(out@) == crate::text::views(chars@).subrange(0, k as int),
        decreases chars@.len() - k,
    {
        let ghost prev = out@;
        let s = string_of(&chars[k]);
        out.push(s);
        assert(out@ == prev.push(s));
        assert(crate::text::views(chars@)[k as int] == chars@[k as int]@);
        assert(string_seq_views(out@)[k as int] == s@);
        assert(s@ == chars@[k as int]@);
        assert forall|j: int| 0 <= j < k implies string_seq_views(out@)[j] == string_seq_views(
            prev,
        )[j] by {
            assert(out@[j] == prev[j]);
        }
        k = k + 1;
        assert(string_seq_views(out@) =~= crate::text::views(chars@).subrange(0, k as int));
    }
    assert(crate::text::views(chars@).subrange(0, k as int) =~= crate::text::views(chars@));
    out
}

/// The names of the projects that need draining, in registry order.
pub open spec fn drain_candidates(services: Seq<Service>) -> Seq<Seq<char>>
    decreases services.len(),
{
    if services.len() == 0 {
        seq![]
    } else if needs_drain(services.last().status) {
        drain_candidates(services.drop_last()).push(services.last().name@)
    } else {
        drain_candidates(services.drop_last())
    }
}

/// Where a daemon action stands.
#[derive(Clone, Copy, Debug, PartialEq, Eq, Structural)]
pub enum RunState {
    /// Projects are being stopped, one at a time.
    Draining,
    /// The privileged command has been handed out.
    Issued,
    /// A project failed to stop; the action is abandoned.
    Aborted,
}

/// The next thing a daemon action asks for.
#[derive(Clone, Debug)]
pub enum DaemonStep {
    /// Stop this project, then report how it went with `drain_result`.
    StopProject(String),
    /// Run the privileged command, then wait for the expected state.
    RunPrivileged,
    /// Give up and report this; the privileged command is not run.
    Abort(String),
    /// Nothing is left to do.
    Finished,
}

/// A daemon action in progress: the projects to drain first, in order, and
/// how far the drain has come.
#[derive(Clone, Debug)]
pub struct DaemonRun {
    pub action: DaemonAction,
    pub queue: Vec<String>,
    pub next: usize,
    pub state: RunState,
}

/// Why stopping project `name` failed.
pub open spec fn drain_error(name: Seq<char>, o: Outcome) -> Seq<char> {
    match o {
        Outcome::NotRun(e) => "Error stopping service "@ + name + ": "@ + e@,
        _ => "Failed to stop service "@ + name,
    }
}

/// The report of a drain that failed on `name`.
pub open spec fn drain_abort(name: Seq<char>, o: Outcome) -> Seq<char> {
    "Failed to stop services: "@ + drain_error(name, o)
}

pub open spec fn run_ok(r: DaemonRun) -> bool {
    r.next <= r.queue@.len() && (r.state == RunState::Issued ==> r.next == r.queue@.len())
}

fn drain_abort_message(name: &String, o: &Outcome) -> (r: String)
    ensures
        r@ == drain_abort(name@, *o),
        contains(r@, name@),
{
    let mut out: Vec<char> = Vec::new();
    push_str(&mut out, "Failed to stop services: ");
    let ghost at: int;
    match o {
        Outcome::NotRun(e) => {
            push_str(&mut out, "Error stopping service ");
            proof {
                at = out@.len() as int;
            }
            push_str(&mut out, name.as_str());
            push_str(&mut out, ": ");
            push_str(&mut out, e.as_str());
        },
        _ => {
            push_str(&mut out, "Failed to stop service ");
            proof {
                at = out@.len() as int;
            }
            push_str(&mut out, name.as_str());
        },
    }
    assert(out@ =~= drain_abort(name@, *o));
    assert(out@.subrange(at, at + name@.len()) =~= name@);
    assert(crate::text::occurs_at(out@, name@, at));
    string_of(&out)
}

impl DaemonRun {
    /// A daemon action that first stops the projects of `queue`, in order
    /// (none for a start).
    pub fn new(action: DaemonAction, queue: Vec<String>) -> (r: DaemonRun)
        ensures
            r.action == action,
            r.queue@ == (if drains_first(action) {
                queue@
            } else {
                seq![]
            }),
            r.next == 0,
            r.state == RunState::Draining,
            run_ok(r),
    {
        let q = if action.drains() {
            queue
        } else {
            Vec::new()
        };
        DaemonRun { action, queue: q, next: 0, state: RunState::Draining }
    }

    /// What to do now: stop the next project, or, once all are stopped,
    /// run the privileged command (once). An aborted action asks for
    /// nothing more.
    pub fn step(&mut self) -> (r: DaemonStep)
        requires
            run_ok(*old(self)),
        ensures
            run_ok(*final(self)),
            final(self).queue == old(self).queue,
            final(self).action == old(self).action,
            final(self).next == old(self).next,
            old(self).state == RunState::Aborted ==> r is Finished && final(self).state
                == RunState::Aborted,
            old(self).state == RunState::Issued ==> r is Finished && final(self).state
                == RunState::Issued,
            old(self).state == RunState::Draining && old(self).next < old(self).queue@.len() ==> (
            r matches DaemonStep::StopProject(n) && n@ == old(self).queue@[old(self).next as int]@)
                && final(self).state == RunState::Draining,
            old(self).state == RunState::Draining && old(self).next == old(self).queue@.len()
                ==> r is RunPrivileged && final(self).state == RunState::Issued,
            r is RunPrivileged ==> old(self).state == RunState::Draining && old(self).next
                == old(self).queue@.len(),
    {
        match self.state {
            RunState::Draining => {
                if self.next < self.queue.len() {
                    DaemonStep::StopProject(self.queue[self.next].clone())
                } else {
                    self.state = RunState::Issued;
                    DaemonStep::RunPrivileged
                }
            },
            _ => DaemonStep::Finished,
        }
    }

    /// How stopping the project that `step` named went. A failure aborts the
    /// whole action with a report that names the project; the privileged
    /// command is then never asked for. A success moves on to the next step.
    pub fn drain_result(&mut self, outcome: &Outcome) -> (r: DaemonStep)
        requires
            run_ok(*old(self)),
            old(self).state == RunState::Draining,
            old(self).next < old(self).queue@.len(),
        ensures
            run_ok(*final(self)),
            final(self).queue == old(self).queue,
            !(*outcome is Succeeded) ==> (r matches DaemonStep::Abort(m) && m@ == drain_abort(
                old(self).queue@[old(self).next as int]@,
                *outcome,
            ) && contains(m@, old(self).queue@[old(self).next as int]@)) && final(self).state
                == RunState::Aborted && final(self).next == old(self).next,
            *outcome is Succeeded ==> final(self).next == old(self).next + 1 && (if final(self).next < final(self).queue@.len() {
                (r matches DaemonStep::StopProject(n) && n@ == final(self).queue@[final(self).next as int]@) && final(self).state == RunState::Draining
            } else {
                r is RunPrivileged && final(self).state == RunState::Issued
            }),
    {
        match outcome {
            Outcome::Succeeded => {
                let n = self.queue.len();
                assert(self.next < n);
                self.next = self.next + 1;
                self.step()
            },
            _ => {
                self.state = RunState::Aborted;
                DaemonStep::Abort(drain_abort_message(&self.queue[self.next], outcome))
            },
        }
    }

    /// How many projects were stopped.
    pub fn drained(&self) -> (r: usize)
        ensures
            r == self.next,
    {
        self.next
    }
}

} // verus!
