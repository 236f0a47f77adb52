//! The engine's container-event stream: reading one event line, the status
//! that an event implies, and the lines written to a project's event log.
use vstd::prelude::*;
use vstd::string::*;
use crate::status::Status;
use crate::text::{
    ascii_lower, chars_of, ends_with, ends_with_exec, eq_chars, push_chars, push_str, split_all,
    split_chars, split_chars_n, split_n, split_tokens, starts_with, starts_with_exec, string_of,
    tokens, trim, trim_chars, views, CharClass,
};

verus! {

/// One event: what happened, to which project and container, and the exit
/// code that came with it (empty when none).
#[derive(Clone, Debug)]
pub struct ContainerEvent {
    pub action: String,
    pub project: String,
    pub container: String,
    pub exit_code: String,
}

impl ContainerEvent {
    /// Whether the event names no project but a container, whose labels are
    /// then to be looked up.
    pub fn needs_lookup(&self) -> (r: bool)
        ensures
            r == (self.project@.len() == 0 && self.container@.len() > 0),
    {
        self.project.as_str().unicode_len() == 0 && self.container.as_str().unicode_len() > 0
    }

    /// Settles the event's project: a labelled event keeps its label; an
    /// unlabelled one takes what the lookup of its container found. Returns
    /// whether the event has a project and is to be applied; one without is
    /// dropped.
    pub fn resolve(&mut self, looked_up: Option<String>) -> (r: bool)
        ensures
            old(self).project@.len() > 0 ==> r && *final(self) == *old(self),
            old(self).project@.len() == 0 ==> match looked_up {
                Some(p) => r == (old(self).container@.len() > 0 && p@.len() > 0) && (r ==> final(
                    self).project@ == p@),
                None => !r,
            },
            final(self).action == old(self).action,
            final(self).container == old(self).container,
            final(self).exit_code == old(self).exit_code,
    {
        if self.project.as_str().unicode_len() > 0 {
            return true;
        }
        if self.container.as_str().unicode_len() == 0 {
            return false;
        }
        match looked_up {
            Some(p) => {
                if p.as_str().unicode_len() == 0 {
                    false
                } else {
                    self.project = p;
                    true
                }
            },
            None => false,
        }
    }
}

/// The `i`-th tab-separated field, trimmed; empty when the line is shorter.
pub open spec fn field(parts: Seq<Seq<char>>, i: int) -> Seq<char> {
    if 0 <= i < parts.len() {
        trim(parts[i])
    } else {
        seq![]
    }
}

/// A template value, with the engine's "no value" placeholder read as empty.
pub open spec fn template_value(v: Seq<char>) -> Seq<char> {
    if v == "<no value>"@ {
        seq![]
    } else {
        v
    }
}

/// The fields of an event line `action\tproject\tcontainer\texit-code`, the
/// last field taking the rest of the line; `None` when the action is empty.
pub open spec fn parse_event(line: Seq<char>) -> Option<
    (Seq<char>, Seq<char>, Seq<char>, Seq<char>),
> {
    let p = split_n(line, '\t', 4);
    if field(p, 0).len() == 0 {
        None
    } else {
        Some((field(p, 0), template_value(field(p, 1)), field(p, 2), field(p, 3)))
    }
}

/// Whether `a` holds the characters of `lit`.
pub fn is_word(a: &Vec<char>, lit: &str) -> (r: bool)
    ensures
        r == (a@ == lit@),
{
    eq_chars(a, &chars_of(lit))
}

fn field_exec(parts: &Vec<Vec<char>>, i: usize) -> (r: Vec<char>)
    ensures
        r@ == field(views(parts@), i as int),
{
    if i < parts.len() {
        trim_chars(&parts[i], CharClass::Space)
    } else {
        Vec::new()
    }
}

/// Reads one line of the event stream.
pub fn parse_event_line(line: &str) -> (r: Option<ContainerEvent>)
    ensures
        match (r, parse_event(line@)) {
            (Some(e), Some((a, p, c, x))) => e.action@ == a && e.project@ == p && e.container@
                == c && e.exit_code@ == x,
            (None, None) => true,
            _ => false,
        },
{
    let parts = split_chars_n(&chars_of(line), '\t', 4);
    let action = field_exec(&parts, 0);
    if action.len() == 0 {
        return None;
    }
    let raw_project = field_exec(&parts, 1);
    let project = if is_word(&raw_project, "<no value>") {
        Vec::new()
    } else {
        raw_project
    };
    proof {
        if raw_project@ == "<no value>"@ {
            assert(project@ =~= seq![]);
        }
    }
    let container = field_exec(&parts, 2);
    let exit_code = field_exec(&parts, 3);
    Some(
        ContainerEvent {
            action: string_of(&action),
            project: string_of(&project),
            container: string_of(&container),
            exit_code: string_of(&exit_code),
        },
    )
}

/// The status that an event implies for a project now in `current`: `create`,
/// `restart` and `unpause` mean starting, `start` running, `stop`, `destroy`
/// and `pause` stopped; `die` and `kill` mean stopped when the project was
/// stopping or stopped or the exit code is `0`, else an error; a health check
/// means running when healthy and an error when unhealthy. Other actions
/// imply nothing.
pub open spec fn event_status(action: Seq<char>, current: Status, exit_code: Seq<char>) -> Option<
    Status,
> {
    if action == "create"@ || action == "restart"@ || action == "unpause"@ {
        Some(Status::Starting)
    } else if action == "start"@ {
        Some(Status::Running)
    } else if action == "stop"@ || action == "destroy"@ || action == "pause"@ {
        Some(Status::Stopped)
    } else if action == "die"@ || action == "kill"@ {
        if current == Status::Stopping || current == Status::Stopped || exit_code == "0"@ {
            Some(Status::Stopped)
        } else {
            Some(Status::Error)
        }
    } else if starts_with(action, "health_status: "@) {
        if ends_with(action, "unhealthy"@) {
            Some(Status::Error)
        } else if ends_with(action, "healthy"@) {
            Some(Status::Running)
        } else {
            None
        }
    } else {
        None
    }
}

/// Whether an event may move a project from `current` to `next`: a project
/// that is still pulling only moves on to running or to an error.
pub open spec fn event_may_apply(current: Status, next: Status) -> bool {
    current != Status::Pulling || next == Status::Running || next == Status::Error
}

/// The status that the event `(action, exit_code)` implies for a project now
/// in `current`.
pub fn status_for_event(action: &str, current: Status, exit_code: &str) -> (r: Option<Status>)
    ensures
        r == event_status(action@, current, exit_code@),
{
    let a = chars_of(action);
    if is_word(&a, "create") || is_word(&a, "restart") || is_word(&a, "unpause") {
        Some(Status::Starting)
    } else if is_word(&a, "start") {
        Some(Status::Running)
    } else if is_word(&a, "stop") || is_word(&a, "destroy") || is_word(&a, "pause") {
        Some(Status::Stopped)
    } else if is_word(&a, "die") || is_word(&a, "kill") {
        if current == Status::Stopping || current == Status::Stopped || is_word(
            &chars_of(exit_code),
            "0",
        ) {
            Some(Status::Stopped)
        } else {
            Some(Status::Error)
        }
    } else if starts_with_exec(&a, &chars_of("health_status: ")) {
        if ends_with_exec(&a, &chars_of("unhealthy")) {
            Some(Status::Error)
        } else if ends_with_exec(&a, &chars_of("healthy")) {
            Some(Status::Running)
        } else {
            None
        }
    } else {
        None
    }
}

/// A project that is stopping and sees its container die with exit code
/// `0` becomes stopped, not failed; the same holds for any exit code.
pub proof fn lemma_die_while_stopping(exit_code: Seq<char>)
    ensures
        event_status("die"@, Status::Stopping, exit_code) == Some(Status::Stopped),
        event_may_apply(Status::Stopping, Status::Stopped),
{
    reveal_strlit("die");
    reveal_strlit("create");
    reveal_strlit("restart");
    reveal_strlit("unpause");
    reveal_strlit("start");
    reveal_strlit("stop");
    reveal_strlit("destroy");
    reveal_strlit("pause");
    assert("die"@ != "create"@) by {
        assert("die"@[0] != "create"@[0]);
    }
    assert("die"@ != "restart"@) by {
        assert("die"@[0] != "restart"@[0]);
    }
    assert("die"@ != "unpause"@) by {
        assert("die"@[0] != "unpause"@[0]);
    }
    assert("die"@ != "start"@) by {
        assert("die"@[0] != "start"@[0]);
    }
    assert("die"@ != "stop"@) by {
        assert("die"@[0] != "stop"@[0]);
    }
    assert("die"@ != "destroy"@) by {
        assert("die"@[1] != "destroy"@[1]);
    }
    assert("die"@ != "pause"@) by {
        assert("die"@[0] != "pause"@[0]);
    }
}

/// Whether the action calls for a lookup of the container's addresses and
/// ports: `start`, `restart` and `unpause`.
pub open spec fn wants_runtime_details(action: Seq<char>) -> bool {
    action == "start"@ || action == "restart"@ || action == "unpause"@
}

pub fn needs_runtime_details(action: &str) -> (r: bool)
    ensures
        r == wants_runtime_details(action@),
{
    let a = chars_of(action);
    is_word(&a, "start") || is_word(&a, "restart") || is_word(&a, "unpause")
}

/// `[event] <scope> <action>` and a newline, the scope being the container,
/// or the project when the container is unnamed.
pub open spec fn event_line(project: Seq<char>, container: Seq<char>, action: Seq<char>) -> Seq<
    char,
> {
    "[event] "@ + (if container.len() == 0 {
        project
    } else {
        container
    }) + seq![' '] + action + seq!['\n']
}

/// The event-log line for one event.
pub fn event_log_line(project: &str, container: &str, action: &str) -> (r: String)
    ensures
        r@ == event_line(project@, container@, action@),
{
    let mut out: Vec<char> = Vec::new();
    push_str(&mut out, "[event] ");
    if container.unicode_len() == 0 {
        push_str(&mut out, project);
    } else {
        push_str(&mut out, container);
    }
    out.push(' ');
    push_str(&mut out, action);
    out.push('\n');
    proof {
        assert(out@ =~= event_line(project@, container@, action@));
    }
    string_of(&out)
}

/// The pieces of `toks` joined with `", "` between them.
pub open spec fn join_comma(toks: Seq<Seq<char>>) -> Seq<char>
    decreases toks.len(),
{
    if toks.len() == 0 {
        seq![]
    } else if toks.len() == 1 {
        toks[0]
    } else {
        join_comma(toks.drop_last()) + seq![',', ' '] + toks.last()
    }
}

/// The whitespace-separated words of `v`, joined with `", "`.
pub open spec fn comma_words(v: Seq<char>) -> Seq<char> {
    join_comma(tokens(v))
}

/// The words of `value` joined with `", "`.
pub fn normalize_whitespace(value: &str) -> (r: Vec<char>)
    ensures
        r@ == comma_words(value@),
{
    let toks = split_tokens(&chars_of(value));
    let ghost vs = views(toks@);
    let mut out: Vec<char> = Vec::new();
    let mut i: usize = 0;
    while i < toks.len()
        invariant
            vs == views(toks@),
            i <= toks@.len(),
            out@ == join_comma(vs.subrange(0, i as int)),
        decreases toks@.len() - i,
    {
        if i > 0 {
            out.push(',');
            out.push(' ');
        }
        push_chars(&mut out, &toks[i]);
        proof {
            let pre = vs.subrange(0, i as int);
            let next = vs.subrange(0, i as int + 1);
            assert(next.drop_last() =~= pre);
            assert(next.last() == toks@[i as int]@);
            if i == 0 {
                assert(pre =~= seq![]);
            }
        }
        i = i + 1;
    }
    assert(vs.subrange(0, i as int) =~= vs);
    out
}

/// Two strings equal but for the case of ASCII letters.
pub open spec fn eq_ignore_case(a: Seq<char>, b: Seq<char>) -> bool {
    ascii_lower(a) == ascii_lower(b)
}

fn eq_ignore_case_exec(a: &Vec<char>, lit: &str) -> (r: bool)
    ensures
        r == eq_ignore_case(a@, lit@),
{
    let b = chars_of(lit);
    if a.len() != b.len() {
        assert(ascii_lower(a@).len() != ascii_lower(b@).len());
        return false;
    }
    let mut i: usize = 0;
    while i < a.len()
        invariant
            a@.len() == b@.len(),
            b@ == lit@,
            i <= a@.len(),
            forall|j: int| 0 <= j < i ==> ascii_lower(a@)[j] == ascii_lower(b@)[j],
        decreases a@.len() - i,
    {
        if crate::text::lower_char_exec(a[i]) != crate::text::lower_char_exec(b[i]) {
            assert(ascii_lower(a@)[i as int] != ascii_lower(b@)[i as int]);
            return false;
        }
        i = i + 1;
    }
    assert(ascii_lower(a@) =~= ascii_lower(b@));
    true
}

/// A runtime value with its words joined by `", "`, or `fallback` when it is
/// empty or one of the engine's placeholders (`unknown`, `none`, `invalid IP`,
/// `<no value>`, in any case).
pub open spec fn runtime_value(v: Seq<char>, fallback: Seq<char>) -> Seq<char> {
    let n = comma_words(v);
    if n.len() == 0 || eq_ignore_case(n, "unknown"@) || eq_ignore_case(n, "none"@)
        || eq_ignore_case(n, "invalid, IP"@) || eq_ignore_case(n, "invalid IP"@)
        || eq_ignore_case(n, "<no, value>"@) || eq_ignore_case(n, "<no value>"@) {
        fallback
    } else {
        n
    }
}

/// `value` cleaned for the event log, `fallback` standing for a placeholder.
pub fn normalize_runtime_value(value: &str, fallback: &str) -> (r: Vec<char>)
    ensures
        r@ == runtime_value(value@, fallback@),
{
    let n = normalize_whitespace(value);
    if n.len() == 0 || eq_ignore_case_exec(&n, "unknown") || eq_ignore_case_exec(&n, "none")
        || eq_ignore_case_exec(&n, "invalid, IP") || eq_ignore_case_exec(&n, "invalid IP")
        || eq_ignore_case_exec(&n, "<no, value>") || eq_ignore_case_exec(&n, "<no value>") {
        chars_of(fallback)
    } else {
        n
    }
}

/// `[event] <container> runtime ips=[<ips>] ports=[<ports>]` and a newline.
pub open spec fn runtime_line(container: Seq<char>, ips: Seq<char>, ports: Seq<char>) -> Seq<
    char,
> {
    "[event] "@ + container + " runtime ips=["@ + ips + "] ports=["@ + ports + "]\n"@
}

pub open spec fn or_default(v: Option<Seq<char>>, d: Seq<char>) -> Seq<char> {
    match v {
        Some(s) => s,
        None => d,
    }
}

pub open spec fn opt_string_view(v: Option<String>) -> Option<Seq<char>> {
    match v {
        Some(s) => Some(s@),
        None => None,
    }
}

/// The runtime-detail line for a container, from the looked-up addresses and
/// ports (`None` when a lookup gave nothing); `None` for an unnamed container.
pub fn runtime_details_line(container: &str, ips: Option<String>, ports: Option<String>) -> (r:
    Option<String>)
    ensures
        match r {
            Some(s) => container@.len() > 0 && s@ == runtime_line(
                container@,
                runtime_value(or_default(opt_string_view(ips), "unknown"@), "pending"@),
                runtime_value(or_default(opt_string_view(ports), "none"@), "none"@),
            ),
            None => container@.len() == 0,
        },
{
    if container.unicode_len() == 0 {
        return None;
    }
    let ip_text = match ips {
        Some(s) => s,
        None => String::from_str("unknown"),
    };
    let port_text = match ports {
        Some(s) => s,
        None => String::from_str("none"),
    };
    let ip_clean = normalize_runtime_value(ip_text.as_str(), "pending");
    let port_clean = normalize_runtime_value(port_text.as_str(), "none");
    let mut out: Vec<char> = Vec::new();
    push_str(&mut out, "[event] ");
    push_str(&mut out, container);
    push_str(&mut out, " runtime ips=[");
    push_chars(&mut out, &ip_clean);
    push_str(&mut out, "] ports=[");
    push_chars(&mut out, &port_clean);
    push_str(&mut out, "]\n");
    proof {
        assert(out@ =~= runtime_line(container@, ip_clean@, port_clean@));
    }
    Some(string_of(&out))
}

/// What an inspection printed, trimmed; `None` when it failed or printed
/// nothing.
pub open spec fn inspect_value(out: Option<Seq<char>>) -> Option<Seq<char>> {
    match out {
        Some(o) if trim(o).len() > 0 => Some(trim(o)),
        _ => None,
    }
}

/// The value that an inspection of a container gave, if any.
pub fn inspect_field_value(output: Option<&str>) -> (r: Option<String>)
    ensures
        opt_string_view(r) == inspect_value(crate::probe::opt_str_view(output)),
{
    match output {
        Some(o) => {
            let t = trim_chars(&chars_of(o), CharClass::Space);
            if t.len() == 0 {
                None
            } else {
                Some(string_of(&t))
            }
        },
        None => None,
    }
}

/// The non-empty trimmed lines of a container listing.
pub open spec fn listed_names(lines: Seq<Seq<char>>) -> Seq<Seq<char>>
    decreases lines.len(),
{
    if lines.len() == 0 {
        seq![]
    } else if trim(lines.last()).len() == 0 {
        listed_names(lines.drop_last())
    } else {
        listed_names(lines.drop_last()).push(trim(lines.last()))
    }
}

pub open spec fn string_views(v: Seq<String>) -> Seq<Seq<char>> {
    v.map_values(|s: String| s@)
}

/// The container names that a listing printed, one per line; none when the
/// listing failed.
pub fn container_names(output: Option<&str>) -> (r: Vec<String>)
    ensures
        string_views(r@) == match output {
            Some(o) => listed_names(split_all(o@, '\n')),
            None => seq![],
        },
{
    let mut out: Vec<String> = Vec::new();
    match output {
        None => {
            assert(string_views(out@) =~= seq![]);
            out
        },
        Some(o) => {
            let ls = split_chars(&chars_of(o), '\n');
            let ghost vs = views(ls@);
            let mut i: usize = 0;
            while i < ls.len()
                invariant
                    vs == views(ls@),
                    i <= ls@.len(),
                    string_views(out@) == listed_names(vs.subrange(0, i as int)),
                decreases ls@.len() - i,
            {
                let t = trim_chars(&ls[i], CharClass::Space);
                proof {
                    let next = vs.subrange(0, i as int + 1);
                    assert(next.drop_last() =~= vs.subrange(0, i as int));
                    assert(next.last() == ls@[i as int]@);
                }
                if t.len() > 0 {
                    let s = string_of(&t);
                    out.push(s);
                    proof {
                        assert(string_views(out@) =~= listed_names(vs.subrange(0, i as int + 1)));
                    }
                }
                i = i + 1;
            }
            assert(vs.subrange(0, i as int) =~= vs);
            out
        },
    }
}

} // verus!
