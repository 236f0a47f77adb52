//! Reading the engine's status queries: the one-project query and the
//! fleet-wide batch query, plus the allow-list for project names.
use vstd::prelude::*;
use vstd::string::*;
use crate::status::Status;
use crate::text::{
    chars_of, eq_chars, is_ascii_alnum, split_all, split_chars, starts_with, starts_with_exec, trim,
    trim_chars, views, CharClass,
};

verus! {

/// Whether a character is a letter or a digit, as `char::is_alphanumeric`
/// decides (Unicode `Alphabetic` or `Numeric`).
pub uninterp spec fn alnum_of(c: char) -> bool;

/// Relies on `char::is_alphanumeric`: the answer depends on the character
/// alone; ASCII letters and digits are alphanumeric, other ASCII characters
/// are not.
#[verifier::external_body]
fn is_alphanumeric(c: char) -> (r: bool)
    ensures
        r == alnum_of(c),
        is_ascii_alnum(c) ==> r,
        (c as u32) < 128 && !is_ascii_alnum(c) ==> !r,
{
    c.is_alphanumeric()
}

/// A project name that is safe to pass on: letters, digits, `-` and `_`
/// only.
pub open spec fn valid_name(s: Seq<char>) -> bool {
    forall|i: int| 0 <= i < s.len() ==> name_char(#[trigger] s[i])
}

/// A character allowed in a project name: an ASCII letter or digit, `-` or
/// `_`, or a letter or digit outside ASCII.
pub open spec fn name_char(c: char) -> bool {
    if (c as u32) < 128 {
        is_ascii_alnum(c) || c == '-' || c == '_'
    } else {
        alnum_of(c)
    }
}

/// Whether `name` is on the allow-list of project names.
pub fn validate_service_name(name: &str) -> (r: bool)
    ensures
        r == valid_name(name@),
{
    let cs = chars_of(name);
    let mut i: usize = 0;
    while i < cs.len()
        invariant
            cs@ == name@,
            i <= cs@.len(),
            forall|j: int| 0 <= j < i ==> name_char(#[trigger] cs@[j]),
        decreases cs@.len() - i,
    {
        let c = cs[i];
        let ok = is_alphanumeric(c) || c == '-' || c == '_';
        if !ok {
            return false;
        }
        i = i + 1;
    }
    true
}

/// A `<name>\t<status>...` line whose status says the container is up.
pub open spec fn line_is_up(line: Seq<char>) -> bool {
    let f = split_all(line, '\t');
    f.len() >= 2 && starts_with(f[1], "Up"@)
}

/// A `<name>\t<status>\t<project>` line that says a container of `project`
/// is up.
pub open spec fn line_up_for(line: Seq<char>, project: Seq<char>) -> bool {
    let f = split_all(line, '\t');
    f.len() >= 3 && f[2] == project && starts_with(f[1], "Up"@)
}

/// The status that a one-project query reports: `Error` when the query
/// failed, `Running` when some container is up, else `Stopped`.
pub open spec fn project_status(out: Option<Seq<char>>) -> Status {
    match out {
        None => Status::Error,
        Some(o) => {
            let ls = split_all(trim(o), '\n');
            if trim(o).len() > 0 && exists|k: int| 0 <= k < ls.len() && line_is_up(#[trigger] ls[k]) {
                Status::Running
            } else {
                Status::Stopped
            }
        },
    }
}

/// The status of project `name` in the output of the batch query: `Error`
/// for a name off the allow-list or when the query failed, `Running` when a
/// container of the project is up, else `Stopped`.
pub open spec fn batch_status(name: Seq<char>, out: Option<Seq<char>>) -> Status {
    if !valid_name(name) {
        Status::Error
    } else {
        match out {
            None => Status::Error,
            Some(o) => {
                let ls = split_all(o, '\n');
                if exists|k: int| 0 <= k < ls.len() && line_up_for(#[trigger] ls[k], name) {
                    Status::Running
                } else {
                    Status::Stopped
                }
            },
        }
    }
}

pub open spec fn opt_str_view(o: Option<&str>) -> Option<Seq<char>> {
    match o {
        Some(s) => Some(s@),
        None => None,
    }
}

/// Whether the output of `compose ps` shows a container that is up.
pub fn ps_shows_up(output: &str) -> (r: bool)
    ensures
        r == crate::text::contains(output@, "Up"@),
{
    crate::text::contains_exec(&chars_of(output), &chars_of("Up"))
}

/// Whether `s` starts with `Up`.
fn starts_up(s: &Vec<char>) -> (r: bool)
    ensures
        r == starts_with(s@, "Up"@),
{
    starts_with_exec(s, &chars_of("Up"))
}

/// Reads the output of the engine's status queries.
pub struct DockerClient;

impl DockerClient {
    /// The status that the output of a one-project query reports; `None`
    /// stands for a query that could not run.
    pub fn status_from_ps(output: Option<&str>) -> (r: Status)
        ensures
            r == project_status(opt_str_view(output)),
    {
        match output {
            None => Status::Error,
            Some(o) => {
                let t = trim_chars(&chars_of(o), CharClass::Space);
                if t.len() == 0 {
                    return Status::Stopped;
                }
                let ls = split_chars(&t, '\n');
                let ghost vs = views(ls@);
                let mut k: usize = 0;
                while k < ls.len()
                    invariant
                        vs == views(ls@),
                        vs == split_all(t@, '\n'),
                        t@ == trim(o@),
                        t@.len() > 0,
                        output == Some(o),
                        k <= ls@.len(),
                        forall|j: int| 0 <= j < k ==> !line_is_up(#[trigger] vs[j]),
                    decreases ls@.len() - k,
                {
                    let line = &ls[k];
                    assert(vs[k as int] == line@);
                    let f = split_chars(line, '\t');
                    if f.len() >= 2 && starts_up(&f[1]) {
                        assert(views(f@)[1] == f@[1]@);
                        assert(line_is_up(vs[k as int]));
                        assert(opt_str_view(output) == Some(o@));
                        assert(project_status(Some(o@)) == Status::Running);
                        return Status::Running;
                    }
                    proof {
                        if f@.len() >= 2 {
                            assert(views(f@)[1] == f@[1]@);
                        }
                    }
                    k = k + 1;
                }
                Status::Stopped
            },
        }
    }

    /// The status of each project of `names`, in order, from one batch
    /// query's output; `None` stands for a query that could not run.
    pub fn batch_statuses_from_ps(names: &Vec<String>, output: Option<&str>) -> (r: Vec<Status>)
        ensures
            r@.len() == names@.len(),
            forall|i: int|
                0 <= i < names@.len() ==> r@[i] == batch_status(
                    #[trigger] names@[i]@,
                    opt_str_view(output),
                ),
    {
        let mut lines: Vec<Vec<char>> = Vec::new();
        let ghost mut vs: Seq<Seq<char>> = seq![];
        match output {
            Some(o) => {
                let cs = chars_of(o);
                lines = split_chars(&cs, '\n');
                proof {
                    vs = views(lines@);
                }
            },
            None => {},
        }
        let mut out: Vec<Status> = Vec::new();
        let mut i: usize = 0;
        while i < names.len()
            invariant
                i <= names@.len(),
                out@.len() == i,
                output matches Some(o) ==> vs == split_all(o@, '\n'),
                vs == views(lines@),
                forall|j: int|
                    0 <= j < i ==> out@[j] == batch_status(
                        #[trigger] names@[j]@,
                        opt_str_view(output),
                    ),
            decreases names@.len() - i,
        {
            let name = chars_of(names[i].as_str());
            let st = if !validate_service_name(names[i].as_str()) {
                Status::Error
            } else if output.is_none() {
                Status::Error
            } else {
                let mut found = false;
                let mut k: usize = 0;
                while k < lines.len()
                    invariant
                        vs == views(lines@),
                        k <= lines@.len(),
                        found == exists|j: int| 0 <= j < k && line_up_for(#[trigger] vs[j], name@),
                    decreases lines@.len() - k,
                {
                    let line = &lines[k];
                    assert(vs[k as int] == line@);
                    let mut up = false;
                    let f = split_chars(line, '\t');
                    if f.len() >= 3 {
                        assert(views(f@)[1] == f@[1]@ && views(f@)[2] == f@[2]@);
                        up = eq_chars(&f[2], &name) && starts_up(&f[1]);
                    }
                    assert(up == line_up_for(vs[k as int], name@));
                    found = found || up;
                    k = k + 1;
                }
                assert(vs.len() == lines@.len());
                assert(output matches Some(o) && vs == split_all(o@, '\n'));
                assert(found == (batch_status(names@[i as int]@, opt_str_view(output))
                    == Status::Running));
                if found {
                    Status::Running
                } else {
                    Status::Stopped
                }
            };
            out.push(st);
            i = i + 1;
        }
        out
    }
}

} // verus!
