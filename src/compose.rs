//! A project's compose directory: the arguments of the compose commands
//! run in it, and what its compose file says about images and services.
use vstd::prelude::*;
use vstd::string::*;
use crate::daemon::string_seq_views;
use crate::text::{push_str, string_of};

verus! {

#[verifier::external_type_specification]
#[verifier::external_body]
pub struct ExYamlValue(serde_yaml::Value);

#[verifier::external_type_specification]
#[verifier::external_body]
pub struct ExYamlMapping(serde_yaml::Mapping);

/// The document that `serde_yaml::from_str` reads from a text, if it parses.
pub uninterp spec fn yaml_parsed(text: Seq<char>) -> Option<serde_yaml::Value>;

/// The value under a string key of a YAML mapping, if any.
pub uninterp spec fn yaml_field(v: serde_yaml::Value, key: Seq<char>) -> Option<serde_yaml::Value>;

/// The mapping that a YAML value is, if it is one.
pub uninterp spec fn yaml_as_mapping(v: serde_yaml::Value) -> Option<serde_yaml::Mapping>;

/// The entries of a YAML mapping, in document order.
pub uninterp spec fn yaml_mapping_entries(m: serde_yaml::Mapping) -> Seq<
    (serde_yaml::Value, serde_yaml::Value),
>;

/// The text of a YAML value that is a string.
pub uninterp spec fn yaml_text_of(v: serde_yaml::Value) -> Option<Seq<char>>;

/// Relies on `serde_yaml::from_str::<serde_yaml::Value>`: the YAML document
/// of `text`, or `None` when it does not parse; it depends on the text alone.
#[verifier::external_body]
fn parse_yaml(text: &str) -> (r: Option<serde_yaml::Value>)
    ensures
        r == yaml_parsed(text@),
{
    serde_yaml::from_str::<serde_yaml::Value>(text).ok()
}

/// Relies on `serde_yaml::Value::get` with a string key: the value under
/// `key` when `v` is a mapping that has it.
#[verifier::external_body]
fn yaml_get<'a>(v: &'a serde_yaml::Value, key: &str) -> (r: Option<&'a serde_yaml::Value>)
    ensures
        match r {
            Some(x) => yaml_field(*v, key@) == Some(*x),
            None => yaml_field(*v, key@) is None,
        },
{
    v.get(key)
}

/// Relies on `serde_yaml::Value::as_mapping`: the mapping that `v` is, if
/// it is one.
#[verifier::external_body]
fn yaml_mapping<'a>(v: &'a serde_yaml::Value) -> (r: Option<&'a serde_yaml::Mapping>)
    ensures
        match r {
            Some(m) => yaml_as_mapping(*v) == Some(*m),
            None => yaml_as_mapping(*v) is None,
        },
{
    v.as_mapping()
}

/// Relies on `serde_yaml::Mapping::iter`: the entries of the mapping, in
/// the order of the document.
#[verifier::external_body]
fn yaml_entries<'a>(m: &'a serde_yaml::Mapping) -> (r: Vec<
    (&'a serde_yaml::Value, &'a serde_yaml::Value),
>)
    ensures
        r@.len() == yaml_mapping_entries(*m).len(),
        forall|i: int|
            0 <= i < r@.len() ==> *(#[trigger] r@[i]).0 == yaml_mapping_entries(*m)[i].0 && *r@[i].1
                == yaml_mapping_entries(*m)[i].1,
{
    m.iter().collect()
}

/// Relies on `serde_yaml::Value::as_str`: the text of `v` when it is a
/// string.
#[verifier::external_body]
fn yaml_str(v: &serde_yaml::Value) -> (r: Option<String>)
    ensures
        crate::events::opt_string_view(r) == yaml_text_of(*v),
{
    v.as_str().map(|s| s.to_string())
}

/// One `services` entry as the compose file gives it: the key's text and
/// the text under its `image` key.
pub open spec fn service_entry(e: (serde_yaml::Value, serde_yaml::Value)) -> (
    Option<Seq<char>>,
    Option<Seq<char>>,
) {
    (
        yaml_text_of(e.0),
        match yaml_field(e.1, "image"@) {
            Some(img) => yaml_text_of(img),
            None => None,
        },
    )
}

/// The entries of the `services` mapping of a compose file, in order; `None`
/// when the text is not YAML or has no `services` mapping.
pub open spec fn compose_entries(text: Seq<char>) -> Option<
    Seq<(Option<Seq<char>>, Option<Seq<char>>)>,
> {
    match yaml_parsed(text) {
        None => None,
        Some(doc) => match yaml_field(doc, "services"@) {
            None => None,
            Some(sv) => match yaml_as_mapping(sv) {
                None => None,
                Some(m) => Some(
                    yaml_mapping_entries(m).map_values(
                        |e: (serde_yaml::Value, serde_yaml::Value)| service_entry(e),
                    ),
                ),
            },
        },
    }
}

pub open spec fn entry_views(v: Seq<(Option<String>, Option<String>)>) -> Seq<
    (Option<Seq<char>>, Option<Seq<char>>),
> {
    v.map_values(
        |e: (Option<String>, Option<String>)|
            (crate::events::opt_string_view(e.0), crate::events::opt_string_view(e.1)),
    )
}

/// The services of a compose file, in order, each with its name (when the
/// key is a string) and its image (when it names one); `None` when the
/// text is not YAML with a `services` mapping.
pub fn compose_services(text: &str) -> (r: Option<Vec<(Option<String>, Option<String>)>>)
    ensures
        match r {
            Some(v) => compose_entries(text@) == Some(entry_views(v@)),
            None => compose_entries(text@) is None,
        },
{
    let doc = match parse_yaml(text) {
        Some(d) => d,
        None => return None,
    };
    let services = match yaml_get(&doc, "services") {
        Some(s) => s,
        None => return None,
    };
    let mapping = match yaml_mapping(services) {
        Some(m) => m,
        None => return None,
    };
    let entries = yaml_entries(mapping);
    let ghost es = yaml_mapping_entries(*mapping);
    let mut out: Vec<(Option<String>, Option<String>)> = Vec::new();
    let mut i: usize = 0;
    while i < entries.len()
        invariant
            es == yaml_mapping_entries(*mapping),
            entries@.len() == es.len(),
            forall|k: int|
                0 <= k < entries@.len() ==> *(#[trigger] entries@[k]).0 == es[k].0 && *entries@[k].1
                    == es[k].1,
            i <= entries@.len(),
            entry_views(out@) == es.subrange(0, i as int).map_values(
                |e: (serde_yaml::Value, serde_yaml::Value)| service_entry(e),
            ),
        decreases entries@.len() - i,
    {
        let (key, def) = entries[i];
        assert(*key == es[i as int].0 && *def == es[i as int].1);
        let name = yaml_str(key);
        let image = match yaml_get(def, "image") {
            Some(v) => yaml_str(v),
            None => None,
        };
        assert((crate::events::opt_string_view(name), crate::events::opt_string_view(image))
            == service_entry(es[i as int]));
        let ghost prev = out@;
        out.push((name, image));
        proof {
            assert(*entries@[i as int].0 == es[i as int].0);
            assert(entry_views(out@) =~= es.subrange(0, i as int + 1).map_values(
                |e: (serde_yaml::Value, serde_yaml::Value)| service_entry(e),
            )) by {
                let f = |e: (serde_yaml::Value, serde_yaml::Value)| service_entry(e);
                assert(out@ == prev.push((name, image)));
                assert(entry_views(prev).len() == i);
                let lhs = entry_views(out@);
                let rhs = es.subrange(0, i as int + 1).map_values(f);
                assert(lhs.len() == rhs.len());
                assert forall|k: int| 0 <= k < lhs.len() implies lhs[k] == rhs[k] by {
                    if k < i {
                        assert(out@[k] == prev[k]);
                        assert(entry_views(prev)[k] == es.subrange(0, i as int).map_values(f)[k]);
                        assert(es.subrange(0, i as int)[k] == es.subrange(0, i as int + 1)[k]);
                    } else {
                        assert(out@[k] == (name, image));
                    }
                }
            }
        }
        i = i + 1;
    }
    assert(es.subrange(0, i as int) =~= es);
    Some(out)
}

pub open spec fn opt_views(v: Seq<Option<String>>) -> Seq<Option<Seq<char>>> {
    v.map_values(|o: Option<String>| crate::events::opt_string_view(o))
}

/// The images named by `services`, in order.
pub open spec fn named_images(services: Seq<(Option<String>, Option<String>)>) -> Seq<Seq<char>>
    decreases services.len(),
{
    if services.len() == 0 {
        seq![]
    } else {
        let rest = named_images(services.drop_last());
        match services.last().1 {
            Some(img) => rest.push(img@),
            None => rest,
        }
    }
}

/// The images whose presence decides whether a pull can be skipped; `None`
/// when the compose file could not be read, which always calls for a pull.
pub fn images_to_check(services: &Option<Vec<(Option<String>, Option<String>)>>) -> (r: Option<
    Vec<String>,
>)
    ensures
        match (services, r) {
            (Some(s), Some(v)) => string_seq_views(v@) == named_images(s@),
            (None, None) => true,
            _ => false,
        },
{
    match services {
        None => None,
        Some(s) => {
            let mut out: Vec<String> = Vec::new();
            let mut i: usize = 0;
            while i < s.len()
                invariant
                    i <= s@.len(),
                    string_seq_views(out@) == named_images(s@.subrange(0, i as int)),
                decreases s@.len() - i,
            {
                proof {
                    let next = s@.subrange(0, i as int + 1);
                    assert(next.drop_last() =~= s@.subrange(0, i as int));
                }
                match &s[i].1 {
                    Some(img) => {
                        let ghost prev = out@;
                        out.push(img.clone());
                        assert(string_seq_views(out@) =~= string_seq_views(prev).push(img@));
                    },
                    None => {},
                }
                i = i + 1;
            }
            assert(s@.subrange(0, s@.len() as int) =~= s@);
            Some(out)
        },
    }
}

/// Whether the images must be pulled: always when the compose file could
/// not be read, else unless every named image is present (`present` holding
/// the answers for `images_to_check`, in order).
pub fn pull_needed(images: &Option<Vec<String>>, present: &Vec<bool>) -> (r: bool)
    ensures
        match images {
            None => r,
            Some(v) => r == (v@.len() != present@.len() || exists|i: int|
                0 <= i < present@.len() && !#[trigger] present@[i]),
        },
{
    match images {
        None => true,
        Some(v) => {
            if v.len() != present.len() {
                return true;
            }
            let mut i: usize = 0;
            while i < present.len()
                invariant
                    i <= present@.len(),
                    forall|j: int| 0 <= j < i ==> #[trigger] present@[j],
                decreases present@.len() - i,
            {
                if !present[i] {
                    return true;
                }
                i = i + 1;
            }
            false
        },
    }
}

/// The log shown for a project found already up at startup: its network
/// and each of its services as running; empty when the compose file could
/// not be read.
pub open spec fn up_summary(project: Seq<char>, names: Option<Seq<Seq<char>>>) -> Seq<char> {
    match names {
        None => seq![],
        Some(ns) => "Up output:\nNetwork "@ + project + "_default Running\n"@ + container_lines(ns),
    }
}

pub open spec fn container_lines(ns: Seq<Seq<char>>) -> Seq<char>
    decreases ns.len(),
{
    if ns.len() == 0 {
        seq![]
    } else {
        container_lines(ns.drop_last()) + "Container "@ + ns.last() + " Running\n"@
    }
}

/// The names of `services` that are strings, in order.
pub open spec fn service_names(services: Seq<(Option<String>, Option<String>)>) -> Seq<Seq<char>>
    decreases services.len(),
{
    if services.len() == 0 {
        seq![]
    } else {
        let rest = service_names(services.drop_last());
        match services.last().0 {
            Some(n) => rest.push(n@),
            None => rest,
        }
    }
}

pub open spec fn opt_service_names(services: Option<Seq<(Option<String>, Option<String>)>>) -> Option<
    Seq<Seq<char>>,
> {
    match services {
        Some(s) => Some(service_names(s)),
        None => None,
    }
}

pub open spec fn opt_vec_view<T>(v: &Option<Vec<T>>) -> Option<Seq<T>> {
    match v {
        Some(x) => Some(x@),
        None => None,
    }
}

/// The startup log of project `project`, from its compose file's services.
pub fn initial_up_text(project: &str, services: &Option<Vec<(Option<String>, Option<String>)>>) -> (r:
    String)
    ensures
        r@ == up_summary(project@, opt_service_names(opt_vec_view(services))),
{
    let mut out: Vec<char> = Vec::new();
    match services {
        None => {},
        Some(s) => {
            push_str(&mut out, "Up output:\nNetwork ");
            push_str(&mut out, project);
            push_str(&mut out, "_default Running\n");
            let ghost head = out@;
            let mut i: usize = 0;
            while i < s.len()
                invariant
                    i <= s@.len(),
                    out@ == head + container_lines(service_names(s@.subrange(0, i as int))),
                decreases s@.len() - i,
            {
                proof {
                    let next = s@.subrange(0, i as int + 1);
                    assert(next.drop_last() =~= s@.subrange(0, i as int));
                }
                match &s[i].0 {
                    Some(n) => {
                        push_str(&mut out, "Container ");
                        push_str(&mut out, n.as_str());
                        push_str(&mut out, " Running\n");
                        proof {
                            let ns = service_names(s@.subrange(0, i as int + 1));
                            assert(ns.drop_last() =~= service_names(s@.subrange(0, i as int)));
                        }
                    },
                    None => {},
                }
                assert(out@ =~= head + container_lines(service_names(s@.subrange(0, i as int + 1))));
                i = i + 1;
            }
            assert(s@.subrange(0, s@.len() as int) =~= s@);
        },
    }
    assert(out@ =~= up_summary(project@, opt_service_names(opt_vec_view(services))));
    string_of(&out)
}

/// A project's compose directory.
#[derive(Clone, Debug)]
pub struct ComposeProject {
    pub dir: String,
}

impl ComposeProject {
    /// The directory of project `name`: `containers/<name>`.
    pub fn new(name: &str) -> (r: ComposeProject)
        ensures
            r.dir@ == "containers/"@ + name@,
    {
        let mut dir = String::from_str("containers/");
        dir.append(name);
        ComposeProject { dir }
    }

    /// The path of the compose file.
    pub fn compose_file(&self) -> (r: String)
        ensures
            r@ == self.dir@ + "/docker-compose.yml"@,
    {
        let mut p = self.dir.clone();
        p.append("/docker-compose.yml");
        p
    }

    /// `compose pull`.
    pub fn pull_args(&self) -> (r: Vec<String>)
        ensures
            string_seq_views(r@) == seq!["compose"@, "pull"@],
    {
        let r = vec![String::from_str("compose"), String::from_str("pull")];
        assert(string_seq_views(r@) =~= seq!["compose"@, "pull"@]);
        r
    }

    /// `compose up -d`.
    pub fn up_detached_args(&self) -> (r: Vec<String>)
        ensures
            string_seq_views(r@) == seq!["compose"@, "up"@, "-d"@],
    {
        let r = vec![String::from_str("compose"), String::from_str("up"), String::from_str("-d")];
        assert(string_seq_views(r@) =~= seq!["compose"@, "up"@, "-d"@]);
        r
    }

    /// `compose down`.
    pub fn down_args(&self) -> (r: Vec<String>)
        ensures
            string_seq_views(r@) == seq!["compose"@, "down"@],
    {
        let r = vec![String::from_str("compose"), String::from_str("down")];
        assert(string_seq_views(r@) =~= seq!["compose"@, "down"@]);
        r
    }

    /// `compose ps`.
    pub fn ps_args(&self) -> (r: Vec<String>)
        ensures
            string_seq_views(r@) == seq!["compose"@, "ps"@],
    {
        let r = vec![String::from_str("compose"), String::from_str("ps")];
        assert(string_seq_views(r@) =~= seq!["compose"@, "ps"@]);
        r
    }

    /// `compose logs -f --tail=100`.
    pub fn logs_follow_args(&self) -> (r: Vec<String>)
        ensures
            string_seq_views(r@) == seq!["compose"@, "logs"@, "-f"@, "--tail=100"@],
    {
        let r = vec![
            String::from_str("compose"),
            String::from_str("logs"),
            String::from_str("-f"),
            String::from_str("--tail=100"),
        ];
        assert(string_seq_views(r@) =~= seq!["compose"@, "logs"@, "-f"@, "--tail=100"@]);
        r
    }
}

} // verus!
