//! User-defined regex managers: dependencies found by a configured pattern with
//! the named groups `depName`, `currentValue` and optionally `registryUrl`.
use vstd::prelude::*;

use crate::config::known_datasource;
use crate::config::unit_result_view;
use crate::config::validate_spec;
use crate::config::RegexManagerConfig;
use crate::config::RegexManagerConfigView;
use crate::error::ReforgeError;
use crate::error::ReforgeErrorView;
use crate::manager::deps_view;
use crate::manager::Dependency;
use crate::manager::DependencyView;
use crate::manager::PackageManager;
use crate::manager::RegistrySource;
use crate::manager::RegistrySourceView;
use crate::manager::UpdateContext;
use crate::manager::UpdateContextView;
use crate::regexp::captures_all;
use crate::regexp::compile_dotall;
use crate::regexp::regex_all_captures;
use crate::regexp::regex_build_error;
use crate::regexp::CompiledRegex;
use crate::text::chars_eq;
use crate::text::chars_of;
use crate::text::ends_with;
use crate::text::ends_with_spec;
use crate::text::find_sub;
use crate::text::find_sub_in;
use crate::text::push_text;
use crate::text::rfind_char;
use crate::text::rfind_spec;
use crate::text::slice_of;
use crate::text::split_chars;
use crate::text::split_spec;
use crate::text::starts_with;
use crate::text::starts_with_spec;
use crate::text::string_of;
use crate::text::strings_view;
use crate::text::trim_end_char;
use crate::text::trim_end_char_in;
use crate::text::trim_start_str;
use crate::text::trim_start_str_in;
use crate::text::vecs_view;

verus! {

/// A dependency manager driven by a configured regular expression.
#[derive(Debug)]
pub struct RegexManager {
    config: RegexManagerConfig,
    pattern: CompiledRegex,
}

/// The groups read from each match.
pub open spec fn regex_group_list() -> Seq<Seq<char>> {
    seq!["depName"@, "currentValue"@, "registryUrl"@]
}

impl RegexManager {
    #[verifier::type_invariant]
    spec fn well_formed(self) -> bool {
        &&& known_datasource(self.config@.datasource)
        &&& self.pattern.pattern_text() == self.config@.match_pattern
        &&& self.pattern.is_dotall()
    }

    /// The configuration this manager was built from.
    pub closed spec fn config_view(&self) -> RegexManagerConfigView {
        self.config@
    }

    /// A manager for a configuration: the configuration must validate and its
    /// pattern compile in multi-line mode with `.` matching newlines.
    pub fn new(config: RegexManagerConfig) -> (r: Result<Self, ReforgeError>)
        ensures
            match r {
                Ok(m) => m.config_view() == config@ && validate_spec(config@) is Ok && regex_build_error(
                    config@.match_pattern,
                ) is None,
                Err(e) => match validate_spec(config@) {
                    Err(ve) => e@ == ve,
                    Ok(()) => regex_build_error(config@.match_pattern) is Some && e@ == ReforgeErrorView::Config(
                        "regex_manager '"@ + config@.name + "': failed to compile pattern: "@ + regex_build_error(
                            config@.match_pattern,
                        )->0,
                    ),
                },
            },
    {
        match config.validate() {
            Ok(()) => {},
            Err(e) => {
                return Err(e);
            },
        }
        let pattern = match compile_dotall(config.match_pattern.as_str()) {
            Ok(p) => p,
            Err(e) => {
                let mut m = chars_of("regex_manager '");
                push_text(&mut m, config.name.as_str());
                push_text(&mut m, "': failed to compile pattern: ");
                push_text(&mut m, e.as_str());
                return Err(ReforgeError::Config(string_of(&m)));
            },
        };
        Ok(RegexManager { config, pattern })
    }
}

/// The registry a match points at: the captured URL without trailing `/`, else
/// the configured one.
pub open spec fn effective_registry(c: RegexManagerConfigView, captured: Option<Seq<char>>) -> Option<Seq<char>> {
    match captured {
        Some(u) => Some(trim_end_char(u, '/')),
        None => c.registry_url,
    }
}

/// The registry source of a dependency under the configured datasource.
pub open spec fn map_datasource_spec(c: RegexManagerConfigView, dep_name: Seq<char>, captured: Option<Seq<char>>) -> RegistrySourceView {
    let reg = effective_registry(c, captured);
    if c.datasource == "docker"@ {
        RegistrySourceView::DockerRegistry {
            image: match reg {
                Some(r) => r + "/"@ + dep_name,
                None => dep_name,
            },
            registry: reg,
        }
    } else if c.datasource == "helm-oci"@ {
        let image = match reg {
            Some(r) => trim_start_str(r, "oci://"@) + "/"@ + dep_name,
            None => dep_name,
        };
        RegistrySourceView::OciHelmRegistry { image, registry: crate::manager::helm::oci_registry_spec(image) }
    } else {
        RegistrySourceView::HelmRepository {
            repo_url: match reg {
                Some(r) => r,
                None => "https://charts.helm.sh/stable"@,
            },
            chart_name: dep_name,
        }
    }
}

/// The dependencies of the matches that captured both a name and a version, in order.
pub open spec fn regex_deps(c: RegexManagerConfigView, ms: Seq<(Seq<char>, Seq<Option<Seq<char>>>)>, file_path: Seq<char>) -> Seq<DependencyView>
    decreases ms.len(),
{
    if ms.len() == 0 {
        seq![]
    } else {
        let prev = regex_deps(c, ms.drop_last(), file_path);
        let (whole, g) = ms.last();
        if g.len() == 3 && g[0] is Some && g[1] is Some {
            prev.push(
                DependencyView {
                    name: g[0]->0,
                    current_version: g[1]->0,
                    registry: map_datasource_spec(c, g[0]->0, g[2]),
                    file_path,
                    update_context: UpdateContextView::RegexMatch { matched_text: whole, old_value: g[1]->0 },
                },
            )
        } else {
            prev
        }
    }
}

/// Every dependency a regex manager reads from a file records that file.
pub proof fn lemma_regex_deps_belong_to_file(c: RegexManagerConfigView, ms: Seq<(Seq<char>, Seq<Option<Seq<char>>>)>, file_path: Seq<char>)
    ensures
        forall|i: int| 0 <= i < regex_deps(c, ms, file_path).len() ==> (#[trigger] regex_deps(c, ms, file_path)[i]).file_path
            == file_path,
    decreases ms.len(),
{
    if ms.len() > 0 {
        lemma_regex_deps_belong_to_file(c, ms.drop_last(), file_path);
    }
}

impl RegexManager {
    /// The registry source for a dependency under the configured datasource.
    pub fn map_datasource(&self, dep_name: &str, registry_url: Option<&str>) -> (r: RegistrySource)
        ensures
            r@ == map_datasource_spec(self.config_view(), dep_name@, match registry_url {
                Some(u) => Some(u@),
                None => None,
            }),
    {
        proof {
            use_type_invariant(self);
        }
        let effective: Option<Vec<char>> = match registry_url {
            Some(u) => Some(trim_end_char_in(&chars_of(u), '/')),
            None => match &self.config.registry_url {
                Some(r) => Some(chars_of(r.as_str())),
                None => None,
            },
        };
        let ds = chars_of(self.config.datasource.as_str());
        if chars_eq(&ds, &chars_of("docker")) {
            let image = match &effective {
                Some(r) => {
                    let mut v = slice_of(r, 0, r.len());
                    push_text(&mut v, "/");
                    push_text(&mut v, dep_name);
                    assert(v@ =~= r@ + "/"@ + dep_name@);
                    string_of(&v)
                },
                None => dep_name.to_string(),
            };
            let registry = match &effective {
                Some(r) => Some(string_of(r)),
                None => None,
            };
            RegistrySource::DockerRegistry { image, registry }
        } else if chars_eq(&ds, &chars_of("helm-oci")) {
            let image: Vec<char> = match &effective {
                Some(r) => {
                    let mut v = trim_start_str_in(r, &chars_of("oci://"));
                    push_text(&mut v, "/");
                    push_text(&mut v, dep_name);
                    v
                },
                None => chars_of(dep_name),
            };
            proof {
                crate::text::lemma_find_spec(image@, '/');
            }
            let registry = match crate::text::find_char(&image, '/') {
                Some(i) => Some(string_of(&slice_of(&image, 0, i))),
                None => None,
            };
            RegistrySource::OciHelmRegistry { image: string_of(&image), registry }
        } else {
            let repo_url = match &effective {
                Some(r) => string_of(r),
                None => "https://charts.helm.sh/stable".to_string(),
            };
            RegistrySource::HelmRepository { repo_url, chart_name: dep_name.to_string() }
        }
    }

    /// Reads the dependencies that the pattern finds in a file: one per match that
    /// captured `depName` and `currentValue`.
    pub fn extract(&self, file_path: &str, contents: &str) -> (r: Vec<Dependency>)
        ensures
            deps_view(r@) == regex_deps(
                self.config_view(),
                regex_all_captures(self.config_view().match_pattern, true, contents@, regex_group_list()),
                file_path@,
            ),
    {
        proof {
            use_type_invariant(self);
        }
        let mut names: Vec<String> = Vec::new();
        names.push("depName".to_string());
        names.push("currentValue".to_string());
        names.push("registryUrl".to_string());
        assert(strings_view(names@) =~= regex_group_list());
        let ms = captures_all(&self.pattern, contents, &names);
        self.deps_from_matches(file_path, &ms)
    }

    /// The dependencies of the pattern's matches in a file (each match's text and
    /// its `depName`, `currentValue` and `registryUrl` groups).
    pub fn deps_from_matches(&self, file_path: &str, ms: &Vec<(String, Vec<Option<String>>)>) -> (r: Vec<Dependency>)
        ensures
            deps_view(r@) == regex_deps(self.config_view(), crate::regexp::matches_view(ms@), file_path@),
    {
        let ghost mv = crate::regexp::matches_view(ms@);
        let mut deps: Vec<Dependency> = Vec::new();
        let mut i: usize = 0;
        while i < ms.len()
            invariant
                i <= ms@.len(),
                mv == crate::regexp::matches_view(ms@),
                deps_view(deps@) == regex_deps(self.config_view(), mv.take(i as int), file_path@),
            decreases ms@.len() - i,
        {
            assert(mv.take(i + 1).drop_last() =~= mv.take(i as int));
            assert(mv.take(i + 1).last() == mv[i as int]);
            let whole = &ms[i].0;
            let g = &ms[i].1;
            assert(mv[i as int].1 =~= crate::regexp::opt_strings_view(g@));
            if g.len() == 3 {
                match (&g[0], &g[1]) {
                    (Some(name), Some(current)) => {
                        let reg: Option<&str> = match &g[2] {
                            Some(u) => Some(u.as_str()),
                            None => None,
                        };
                        let registry = self.map_datasource(name.as_str(), reg);
                        let d = Dependency {
                            name: crate::text::copy_string(name),
                            current_version: crate::text::copy_string(current),
                            registry,
                            file_path: file_path.to_string(),
                            update_context: UpdateContext::RegexMatch {
                                matched_text: crate::text::copy_string(whole),
                                old_value: crate::text::copy_string(current),
                            },
                        };
                        let ghost before = deps_view(deps@);
                        deps.push(d);
                        assert(deps_view(deps@) =~= before.push(d@));
                    },
                    _ => {},
                }
            }
            i = i + 1;
        }
        assert(mv.take(ms@.len() as int) =~= mv);
        deps
    }
}

impl PackageManager for RegexManager {
    fn name(&self) -> (r: &'static str)
        ensures
            r@ == "regex"@,
    {
        "regex"
    }

    /// None: a regex manager's files are chosen by its configured patterns.
    fn file_patterns(&self) -> (r: Vec<&'static str>)
        ensures
            r@.len() == 0,
    {
        Vec::new()
    }

    fn extract_dependencies(&self, file_path: &str, contents: &str) -> (r: Result<Vec<Dependency>, ReforgeError>)
        ensures
            r matches Ok(d) && deps_view(d@) == regex_deps(
                self.config_view(),
                regex_all_captures(self.config_view().match_pattern, true, contents@, regex_group_list()),
                file_path@,
            ),
    {
        Ok(self.extract(file_path, contents))
    }
}

/// Wildcard matching of a text against the pieces of a pattern split at `*`,
/// from piece `i` on, with `rest` the text not yet consumed: the first piece
/// must start the text, the last must end what remains, middle pieces are found
/// left to right; empty pieces are skipped.
pub open spec fn pieces_match(parts: Seq<Seq<char>>, i: int, rest: Seq<char>) -> bool
    decreases parts.len() - i,
{
    if i < 0 || i >= parts.len() {
        true
    } else if parts[i].len() == 0 {
        pieces_match(parts, i + 1, rest)
    } else if i == 0 {
        starts_with_spec(rest, parts[i]) && pieces_match(parts, i + 1, rest.subrange(parts[i].len() as int, rest.len() as int))
    } else if i == parts.len() - 1 {
        ends_with_spec(rest, parts[i])
    } else {
        match find_sub(rest, parts[i]) {
            Some(p) => pieces_match(parts, i + 1, rest.subrange(p + parts[i].len(), rest.len() as int)),
            None => false,
        }
    }
}

/// A pattern without `*` must equal the text; otherwise its pieces must match.
pub open spec fn simple_glob_spec(text: Seq<char>, pattern: Seq<char>) -> bool {
    let parts = split_spec(pattern, '*');
    if parts.len() == 1 {
        text == pattern
    } else {
        pieces_match(parts, 0, text)
    }
}

/// The path, or the part of it after one of its `/`, matches the pattern: a
/// leading `**/` stands for any directory prefix, none included.
pub open spec fn some_dir_suffix_matches(path: Seq<char>, p: Seq<char>) -> bool {
    simple_glob_spec(path, p) || exists|k: int|
        #![trigger path[k]]
        0 <= k < path.len() && path[k] == '/' && simple_glob_spec(path.subrange(k + 1, path.len() as int), p)
}

/// A file pattern (any leading `**/` dropped) is matched against the path when it
/// holds a `/` (against the path or any part of it after a `/` when a `**/` was
/// dropped), else against the file name.
pub open spec fn file_matches_pattern_spec(path: Seq<char>, pattern: Seq<char>) -> bool {
    let p = trim_start_str(pattern, "**/"@);
    if p.contains('/') {
        if starts_with_spec(pattern, "**/"@) {
            some_dir_suffix_matches(path, p)
        } else {
            simple_glob_spec(path, p)
        }
    } else {
        simple_glob_spec(crate::manager::docker::file_name_spec(path), p)
    }
}

fn simple_glob(text: &Vec<char>, pattern: &Vec<char>) -> (r: bool)
    ensures
        r == simple_glob_spec(text@, pattern@),
{
    let parts = split_chars(pattern, '*');
    let ghost pv = vecs_view(parts@);
    if parts.len() == 1 {
        return chars_eq(text, pattern);
    }
    let mut rest = slice_of(text, 0, text.len());
    assert(rest@ =~= text@);
    let mut i: usize = 0;
    while i < parts.len()
        invariant
            i <= parts@.len(),
            pv == vecs_view(parts@),
            pv == split_spec(pattern@, '*'),
            pv.len() != 1,
            pieces_match(pv, 0, text@) == pieces_match(pv, i as int, rest@),
        decreases parts@.len() - i,
    {
        let part = &parts[i];
        assert(pv[i as int] == part@);
        if part.len() == 0 {
            i = i + 1;
            continue;
        }
        if i == 0 {
            if !starts_with(&rest, part) {
                return false;
            }
            rest = slice_of(&rest, part.len(), rest.len());
        } else if i == parts.len() - 1 {
            return ends_with(&rest, part);
        } else {
            match find_sub_in(&rest, part, 0) {
                Some(p) => {
                    proof {
                        crate::text::lemma_find_sub_bounds(rest@, part@, 0);
                    }
                    let plen = part.len();
                    let rlen = rest.len();
                    assert(p + plen <= rlen);
                    let start: usize = p + plen;
                    rest = slice_of(&rest, start, rlen);
                },
                None => {
                    return false;
                },
            }
        }
        i = i + 1;
    }
    true
}

fn some_dir_suffix_match(path: &Vec<char>, p: &Vec<char>) -> (r: bool)
    ensures
        r == some_dir_suffix_matches(path@, p@),
{
    if simple_glob(path, p) {
        return true;
    }
    let mut k: usize = 0;
    while k < path.len()
        invariant
            k <= path@.len(),
            !simple_glob_spec(path@, p@),
            forall|j: int|
                #![trigger path@[j]]
                0 <= j < k && path@[j] == '/' ==> !simple_glob_spec(path@.subrange(j + 1, path@.len() as int), p@),
        decreases path@.len() - k,
    {
        if path[k] == '/' {
            let s = slice_of(path, k + 1, path.len());
            if simple_glob(&s, p) {
                assert(path@[k as int] == '/');
                return true;
            }
        }
        k = k + 1;
    }
    false
}

/// Whether a path matches one of a regex manager's file patterns.
pub fn file_matches_pattern(path: &str, pattern: &str) -> (r: bool)
    ensures
        r == file_matches_pattern_spec(path@, pattern@),
{
    let pv = chars_of(pattern);
    let p = trim_start_str_in(&pv, &chars_of("**/"));
    if crate::text::contains_char(&p, '/') {
        if starts_with(&pv, &chars_of("**/")) {
            some_dir_suffix_match(&chars_of(path), &p)
        } else {
            simple_glob(&chars_of(path), &p)
        }
    } else {
        simple_glob(&crate::manager::docker::file_name(path), &p)
    }
}


/// When a match captures no registry URL, the configured one decides: a Helm
/// repository source is that repository, a Docker image sits under it, an OCI
/// chart under it without `oci://`; only without a configured URL do the
/// defaults apply (the public chart repository, the bare name).
pub proof fn lemma_configured_registry_when_none_captured(c: RegexManagerConfigView, dep_name: Seq<char>)
    ensures
        c.datasource == "docker"@ ==> map_datasource_spec(c, dep_name, None) == (RegistrySourceView::DockerRegistry {
            image: match c.registry_url {
                Some(u) => u + "/"@ + dep_name,
                None => dep_name,
            },
            registry: c.registry_url,
        }),
        c.datasource == "helm-repo"@ ==> map_datasource_spec(c, dep_name, None) == (RegistrySourceView::HelmRepository {
            repo_url: match c.registry_url {
                Some(u) => u,
                None => "https://charts.helm.sh/stable"@,
            },
            chart_name: dep_name,
        }),
        c.datasource == "helm-oci"@ ==> (map_datasource_spec(c, dep_name, None) matches RegistrySourceView::OciHelmRegistry {
            image,
            ..
        } && image == match c.registry_url {
            Some(u) => trim_start_str(u, "oci://"@) + "/"@ + dep_name,
            None => dep_name,
        }),
{
    reveal_strlit("docker");
    reveal_strlit("helm-repo");
    reveal_strlit("helm-oci");
    assert("helm-repo"@.len() != "docker"@.len() && "helm-repo"@.len() != "helm-oci"@.len());
    assert("helm-oci"@.len() != "docker"@.len());
}

/// A match without a captured registry URL gives a dependency whose registry
/// source is the one the configured URL gives its name.
pub proof fn lemma_match_uses_configured_registry(
    c: RegexManagerConfigView,
    whole: Seq<char>,
    name: Seq<char>,
    version: Seq<char>,
    file_path: Seq<char>,
)
    ensures
        regex_deps(c, seq![(whole, seq![Some(name), Some(version), None])], file_path) == seq![
            DependencyView {
                name,
                current_version: version,
                registry: map_datasource_spec(c, name, None),
                file_path,
                update_context: UpdateContextView::RegexMatch { matched_text: whole, old_value: version },
            },
        ],
{
    let ms = seq![(whole, seq![Some(name), Some(version), None])];
    assert(ms.drop_last() =~= Seq::<(Seq<char>, Seq<Option<Seq<char>>>)>::empty());
    assert(regex_deps(c, ms.drop_last(), file_path) =~= Seq::<DependencyView>::empty());
}

} // verus!
