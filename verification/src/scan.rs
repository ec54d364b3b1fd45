//! The managers of a run and the dependencies they read from each scanned file.
use vstd::prelude::*;

use crate::config::RegexManagerConfig;
use crate::config::RegexManagerConfigView;
use crate::config::validate_spec;
use crate::error::ReforgeError;
use crate::error::ReforgeErrorView;
use crate::manager::Dependency;
use crate::manager::DependencyView;
use crate::manager::deps_view;
use crate::manager::docker::DockerManager;
use crate::manager::docker::deps_result_view;
use crate::manager::docker::docker_extract_spec;
use crate::manager::docker::lemma_docker_deps_belong_to_file;
use crate::manager::helm::HelmManager;
use crate::manager::helm::helm_extract_spec;
use crate::manager::helm::lemma_helm_deps_belong_to_file;
use crate::manager::regex::RegexManager;
use crate::manager::regex::lemma_regex_deps_belong_to_file;
use crate::manager::regex::regex_deps;
use crate::manager::regex::regex_group_list;
use crate::orchestrator::BuiltinManager;
use crate::orchestrator::enabled_managers;
use crate::orchestrator::enabled_managers_spec;
use crate::orchestrator::file_matches_manager_at;
use crate::orchestrator::file_matches_manager_spec;
use crate::regexp::regex_all_captures;
use crate::regexp::regex_build_error;
use crate::text::copy_opt_string;
use crate::text::copy_string;
use crate::text::copy_strings;
use crate::text::strings_view;

verus! {

/// The file-name patterns of the Docker manager.
pub open spec fn docker_patterns() -> Seq<Seq<char>> {
    seq![
        "Dockerfile"@,
        "Dockerfile.*"@,
        "docker-compose.yml"@,
        "docker-compose.yaml"@,
        "compose.yml"@,
        "compose.yaml"@,
    ]
}

/// The file-name patterns of the Helm manager.
pub open spec fn helm_patterns() -> Seq<Seq<char>> {
    seq!["Chart.yaml"@, "values.yaml"@, "values-*.yaml"@]
}

/// The file-name patterns of a built-in manager.
pub open spec fn builtin_patterns(m: BuiltinManager) -> Seq<Seq<char>> {
    match m {
        BuiltinManager::Docker => docker_patterns(),
        BuiltinManager::Helm => helm_patterns(),
    }
}

/// What a manager makes of a file: `None` when the file is not one of its files,
/// else its extraction result.
pub type Outcome = Option<Result<Seq<DependencyView>, ReforgeErrorView>>;

/// The outcome of a built-in manager on a file.
pub open spec fn builtin_outcome(m: BuiltinManager, path: Seq<char>, contents: Seq<char>) -> Outcome {
    if file_matches_manager_spec(path, builtin_patterns(m), None) {
        Some(
            match m {
                BuiltinManager::Docker => docker_extract_spec(path, contents),
                BuiltinManager::Helm => helm_extract_spec(path, contents),
            },
        )
    } else {
        None
    }
}

/// The outcome of a regex manager on a file: it reads the files its patterns select.
pub open spec fn regex_outcome(c: RegexManagerConfigView, path: Seq<char>, contents: Seq<char>) -> Outcome {
    if file_matches_manager_spec(path, seq![], Some(c.file_patterns)) {
        Some(Ok(regex_deps(c, regex_all_captures(c.match_pattern, true, contents, regex_group_list()), path)))
    } else {
        None
    }
}

/// The dependencies of the outcomes that succeeded, in order.
pub open spec fn outcome_deps(os: Seq<Outcome>) -> Seq<DependencyView>
    decreases os.len(),
{
    if os.len() == 0 {
        seq![]
    } else {
        outcome_deps(os.drop_last()) + match os.last() {
            Some(Ok(d)) => d,
            _ => seq![],
        }
    }
}

/// The errors of the outcomes that failed, in order.
pub open spec fn outcome_errors(os: Seq<Outcome>) -> Seq<ReforgeErrorView>
    decreases os.len(),
{
    if os.len() == 0 {
        seq![]
    } else {
        outcome_errors(os.drop_last()) + match os.last() {
            Some(Err(e)) => seq![e],
            _ => seq![],
        }
    }
}

/// Why a regex manager configuration is refused, if it is: its validation error,
/// else the error of building its pattern.
pub open spec fn regex_manager_error(c: RegexManagerConfigView) -> Option<ReforgeErrorView> {
    match validate_spec(c) {
        Err(e) => Some(e),
        Ok(()) => match regex_build_error(c.match_pattern) {
            Some(b) => Some(
                ReforgeErrorView::Config("regex_manager '"@ + c.name + "': failed to compile pattern: "@ + b),
            ),
            None => None,
        },
    }
}

/// The configurations that give a regex manager, in order.
pub open spec fn accepted_configs(cs: Seq<RegexManagerConfigView>) -> Seq<RegexManagerConfigView>
    decreases cs.len(),
{
    if cs.len() == 0 {
        seq![]
    } else {
        let prev = accepted_configs(cs.drop_last());
        if regex_manager_error(cs.last()) is None {
            prev.push(cs.last())
        } else {
            prev
        }
    }
}

/// The errors of the refused configurations, in order.
pub open spec fn refused_errors(cs: Seq<RegexManagerConfigView>) -> Seq<ReforgeErrorView>
    decreases cs.len(),
{
    if cs.len() == 0 {
        seq![]
    } else {
        let prev = refused_errors(cs.drop_last());
        match regex_manager_error(cs.last()) {
            Some(e) => prev.push(e),
            None => prev,
        }
    }
}

pub open spec fn configs_view(v: Seq<RegexManagerConfig>) -> Seq<RegexManagerConfigView> {
    v.map_values(|c: RegexManagerConfig| c@)
}

pub open spec fn errors_view(v: Seq<ReforgeError>) -> Seq<ReforgeErrorView> {
    v.map_values(|e: ReforgeError| e@)
}

/// Outcomes whose dependencies all record the file `path`.
pub open spec fn outcomes_in_file(os: Seq<Outcome>, path: Seq<char>) -> bool {
    forall|i: int| 0 <= i < os.len() ==> (#[trigger] os[i] matches Some(Ok(d)) ==> forall|j: int| 0 <= j < d.len()
        ==> (#[trigger] d[j]).file_path == path)
}

proof fn lemma_outcome_deps_in_file(os: Seq<Outcome>, path: Seq<char>)
    requires
        outcomes_in_file(os, path),
    ensures
        forall|j: int| 0 <= j < outcome_deps(os).len() ==> (#[trigger] outcome_deps(os)[j]).file_path == path,
    decreases os.len(),
{
    if os.len() > 0 {
        let p = os.drop_last();
        assert forall|i: int| 0 <= i < p.len() implies (#[trigger] p[i] matches Some(Ok(d)) ==> forall|j: int| 0 <= j < d.len()
            ==> (#[trigger] d[j]).file_path == path) by {
            assert(p[i] == os[i]);
        }
        lemma_outcome_deps_in_file(p, path);
        let a = outcome_deps(p);
        let b = match os.last() {
            Some(Ok(d)) => d,
            _ => seq![],
        };
        assert(os[os.len() - 1] == os.last());
        assert forall|j: int| 0 <= j < (a + b).len() implies (#[trigger] (a + b)[j]).file_path == path by {
            if j < a.len() {
                assert((a + b)[j] == a[j]);
            } else {
                assert((a + b)[j] == b[j - a.len()]);
            }
        }
    }
}

/// Every dependency that a scan reads from a file records that file, whichever
/// managers read it.
pub proof fn lemma_scan_deps_belong_to_file(scanner: Scanner, path: Seq<char>, contents: Seq<char>)
    ensures
        forall|j: int| 0 <= j < outcome_deps(scanner.outcomes(path, contents)).len() ==> (#[trigger] outcome_deps(
            scanner.outcomes(path, contents),
        )[j]).file_path == path,
{
    let os = scanner.outcomes(path, contents);
    let nb = scanner.builtins_view().len();
    lemma_docker_deps_belong_to_file(path, contents);
    lemma_helm_deps_belong_to_file(path, contents);
    assert forall|i: int| 0 <= i < os.len() implies (#[trigger] os[i] matches Some(Ok(d)) ==> forall|j: int| 0 <= j < d.len()
        ==> (#[trigger] d[j]).file_path == path) by {
        if i >= nb {
            let c = scanner.regex_configs()[i - nb];
            lemma_regex_deps_belong_to_file(
                c,
                regex_all_captures(c.match_pattern, true, contents, regex_group_list()),
                path,
            );
        }
    }
    lemma_outcome_deps_in_file(os, path);
}

fn copy_config(c: &RegexManagerConfig) -> (r: RegexManagerConfig)
    ensures
        r@ == c@,
{
    RegexManagerConfig {
        name: copy_string(&c.name),
        file_patterns: copy_strings(&c.file_patterns),
        match_pattern: copy_string(&c.match_pattern),
        datasource: copy_string(&c.datasource),
        registry_url: copy_opt_string(&c.registry_url),
        versioning: copy_opt_string(&c.versioning),
    }
}

/// The managers of a run: the built-in ones selected by name, then the regex
/// managers whose configurations were accepted, each with its file patterns.
pub struct Scanner {
    builtins: Vec<BuiltinManager>,
    regex_managers: Vec<RegexManager>,
    regex_patterns: Vec<Vec<String>>,
}

impl Scanner {
    #[verifier::type_invariant]
    spec fn well_formed(self) -> bool {
        &&& self.regex_patterns@.len() == self.regex_managers@.len()
        &&& forall|i: int|
            0 <= i < self.regex_managers@.len() ==> strings_view(#[trigger] self.regex_patterns@[i]@)
                == self.regex_managers@[i].config_view().file_patterns
    }

    /// The built-in managers, in order.
    pub closed spec fn builtins_view(&self) -> Seq<BuiltinManager> {
        self.builtins@
    }

    /// The configurations of the regex managers, in order.
    pub closed spec fn regex_configs(&self) -> Seq<RegexManagerConfigView> {
        self.regex_managers@.map_values(|m: RegexManager| m.config_view())
    }

    /// What every manager, in order, makes of a file.
    pub open spec fn outcomes(&self, path: Seq<char>, contents: Seq<char>) -> Seq<Outcome> {
        self.builtins_view().map_values(|m: BuiltinManager| builtin_outcome(m, path, contents))
            + self.regex_configs().map_values(|c: RegexManagerConfigView| regex_outcome(c, path, contents))
    }

    /// The managers named in `enabled` (`docker`, `helm`; others are skipped) and
    /// a regex manager for each configuration that validates and compiles; the
    /// errors of the refused configurations come back beside them.
    pub fn new(enabled: &Vec<String>, regex_configs: &Vec<RegexManagerConfig>) -> (r: (Scanner, Vec<ReforgeError>))
        ensures
            r.0.builtins_view() == enabled_managers_spec(strings_view(enabled@)),
            r.0.regex_configs() == accepted_configs(configs_view(regex_configs@)),
            errors_view(r.1@) == refused_errors(configs_view(regex_configs@)),
    {
        let builtins = enabled_managers(enabled);
        let ghost cv = configs_view(regex_configs@);
        let mut managers: Vec<RegexManager> = Vec::new();
        let mut patterns: Vec<Vec<String>> = Vec::new();
        let mut errors: Vec<ReforgeError> = Vec::new();
        let mut i: usize = 0;
        while i < regex_configs.len()
            invariant
                i <= regex_configs@.len(),
                cv == configs_view(regex_configs@),
                patterns@.len() == managers@.len(),
                forall|j: int|
                    0 <= j < managers@.len() ==> strings_view(#[trigger] patterns@[j]@)
                        == managers@[j].config_view().file_patterns,
                managers@.map_values(|m: RegexManager| m.config_view()) == accepted_configs(cv.take(i as int)),
                errors_view(errors@) == refused_errors(cv.take(i as int)),
            decreases regex_configs@.len() - i,
        {
            assert(cv.take(i + 1).drop_last() =~= cv.take(i as int));
            assert(cv.take(i + 1).last() == regex_configs@[i as int]@);
            let config = &regex_configs[i];
            let ghost before_m = managers@.map_values(|m: RegexManager| m.config_view());
            let ghost before_e = errors_view(errors@);
            match RegexManager::new(copy_config(config)) {
                Ok(m) => {
                    patterns.push(copy_strings(&config.file_patterns));
                    managers.push(m);
                    assert(managers@.map_values(|m: RegexManager| m.config_view()) =~= before_m.push(
                        config@,
                    ));
                },
                Err(e) => {
                    errors.push(e);
                    assert(errors_view(errors@) =~= before_e.push(e@));
                },
            }
            i = i + 1;
        }
        assert(cv.take(regex_configs@.len() as int) =~= cv);
        (Scanner { builtins, regex_managers: managers, regex_patterns: patterns }, errors)
    }

    /// Whether any manager reads the file at `path`.
    pub fn matches_any_pattern(&self, path: &str) -> (r: bool)
        ensures
            r == (exists|i: int| 0 <= i < self.outcomes(path@, seq![]).len() && #[trigger] self.outcomes(path@, seq![])[i] is Some),
    {
        proof {
            use_type_invariant(self);
        }
        let ghost os = self.outcomes(path@, seq![]);
        let ghost nb: int = self.builtins@.len() as int;
        let mut i: usize = 0;
        while i < self.builtins.len()
            invariant
                i <= self.builtins@.len(),
                nb == self.builtins@.len(),
                os == self.outcomes(path@, seq![]),
                os.len() == nb + self.regex_managers@.len(),
                forall|j: int| 0 <= j < i ==> !(#[trigger] os[j] is Some),
            decreases self.builtins@.len() - i,
        {
            if self.builtin_matches(self.builtins[i], path) {
                assert(os[i as int] is Some);
                return true;
            }
            i = i + 1;
        }
        let mut k: usize = 0;
        while k < self.regex_managers.len()
            invariant
                k <= self.regex_managers@.len(),
                i == nb,
                nb == self.builtins@.len(),
                os == self.outcomes(path@, seq![]),
                os.len() == nb + self.regex_managers@.len(),
                self.regex_patterns@.len() == self.regex_managers@.len(),
                forall|j: int|
                    0 <= j < self.regex_managers@.len() ==> strings_view(#[trigger] self.regex_patterns@[j]@)
                        == self.regex_managers@[j].config_view().file_patterns,
                forall|j: int| 0 <= j < nb + k ==> !(#[trigger] os[j] is Some),
            decreases self.regex_managers@.len() - k,
        {
            let none: Vec<&str> = Vec::new();
            let m = file_matches_manager_at(path, &none, Some(&self.regex_patterns[k]));
            assert(none@.map_values(|p: &str| p@) =~= Seq::<Seq<char>>::empty());
            assert(os[nb + k] == regex_outcome(self.regex_configs()[k as int], path@, seq![]));
            if m {
                return true;
            }
            k = k + 1;
        }
        false
    }

    fn builtin_matches(&self, m: BuiltinManager, path: &str) -> (r: bool)
        ensures
            r == file_matches_manager_spec(path@, builtin_patterns(m), None),
    {
        let mut ps: Vec<&str> = Vec::new();
        match m {
            BuiltinManager::Docker => {
                ps.push("Dockerfile");
                ps.push("Dockerfile.*");
                ps.push("docker-compose.yml");
                ps.push("docker-compose.yaml");
                ps.push("compose.yml");
                ps.push("compose.yaml");
            },
            BuiltinManager::Helm => {
                ps.push("Chart.yaml");
                ps.push("values.yaml");
                ps.push("values-*.yaml");
            },
        }
        assert(ps@.map_values(|p: &str| p@) =~= builtin_patterns(m));
        file_matches_manager_at(path, &ps, None)
    }

    /// Reads the dependencies of one file with every manager that reads it, in
    /// manager order; a manager that fails on the file gives its error instead.
    pub fn scan_file(&self, path: &str, contents: &str) -> (r: (Vec<Dependency>, Vec<ReforgeError>))
        ensures
            deps_view(r.0@) == outcome_deps(self.outcomes(path@, contents@)),
            errors_view(r.1@) == outcome_errors(self.outcomes(path@, contents@)),
    {
        proof {
            use_type_invariant(self);
        }
        let ghost os = self.outcomes(path@, contents@);
        let ghost nb: int = self.builtins@.len() as int;
        let mut deps: Vec<Dependency> = Vec::new();
        let mut errors: Vec<ReforgeError> = Vec::new();
        let mut i: usize = 0;
        while i < self.builtins.len()
            invariant
                i <= self.builtins@.len(),
                nb == self.builtins@.len(),
                os == self.outcomes(path@, contents@),
                os.len() == nb + self.regex_managers@.len(),
                deps_view(deps@) == outcome_deps(os.take(i as int)),
                errors_view(errors@) == outcome_errors(os.take(i as int)),
            decreases self.builtins@.len() - i,
        {
            assert(os.take(i + 1).drop_last() =~= os.take(i as int));
            let m = self.builtins[i];
            assert(os.take(i + 1).last() == builtin_outcome(m, path@, contents@));
            let ghost before_d = deps_view(deps@);
            let ghost before_e = errors_view(errors@);
            if self.builtin_matches(m, path) {
                let res = match m {
                    BuiltinManager::Docker => DockerManager::new().extract(path, contents),
                    BuiltinManager::Helm => HelmManager::new().extract(path, contents),
                };
                match res {
                    Ok(found) => {
                        append_deps(&mut deps, found);
                    },
                    Err(e) => {
                        errors.push(e);
                        assert(errors_view(errors@) =~= before_e + seq![e@]);
                    },
                }
            } else {
                assert(before_d + seq![] =~= before_d);
                assert(before_e + seq![] =~= before_e);
            }
            i = i + 1;
        }
        let mut k: usize = 0;
        while k < self.regex_managers.len()
            invariant
                k <= self.regex_managers@.len(),
                nb == self.builtins@.len(),
                os == self.outcomes(path@, contents@),
                os.len() == nb + self.regex_managers@.len(),
                self.regex_patterns@.len() == self.regex_managers@.len(),
                forall|j: int|
                    0 <= j < self.regex_managers@.len() ==> strings_view(#[trigger] self.regex_patterns@[j]@)
                        == self.regex_managers@[j].config_view().file_patterns,
                deps_view(deps@) == outcome_deps(os.take(nb + k)),
                errors_view(errors@) == outcome_errors(os.take(nb + k)),
            decreases self.regex_managers@.len() - k,
        {
            assert(os.take(nb + k + 1).drop_last() =~= os.take(nb + k));
            assert(os.take(nb + k + 1).last() == regex_outcome(self.regex_configs()[k as int], path@, contents@));
            let ghost before_d = deps_view(deps@);
            let ghost before_e = errors_view(errors@);
            let none: Vec<&str> = Vec::new();
            assert(none@.map_values(|p: &str| p@) =~= Seq::<Seq<char>>::empty());
            if file_matches_manager_at(path, &none, Some(&self.regex_patterns[k])) {
                let found = self.regex_managers[k].extract(path, contents);
                append_deps(&mut deps, found);
            } else {
                assert(before_d + seq![] =~= before_d);
            }
            assert(before_e + seq![] =~= before_e);
            k = k + 1;
        }
        assert(os.take(nb + self.regex_managers@.len() as int) =~= os);
        (deps, errors)
    }
}

fn append_deps(deps: &mut Vec<Dependency>, found: Vec<Dependency>)
    ensures
        deps_view(final(deps)@) == deps_view(old(deps)@) + deps_view(found@),
{
    let ghost start = deps@;
    let mut found = found;
    let ghost fv = found@;
    deps.append(&mut found);
    assert(deps@ =~= start + fv);
    assert(deps_view(deps@) =~= deps_view(start) + deps_view(fv));
}

} // verus!
