//! Known renames and deprecations of images and charts, and the migration
//! actions they call for.
use vstd::prelude::*;
use vstd::utf8::encode_utf8;

use crate::manager::Dependency;
use crate::manager::DependencyView;
use crate::manager::RegistrySource;
use crate::manager::RegistrySourceView;
use crate::text::chars_eq;
use crate::text::chars_of;
use crate::text::copy_opt_string;
use crate::text::copy_string;
use crate::text::opt_view;
use crate::text::push_text;
use crate::text::slice_of;
use crate::text::string_of;
use crate::util::glob_match;
use crate::util::glob_spec;

verus! {

/// A rename or deprecation of an image or chart.
#[derive(Debug, Clone)]
pub struct ReplacementRule {
    /// Glob matched against the dependency's image or chart name.
    pub old_name: String,
    /// The new name; a trailing `*` carries over what the old name's `*` matched.
    pub new_name: String,
    /// When set, the rule applies only to dependencies from this registry.
    pub old_registry: Option<String>,
    /// The registry of the new reference, if it changes.
    pub new_registry: Option<String>,
    pub reason: Option<String>,
    /// Only warn: there is no automatic migration.
    pub deprecated_only: bool,
}

pub struct ReplacementRuleView {
    pub old_name: Seq<char>,
    pub new_name: Seq<char>,
    pub old_registry: Option<Seq<char>>,
    pub new_registry: Option<Seq<char>>,
    pub reason: Option<Seq<char>>,
    pub deprecated_only: bool,
}

impl View for ReplacementRule {
    type V = ReplacementRuleView;

    open spec fn view(&self) -> ReplacementRuleView {
        ReplacementRuleView {
            old_name: self.old_name@,
            new_name: self.new_name@,
            old_registry: opt_view(self.old_registry),
            new_registry: opt_view(self.new_registry),
            reason: opt_view(self.reason),
            deprecated_only: self.deprecated_only,
        }
    }
}

/// A rule applies when its registry constraint (if any) equals the dependency's
/// registry and its old name globs the dependency name.
pub open spec fn rule_matches_spec(rule: ReplacementRuleView, dep_name: Seq<char>, registry: Option<Seq<char>>) -> bool {
    (match rule.old_registry {
        Some(rr) => registry == Some(rr),
        None => true,
    }) && glob_spec(rule.old_name, dep_name)
}

/// The characters of `s` from byte offset `nbytes` on (nothing when the offset is
/// at or past the end).
pub open spec fn suffix_from_byte(s: Seq<char>, nbytes: int) -> Seq<char> {
    if nbytes >= encode_utf8(s).len() {
        seq![]
    } else {
        let k = choose|k: int| 0 <= k <= s.len() && encode_utf8(s.subrange(0, k)).len() == nbytes;
        s.subrange(k, s.len() as int)
    }
}

/// `nbytes` is past the end of `s` or on one of its character boundaries.
pub open spec fn byte_offset_ok(s: Seq<char>, nbytes: int) -> bool {
    nbytes >= encode_utf8(s).len() || exists|k: int| 0 <= k <= s.len() && encode_utf8(#[trigger] s.subrange(0, k)).len() == nbytes
}

/// Both names end in `*`: the new name's prefix followed by what follows the old
/// prefix in the dependency name (by byte length); otherwise the new name.
pub open spec fn resolve_new_name_spec(rule: ReplacementRuleView, dep_name: Seq<char>) -> Seq<char> {
    if rule.old_name.len() > 0 && rule.old_name.last() == '*' && rule.new_name.len() > 0 && rule.new_name.last() == '*' {
        rule.new_name.drop_last() + suffix_from_byte(dep_name, encode_utf8(rule.old_name).len() - 1)
    } else {
        rule.new_name
    }
}

/// The inputs on which `resolve_new_name` does not panic: the old prefix's byte
/// length must fall on a character boundary of the dependency name.
pub open spec fn resolve_new_name_ok(rule: ReplacementRuleView, dep_name: Seq<char>) -> bool {
    (rule.old_name.len() > 0 && rule.old_name.last() == '*' && rule.new_name.len() > 0 && rule.new_name.last() == '*')
        ==> byte_offset_ok(dep_name, encode_utf8(rule.old_name).len() - 1)
}

fn utf8_len(v: &Vec<char>) -> (r: usize)
    ensures
        r == encode_utf8(v@).len(),
{
    let s = string_of(v);
    s.as_str().as_bytes().len()
}

impl ReplacementRule {
    /// Whether this rule applies to a dependency name from an optional registry.
    pub fn matches(&self, dep_name: &str, registry: Option<&str>) -> (r: bool)
        ensures
            r == rule_matches_spec(self@, dep_name@, match registry {
                Some(x) => Some(x@),
                None => None,
            }),
    {
        if let Some(rule_registry) = &self.old_registry {
            match registry {
                Some(r) => {
                    if !chars_eq(&chars_of(r), &chars_of(rule_registry.as_str())) {
                        return false;
                    }
                },
                None => {
                    return false;
                },
            }
        }
        glob_match(self.old_name.as_str(), dep_name)
    }

    /// The name a matched dependency gets under this rule.
    pub fn resolve_new_name(&self, dep_name: &str) -> (r: String)
        requires
            resolve_new_name_ok(self@, dep_name@),
        ensures
            r@ == resolve_new_name_spec(self@, dep_name@),
    {
        let old = chars_of(self.old_name.as_str());
        let new = chars_of(self.new_name.as_str());
        if old.len() > 0 && old[old.len() - 1] == '*' && new.len() > 0 && new[new.len() - 1] == '*' {
            let dep = chars_of(dep_name);
            let prefix_bytes = utf8_len(&old) - 1;
            let mut out = slice_of(&new, 0, new.len() - 1);
            let total = utf8_len(&dep);
            if prefix_bytes < total {
                match crate::text::char_count_at_byte(&dep, prefix_bytes) {
                    Some(k) => {
                        let suffix = slice_of(&dep, k, dep.len());
                        proof {
                            let kk = choose|kk: int| 0 <= kk <= dep@.len() && encode_utf8(dep@.subrange(0, kk)).len() == prefix_bytes;
                            if kk < k {
                                crate::text::lemma_prefix_bytes_strict(dep@, kk, k as int);
                            } else if kk > k {
                                crate::text::lemma_prefix_bytes_strict(dep@, k as int, kk);
                            }
                        }
                        crate::text::extend_chars(&mut out, &suffix);
                    },
                    None => {
                        proof {
                            let kk = choose|kk: int| 0 <= kk <= dep@.len() && encode_utf8(#[trigger] dep@.subrange(0, kk)).len() == prefix_bytes;
                            assert(false);
                        }
                    },
                }
            } else {
                assert(out@ + Seq::<char>::empty() =~= out@);
            }
            assert(new@.subrange(0, new@.len() - 1) =~= new@.drop_last());
            string_of(&out)
        } else {
            copy_string(&self.new_name)
        }
    }
}

/// A database of replacement rules, consulted in order.
#[derive(Debug)]
pub struct ReplacementDatabase {
    pub rules: Vec<ReplacementRule>,
}

pub open spec fn rules_view(v: Seq<ReplacementRule>) -> Seq<ReplacementRuleView> {
    v.map_values(|r: ReplacementRule| r@)
}

/// Index of the first rule that applies, from rule `k` on.
pub open spec fn first_match_from(rules: Seq<ReplacementRuleView>, dep_name: Seq<char>, registry: Option<Seq<char>>, k: int) -> Option<int>
    decreases rules.len() - k,
{
    if k < 0 || k >= rules.len() {
        None
    } else if rule_matches_spec(rules[k], dep_name, registry) {
        Some(k)
    } else {
        first_match_from(rules, dep_name, registry, k + 1)
    }
}

/// The built-in rules: gcr.io/google-containers moved to registry.k8s.io; the
/// official nginx image replaced by the unprivileged one; quay.io/coreos/etcd deprecated.
pub open spec fn builtin_rules() -> Seq<ReplacementRuleView> {
    seq![
        ReplacementRuleView {
            old_name: "*"@,
            new_name: "*"@,
            old_registry: Some("gcr.io/google-containers"@),
            new_registry: Some("registry.k8s.io"@),
            reason: Some("gcr.io/google-containers is deprecated; images have moved to registry.k8s.io"@),
            deprecated_only: false,
        },
        ReplacementRuleView {
            old_name: "nginx"@,
            new_name: "nginxinc/nginx-unprivileged"@,
            old_registry: Some("docker.io/library"@),
            new_registry: Some("docker.io"@),
            reason: Some(
                "The official nginx image runs as root. nginxinc/nginx-unprivileged is the recommended rootless alternative."@,
            ),
            deprecated_only: false,
        },
        ReplacementRuleView {
            old_name: "etcd"@,
            new_name: "etcd"@,
            old_registry: Some("quay.io/coreos"@),
            new_registry: None,
            reason: Some(
                "quay.io/coreos/etcd is no longer maintained. Use the etcd image from registry.k8s.io or your distribution."@,
            ),
            deprecated_only: true,
        },
    ]
}

proof fn lemma_first_match_bounds(rules: Seq<ReplacementRuleView>, dep_name: Seq<char>, registry: Option<Seq<char>>, k: int)
    ensures
        first_match_from(rules, dep_name, registry, k) matches Some(i) ==> k <= i < rules.len(),
    decreases rules.len() - k,
{
    if 0 <= k < rules.len() && !rule_matches_spec(rules[k], dep_name, registry) {
        lemma_first_match_bounds(rules, dep_name, registry, k + 1);
    }
}

impl ReplacementDatabase {
    /// The built-in replacement rules.
    pub fn load_builtin() -> (r: Self)
        ensures
            rules_view(r.rules@) == builtin_rules(),
    {
        let mut rules: Vec<ReplacementRule> = Vec::new();
        rules.push(ReplacementRule {
            old_name: "*".to_string(),
            new_name: "*".to_string(),
            old_registry: Some("gcr.io/google-containers".to_string()),
            new_registry: Some("registry.k8s.io".to_string()),
            reason: Some("gcr.io/google-containers is deprecated; images have moved to registry.k8s.io".to_string()),
            deprecated_only: false,
        });
        rules.push(ReplacementRule {
            old_name: "nginx".to_string(),
            new_name: "nginxinc/nginx-unprivileged".to_string(),
            old_registry: Some("docker.io/library".to_string()),
            new_registry: Some("docker.io".to_string()),
            reason: Some(
                "The official nginx image runs as root. nginxinc/nginx-unprivileged is the recommended rootless alternative.".to_string(),
            ),
            deprecated_only: false,
        });
        rules.push(ReplacementRule {
            old_name: "etcd".to_string(),
            new_name: "etcd".to_string(),
            old_registry: Some("quay.io/coreos".to_string()),
            new_registry: None,
            reason: Some(
                "quay.io/coreos/etcd is no longer maintained. Use the etcd image from registry.k8s.io or your distribution.".to_string(),
            ),
            deprecated_only: true,
        });
        assert(rules_view(rules@) =~= builtin_rules());
        ReplacementDatabase { rules }
    }

    /// The first rule that applies to a dependency name and registry.
    pub fn find_replacement<'a>(&'a self, dep_name: &str, registry: Option<&str>) -> (r: Option<&'a ReplacementRule>)
        ensures
            match first_match_from(rules_view(self.rules@), dep_name@, match registry {
                Some(x) => Some(x@),
                None => None,
            }, 0) {
                Some(i) => r matches Some(rule) && rule@ == self.rules@[i]@,
                None => r is None,
            },
    {
        let ghost rv = rules_view(self.rules@);
        let ghost reg = match registry {
            Some(x) => Some(x@),
            None => None,
        };
        let mut i: usize = 0;
        while i < self.rules.len()
            invariant
                i <= self.rules@.len(),
                rv == rules_view(self.rules@),
                reg == match registry {
                    Some(x) => Some(x@),
                    None => None,
                },
                first_match_from(rv, dep_name@, reg, 0) == first_match_from(rv, dep_name@, reg, i as int),
            decreases self.rules@.len() - i,
        {
            assert(rv[i as int] == self.rules@[i as int]@);
            let m = self.rules[i].matches(dep_name, registry);
            assert(m == rule_matches_spec(rv[i as int], dep_name@, reg));
            if m {
                assert(first_match_from(rv, dep_name@, reg, i as int) == Some(i as int));
                return Some(&self.rules[i]);
            }
            assert(first_match_from(rv, dep_name@, reg, i as int) == first_match_from(rv, dep_name@, reg, i + 1));
            i = i + 1;
        }
        None
    }
}

/// What should be done about a dependency that a rule matched.
#[derive(Debug, Clone)]
pub enum ReplacementAction {
    /// Migrate the reference `from_ref` to `to_ref`.
    Replace { dep_name: String, file_path: String, from_ref: String, to_ref: String, reason: Option<String> },
    /// Warn: the dependency is deprecated and has no automatic migration.
    DeprecationWarning { dep_name: String, file_path: String, reason: Option<String> },
}

pub enum ReplacementActionView {
    Replace { dep_name: Seq<char>, file_path: Seq<char>, from_ref: Seq<char>, to_ref: Seq<char>, reason: Option<Seq<char>> },
    DeprecationWarning { dep_name: Seq<char>, file_path: Seq<char>, reason: Option<Seq<char>> },
}

impl View for ReplacementAction {
    type V = ReplacementActionView;

    open spec fn view(&self) -> ReplacementActionView {
        match self {
            ReplacementAction::Replace { dep_name, file_path, from_ref, to_ref, reason } => ReplacementActionView::Replace {
                dep_name: dep_name@,
                file_path: file_path@,
                from_ref: from_ref@,
                to_ref: to_ref@,
                reason: opt_view(*reason),
            },
            ReplacementAction::DeprecationWarning { dep_name, file_path, reason } => ReplacementActionView::DeprecationWarning {
                dep_name: dep_name@,
                file_path: file_path@,
                reason: opt_view(*reason),
            },
        }
    }
}

pub open spec fn actions_view(v: Seq<ReplacementAction>) -> Seq<ReplacementActionView> {
    v.map_values(|a: ReplacementAction| a@)
}

/// The image or chart name of a dependency and the registry it is looked up in
/// (a Helm repository's URL for charts from one).
pub open spec fn dep_name_and_registry_spec(reg: RegistrySourceView) -> (Seq<char>, Option<Seq<char>>) {
    match reg {
        RegistrySourceView::DockerRegistry { image, registry } => (image, registry),
        RegistrySourceView::HelmRepository { repo_url, chart_name } => (chart_name, Some(repo_url)),
        RegistrySourceView::OciHelmRegistry { image, registry } => (image, registry),
    }
}

fn dep_name_and_registry(dep: &Dependency) -> (r: (String, Option<String>))
    ensures
        (r.0@, opt_view(r.1)) == dep_name_and_registry_spec(dep@.registry),
{
    match &dep.registry {
        RegistrySource::DockerRegistry { image, registry } => (copy_string(image), copy_opt_string(registry)),
        RegistrySource::HelmRepository { chart_name, repo_url } => (copy_string(chart_name), Some(copy_string(repo_url))),
        RegistrySource::OciHelmRegistry { image, registry } => (copy_string(image), copy_opt_string(registry)),
    }
}

/// `a/b`, or `b` alone when `a` is absent.
pub open spec fn join_ref(a: Option<Seq<char>>, b: Seq<char>) -> Seq<char> {
    match a {
        Some(x) => x + "/"@ + b,
        None => b,
    }
}

/// The action a matched rule calls for: a deprecation warning, or a migration
/// from `registry/name` to `new_registry/new_name` (the registry dropped when empty).
pub open spec fn action_spec(dep: DependencyView, rule: ReplacementRuleView) -> ReplacementActionView {
    let (image, registry) = dep_name_and_registry_spec(dep.registry);
    if rule.deprecated_only {
        ReplacementActionView::DeprecationWarning { dep_name: dep.name, file_path: dep.file_path, reason: rule.reason }
    } else {
        let new_name = resolve_new_name_spec(rule, image);
        let new_reg = match rule.new_registry {
            Some(r) => r,
            None => seq![],
        };
        ReplacementActionView::Replace {
            dep_name: dep.name,
            file_path: dep.file_path,
            from_ref: join_ref(registry, image),
            to_ref: if new_reg.len() == 0 { new_name } else { new_reg + "/"@ + new_name },
            reason: rule.reason,
        }
    }
}

/// The actions for a list of dependencies: one per dependency that some rule
/// matches, from the first matching rule, in order.
pub open spec fn check_dependencies_spec(deps: Seq<DependencyView>, rules: Seq<ReplacementRuleView>) -> Seq<ReplacementActionView>
    decreases deps.len(),
{
    if deps.len() == 0 {
        seq![]
    } else {
        let prev = check_dependencies_spec(deps.drop_last(), rules);
        let d = deps.last();
        let (image, registry) = dep_name_and_registry_spec(d.registry);
        match first_match_from(rules, image, registry, 0) {
            Some(i) => prev.push(action_spec(d, rules[i])),
            None => prev,
        }
    }
}

/// The dependency and rule do not make `resolve_new_name` panic.
pub open spec fn resolvable(d: DependencyView, rules: Seq<ReplacementRuleView>) -> bool {
    let (image, registry) = dep_name_and_registry_spec(d.registry);
    match first_match_from(rules, image, registry, 0) {
        Some(i) => rules[i].deprecated_only || resolve_new_name_ok(rules[i], image),
        None => true,
    }
}

/// Whether a dependency is resolvable under the database: when its first matching
/// rule migrates it by a `*` pattern, the old prefix's byte length falls on a
/// character boundary of its name.
pub fn is_resolvable(dep: &Dependency, db: &ReplacementDatabase) -> (r: bool)
    ensures
        r == resolvable(dep@, rules_view(db.rules@)),
{
    let ghost rv = rules_view(db.rules@);
    let (image, registry) = dep_name_and_registry(dep);
    let reg_ref: Option<&str> = match &registry {
        Some(r) => Some(r.as_str()),
        None => None,
    };
    assert(match reg_ref {
        Some(x) => Some(x@),
        None => None,
    } == opt_view(registry));
    match db.find_replacement(image.as_str(), reg_ref) {
        Some(rule) => {
            let ghost ri = first_match_from(rv, image@, opt_view(registry), 0)->0;
            proof {
                lemma_first_match_bounds(rv, image@, opt_view(registry), 0);
            }
            assert(rv[ri] == db.rules@[ri]@);
            if rule.deprecated_only {
                return true;
            }
            let old = chars_of(rule.old_name.as_str());
            let new = chars_of(rule.new_name.as_str());
            if old.len() > 0 && old[old.len() - 1] == '*' && new.len() > 0 && new[new.len() - 1] == '*' {
                let dep_chars = chars_of(image.as_str());
                let prefix_bytes = utf8_len(&old) - 1;
                if prefix_bytes >= utf8_len(&dep_chars) {
                    true
                } else {
                    match crate::text::char_count_at_byte(&dep_chars, prefix_bytes) {
                        Some(_) => true,
                        None => {
                            assert(!byte_offset_ok(image@, encode_utf8(rule.old_name@).len() - 1));
                            false
                        },
                    }
                }
            } else {
                true
            }
        },
        None => true,
    }
}

/// The actions for the dependencies, when every one is resolvable under the
/// database; `None` when some dependency's migration would cut its name inside
/// a character.
pub fn check_dependencies_checked(deps: &[Dependency], db: &ReplacementDatabase) -> (r: Option<Vec<ReplacementAction>>)
    ensures
        match r {
            Some(a) => (forall|i: int| 0 <= i < deps@.len() ==> resolvable(#[trigger] deps@[i]@, rules_view(db.rules@)))
                && actions_view(a@) == check_dependencies_spec(deps@.map_values(|d: Dependency| d@), rules_view(db.rules@)),
            None => exists|i: int| 0 <= i < deps@.len() && !resolvable(#[trigger] deps@[i]@, rules_view(db.rules@)),
        },
{
    let mut i: usize = 0;
    while i < deps.len()
        invariant
            i <= deps@.len(),
            forall|j: int| 0 <= j < i ==> resolvable(#[trigger] deps@[j]@, rules_view(db.rules@)),
        decreases deps@.len() - i,
    {
        if !is_resolvable(&deps[i], db) {
            return None;
        }
        i = i + 1;
    }
    Some(check_dependencies(deps, db))
}

/// Checks every dependency against the database and lists the actions to take.
pub fn check_dependencies(deps: &[Dependency], db: &ReplacementDatabase) -> (r: Vec<ReplacementAction>)
    requires
        forall|i: int| 0 <= i < deps@.len() ==> resolvable(#[trigger] deps@[i]@, rules_view(db.rules@)),
    ensures
        actions_view(r@) == check_dependencies_spec(deps@.map_values(|d: Dependency| d@), rules_view(db.rules@)),
{
    let ghost dv = deps@.map_values(|d: Dependency| d@);
    let ghost rv = rules_view(db.rules@);
    let mut actions: Vec<ReplacementAction> = Vec::new();
    let mut i: usize = 0;
    while i < deps.len()
        invariant
            i <= deps@.len(),
            dv == deps@.map_values(|d: Dependency| d@),
            rv == rules_view(db.rules@),
            forall|j: int| 0 <= j < deps@.len() ==> resolvable(#[trigger] deps@[j]@, rv),
            actions_view(actions@) == check_dependencies_spec(dv.take(i as int), rv),
        decreases deps@.len() - i,
    {
        let dep = &deps[i];
        assert(dv.take(i + 1).drop_last() =~= dv.take(i as int));
        assert(dv.take(i + 1).last() == dep@);
        assert(resolvable(deps@[i as int]@, rv));
        let (image, registry) = dep_name_and_registry(dep);
        let reg_ref: Option<&str> = match &registry {
            Some(r) => Some(r.as_str()),
            None => None,
        };
        let ghost before = actions_view(actions@);
        assert(match reg_ref {
            Some(x) => Some(x@),
            None => None,
        } == opt_view(registry));
        match db.find_replacement(image.as_str(), reg_ref) {
            Some(rule) => {
                let ghost ri = first_match_from(rv, image@, opt_view(registry), 0)->0;
                proof {
                    lemma_first_match_bounds(rv, image@, opt_view(registry), 0);
                }
                assert(rv[ri] == db.rules@[ri]@);
                assert(rule@ == rv[ri]);
                if rule.deprecated_only {
                    actions.push(ReplacementAction::DeprecationWarning {
                        dep_name: copy_string(&dep.name),
                        file_path: copy_string(&dep.file_path),
                        reason: copy_opt_string(&rule.reason),
                    });
                    assert(actions@.last()@ == action_spec(dep@, rv[ri]));
                } else {
                    let new_name = rule.resolve_new_name(image.as_str());
                    let new_reg = match &rule.new_registry {
                        Some(r) => chars_of(r.as_str()),
                        None => Vec::new(),
                    };
                    let to_ref = if new_reg.len() == 0 {
                        new_name
                    } else {
                        let mut t = crate::text::slice_of(&new_reg, 0, new_reg.len());
                        assert(t@ =~= new_reg@);
                        push_text(&mut t, "/");
                        push_text(&mut t, new_name.as_str());
                        string_of(&t)
                    };
                    let from_ref = match &registry {
                        Some(r) => {
                            let mut f = chars_of(r.as_str());
                            push_text(&mut f, "/");
                            push_text(&mut f, image.as_str());
                            string_of(&f)
                        },
                        None => copy_string(&image),
                    };
                    assert(new_reg@ == match rv[ri].new_registry {
                        Some(r) => r,
                        None => Seq::<char>::empty(),
                    });
                    assert(from_ref@ == join_ref(opt_view(registry), image@));
                    actions.push(ReplacementAction::Replace {
                        dep_name: copy_string(&dep.name),
                        file_path: copy_string(&dep.file_path),
                        from_ref,
                        to_ref,
                        reason: copy_opt_string(&rule.reason),
                    });
                    assert(actions@.last()@ == action_spec(dep@, rv[ri]));
                }
                assert(actions_view(actions@) =~= before.push(action_spec(dep@, rv[ri])));
            },
            None => {},
        }
        i = i + 1;
    }
    assert(dv.take(deps@.len() as int) =~= dv);
    actions
}

/// The description of a migration or deprecation merge request.
pub open spec fn replacement_body_spec(a: ReplacementActionView) -> Seq<char> {
    match a {
        ReplacementActionView::Replace { dep_name, file_path, from_ref, to_ref, reason } => {
            let reason_section = match reason {
                Some(r) => "\n\n**Reason:** "@ + r,
                None => seq![],
            };
            "## Image/Chart Migration: `"@ + dep_name + "`\n\n"@
                + "This dependency has been renamed or relocated and requires migration.\n\n"@ + "| | Reference |\n"@
                + "|---|---|\n"@ + "| **Before** | `"@ + from_ref + "` |\n"@ + "| **After**  | `"@ + to_ref + "` |\n\n"@
                + "**File:** `"@ + file_path + "`"@ + reason_section + "\n\n"@ + "---\n\n"@
                + "*This MR was automatically created by reforge.*"@
        },
        ReplacementActionView::DeprecationWarning { dep_name, file_path, reason } => {
            let reason_section = match reason {
                Some(r) => "\n\n**Details:** "@ + r,
                None => seq![],
            };
            "## Deprecation Notice: `"@ + dep_name + "`\n\n"@ + "The image/chart `"@ + dep_name + "` used in `"@
                + file_path + "` is **deprecated**. "@
                + "No automated migration is available \u{2014} please review manually."@ + reason_section
                + "\n\n"@ + "---\n\n"@ + "*This notice was generated by reforge.*"@
        },
    }
}

/// Renders the merge-request description for a replacement action.
pub fn render_replacement_mr_body(action: &ReplacementAction) -> (r: String)
    ensures
        r@ == replacement_body_spec(action@),
{
    let mut out: Vec<char> = Vec::new();
    match action {
        ReplacementAction::Replace { dep_name, file_path, from_ref, to_ref, reason } => {
            push_text(&mut out, "## Image/Chart Migration: `");
            push_text(&mut out, dep_name.as_str());
            push_text(&mut out, "`\n\n");
            push_text(&mut out, "This dependency has been renamed or relocated and requires migration.\n\n");
            push_text(&mut out, "| | Reference |\n");
            push_text(&mut out, "|---|---|\n");
            push_text(&mut out, "| **Before** | `");
            push_text(&mut out, from_ref.as_str());
            push_text(&mut out, "` |\n");
            push_text(&mut out, "| **After**  | `");
            push_text(&mut out, to_ref.as_str());
            push_text(&mut out, "` |\n\n");
            push_text(&mut out, "**File:** `");
            push_text(&mut out, file_path.as_str());
            push_text(&mut out, "`");
            match reason {
                Some(r) => {
                    push_text(&mut out, "\n\n**Reason:** ");
                    push_text(&mut out, r.as_str());
                },
                None => {},
            }
            push_text(&mut out, "\n\n");
            push_text(&mut out, "---\n\n");
            push_text(&mut out, "*This MR was automatically created by reforge.*");
        },
        ReplacementAction::DeprecationWarning { dep_name, file_path, reason } => {
            push_text(&mut out, "## Deprecation Notice: `");
            push_text(&mut out, dep_name.as_str());
            push_text(&mut out, "`\n\n");
            push_text(&mut out, "The image/chart `");
            push_text(&mut out, dep_name.as_str());
            push_text(&mut out, "` used in `");
            push_text(&mut out, file_path.as_str());
            push_text(&mut out, "` is **deprecated**. ");
            push_text(&mut out, "No automated migration is available \u{2014} please review manually.");
            match reason {
                Some(r) => {
                    push_text(&mut out, "\n\n**Details:** ");
                    push_text(&mut out, r.as_str());
                },
                None => {},
            }
            push_text(&mut out, "\n\n");
            push_text(&mut out, "---\n\n");
            push_text(&mut out, "*This notice was generated by reforge.*");
        },
    }
    assert(out@ =~= replacement_body_spec(action@));
    string_of(&out)
}

} // verus!
