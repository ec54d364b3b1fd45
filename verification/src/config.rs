//! Configuration model: what `reforge.toml`, the environment and the command line select.
use vstd::prelude::*;

use crate::error::ReforgeError;
use crate::error::ReforgeErrorView;
use crate::regexp::regex_group_names;
use crate::regexp::regex_new_error;
use crate::text::opt_view;
use crate::text::push_text;
use crate::text::string_of;
use crate::text::strings_view;

verus! {

/// Configuration for a single custom regex manager.
#[derive(Debug, Clone)]
pub struct RegexManagerConfig {
    /// Human-readable name for this manager (used in logs and branch names).
    pub name: String,
    /// Glob-style file patterns this manager should match (e.g. `["*.yaml"]`).
    pub file_patterns: Vec<String>,
    /// Regex with named capture groups `depName` and `currentValue`
    /// (optional: `registryUrl`, `datasource`).
    pub match_pattern: String,
    /// Datasource used to look up versions: `docker`, `helm-oci` or `helm-repo`.
    pub datasource: String,
    /// Registry URL used when the regex does not capture `registryUrl`.
    pub registry_url: Option<String>,
    /// Versioning scheme override (informational).
    pub versioning: Option<String>,
}

pub struct RegexManagerConfigView {
    pub name: Seq<char>,
    pub file_patterns: Seq<Seq<char>>,
    pub match_pattern: Seq<char>,
    pub datasource: Seq<char>,
    pub registry_url: Option<Seq<char>>,
    pub versioning: Option<Seq<char>>,
}

impl View for RegexManagerConfig {
    type V = RegexManagerConfigView;

    open spec fn view(&self) -> RegexManagerConfigView {
        RegexManagerConfigView {
            name: self.name@,
            file_patterns: strings_view(self.file_patterns@),
            match_pattern: self.match_pattern@,
            datasource: self.datasource@,
            registry_url: opt_view(self.registry_url),
            versioning: opt_view(self.versioning),
        }
    }
}

/// The datasources a regex manager may name.
pub open spec fn known_datasource(d: Seq<char>) -> bool {
    d == "docker"@ || d == "helm-oci"@ || d == "helm-repo"@
}

/// The error for a missing named group.
pub open spec fn missing_group_error(name: Seq<char>, group: Seq<char>) -> ReforgeErrorView {
    ReforgeErrorView::Config(
        "regex_manager '"@ + name + "': match_pattern is missing required named capture group '(?P<"@ + group + ">...)'"@,
    )
}

/// A regex manager configuration is valid when its pattern compiles, names the
/// groups `depName` and `currentValue`, and its datasource is known; the first
/// failing check gives the error.
pub open spec fn validate_spec(c: RegexManagerConfigView) -> Result<(), ReforgeErrorView> {
    match regex_new_error(c.match_pattern) {
        Some(e) => Err(ReforgeErrorView::Config("regex_manager '"@ + c.name + "': invalid match_pattern: "@ + e)),
        None => {
            let names = regex_group_names(c.match_pattern, false);
            if !names.contains("depName"@) {
                Err(missing_group_error(c.name, "depName"@))
            } else if !names.contains("currentValue"@) {
                Err(missing_group_error(c.name, "currentValue"@))
            } else if !known_datasource(c.datasource) {
                Err(
                    ReforgeErrorView::Config(
                        "regex_manager '"@ + c.name + "': unknown datasource '"@ + c.datasource
                            + "'; expected docker, helm-oci, or helm-repo"@,
                    ),
                )
            } else {
                Ok(())
            }
        },
    }
}

pub open spec fn unit_result_view(r: Result<(), ReforgeError>) -> Result<(), ReforgeErrorView> {
    match r {
        Ok(()) => Ok(()),
        Err(e) => Err(e@),
    }
}

fn contains_text(names: &Vec<String>, target: &str) -> (r: bool)
    ensures
        r == strings_view(names@).contains(target@),
{
    let t = crate::text::chars_of(target);
    let ghost nv = strings_view(names@);
    let mut i: usize = 0;
    while i < names.len()
        invariant
            i <= names@.len(),
            nv == strings_view(names@),
            t@ == target@,
            forall|j: int| 0 <= j < i ==> nv[j] != target@,
        decreases names@.len() - i,
    {
        assert(nv[i as int] == names@[i as int]@);
        if crate::text::chars_eq(&crate::text::chars_of(names[i].as_str()), &t) {
            return true;
        }
        i = i + 1;
    }
    false
}

impl RegexManagerConfig {
    /// Checks the configuration: the pattern must compile and name the groups
    /// `depName` and `currentValue`, and the datasource must be `docker`,
    /// `helm-oci` or `helm-repo`.
    pub fn validate(&self) -> (r: Result<(), ReforgeError>)
        ensures
            unit_result_view(r) == validate_spec(self@),
    {
        let re = match crate::regexp::compile(self.match_pattern.as_str()) {
            Ok(re) => re,
            Err(e) => {
                let mut m = crate::text::chars_of("regex_manager '");
                push_text(&mut m, self.name.as_str());
                push_text(&mut m, "': invalid match_pattern: ");
                push_text(&mut m, e.as_str());
                return Err(ReforgeError::Config(string_of(&m)));
            },
        };
        let names = crate::regexp::group_names(&re);
        if !contains_text(&names, "depName") {
            return Err(missing_group(self.name.as_str(), "depName"));
        }
        if !contains_text(&names, "currentValue") {
            return Err(missing_group(self.name.as_str(), "currentValue"));
        }
        let d = crate::text::chars_of(self.datasource.as_str());
        if !(crate::text::chars_eq(&d, &crate::text::chars_of("docker")) || crate::text::chars_eq(
            &d,
            &crate::text::chars_of("helm-oci"),
        ) || crate::text::chars_eq(&d, &crate::text::chars_of("helm-repo"))) {
            let mut m = crate::text::chars_of("regex_manager '");
            push_text(&mut m, self.name.as_str());
            push_text(&mut m, "': unknown datasource '");
            push_text(&mut m, self.datasource.as_str());
            push_text(&mut m, "'; expected docker, helm-oci, or helm-repo");
            return Err(ReforgeError::Config(string_of(&m)));
        }
        Ok(())
    }
}

fn missing_group(name: &str, group: &str) -> (r: ReforgeError)
    ensures
        r@ == missing_group_error(name@, group@),
{
    let mut m = crate::text::chars_of("regex_manager '");
    push_text(&mut m, name);
    push_text(&mut m, "': match_pattern is missing required named capture group '(?P<");
    push_text(&mut m, group);
    push_text(&mut m, ">...)'");
    ReforgeError::Config(string_of(&m))
}

#[derive(Debug, Clone)]
pub struct GitLabConfig {
    pub url: String,
    pub token: Option<String>,
    /// Accept invalid TLS certificates.
    pub insecure: bool,
}

#[derive(Debug, Clone)]
pub struct ScanConfig {
    pub projects: Vec<String>,
}

#[derive(Debug, Clone)]
pub struct ManagersConfig {
    pub enabled: Vec<String>,
}

#[derive(Debug, Clone)]
pub struct VersioningConfig {
    pub pin_strategy: String,
}

/// Update kinds an automerge policy can be limited to.
#[derive(Debug, Clone, Copy, PartialEq, Eq, Structural)]
pub enum UpdateTypeFilter {
    Patch,
    Minor,
    Major,
}

/// A per-dependency automerge rule.
#[derive(Debug, Clone)]
pub struct AutomergePolicy {
    /// Glob pattern matched against the dependency name.
    pub match_pattern: String,
    /// Update types this policy applies to; empty means all types.
    pub update_types: Vec<UpdateTypeFilter>,
    /// Whether automerge is enabled for matches.
    pub enabled: bool,
    /// Minimum age in days before the MR may be automerged.
    pub minimum_age_days: Option<u32>,
}

pub struct AutomergePolicyView {
    pub match_pattern: Seq<char>,
    pub update_types: Seq<UpdateTypeFilter>,
    pub enabled: bool,
    pub minimum_age_days: Option<u32>,
}

impl View for AutomergePolicy {
    type V = AutomergePolicyView;

    open spec fn view(&self) -> AutomergePolicyView {
        AutomergePolicyView {
            match_pattern: self.match_pattern@,
            update_types: self.update_types@,
            enabled: self.enabled,
            minimum_age_days: self.minimum_age_days,
        }
    }
}

/// Days of the week (ISO numbering: Monday = 1 … Sunday = 7).
#[derive(Debug, Clone, Copy, PartialEq, Eq, Structural)]
pub enum Weekday {
    Monday,
    Tuesday,
    Wednesday,
    Thursday,
    Friday,
    Saturday,
    Sunday,
}

pub open spec fn iso_number_spec(d: Weekday) -> u32 {
    match d {
        Weekday::Monday => 1,
        Weekday::Tuesday => 2,
        Weekday::Wednesday => 3,
        Weekday::Thursday => 4,
        Weekday::Friday => 5,
        Weekday::Saturday => 6,
        Weekday::Sunday => 7,
    }
}

impl Weekday {
    /// The ISO weekday number (1 = Monday … 7 = Sunday).
    pub fn iso_number(&self) -> (r: u32)
        ensures
            r == iso_number_spec(*self),
            1 <= r <= 7,
    {
        match self {
            Weekday::Monday => 1,
            Weekday::Tuesday => 2,
            Weekday::Wednesday => 3,
            Weekday::Thursday => 4,
            Weekday::Friday => 5,
            Weekday::Saturday => 6,
            Weekday::Sunday => 7,
        }
    }
}

/// Restricts when new MRs may be created.
#[derive(Debug, Clone)]
pub struct ScheduleWindow {
    /// Days on which MR creation is allowed; empty means all days.
    pub days: Vec<Weekday>,
    /// Hour (UTC, 0-23) at which the window opens (inclusive).
    pub hours_start: Option<u32>,
    /// Hour (UTC, 0-23) at which the window closes (exclusive).
    pub hours_end: Option<u32>,
}

/// How the candidates matched by a grouping rule are sub-grouped.
#[derive(Debug, Clone, Copy, PartialEq, Eq, Structural)]
pub enum GroupBy {
    /// By semver bump type (patch/minor/major).
    UpdateType,
    /// By package manager (docker/helm).
    Manager,
    /// One group named after the rule.
    Pattern,
    /// By the directory of the file holding the dependency.
    Path,
}

/// A rule that gathers matching dependencies into one MR.
#[derive(Debug, Clone)]
pub struct GroupingRule {
    /// Name used in branch names and MR titles.
    pub name: String,
    /// Glob patterns matched against the dependency name; empty means all.
    pub match_patterns: Vec<String>,
    /// How matched candidates are sub-grouped.
    pub group_by: GroupBy,
    /// Split major bumps into their own group.
    pub separate_major: bool,
}

pub struct GroupingRuleView {
    pub name: Seq<char>,
    pub match_patterns: Seq<Seq<char>>,
    pub group_by: GroupBy,
    pub separate_major: bool,
}

impl View for GroupingRule {
    type V = GroupingRuleView;

    open spec fn view(&self) -> GroupingRuleView {
        GroupingRuleView {
            name: self.name@,
            match_patterns: strings_view(self.match_patterns@),
            group_by: self.group_by,
            separate_major: self.separate_major,
        }
    }
}

/// How stale merge requests are remediated.
#[derive(Debug, Clone, Copy, PartialEq, Eq, Structural)]
pub enum StaleMrStrategy {
    /// Ask GitLab to rebase the MR branch onto its target branch.
    Rebase,
    /// Recreate the source branch from the target branch.
    Recreate,
    /// Leave stale MRs untouched.
    Ignore,
}

impl Default for StaleMrStrategy {
    /// The default strategy is `Rebase`.
    fn default() -> (r: Self)
        ensures
            r == StaleMrStrategy::Rebase,
    {
        StaleMrStrategy::Rebase
    }
}

#[derive(Debug, Clone)]
pub struct MergeRequestConfig {
    pub branch_prefix: String,
    pub labels: Vec<String>,
    pub grouping: String,
    pub assignees: Vec<u64>,
    pub auto_merge: bool,
    /// Per-dependency automerge policies (first match wins).
    pub automerge_policies: Vec<AutomergePolicy>,
    /// Maximum number of open reforge MRs; `None` means unlimited.
    pub max_open_mrs: Option<usize>,
    /// Window during which new MRs may be created; `None` means always.
    pub schedule_window: Option<ScheduleWindow>,
    /// Named grouping rules.
    pub grouping_rules: Vec<GroupingRule>,
    /// Whether stale MRs are checked and remediated.
    pub rebase_enabled: bool,
    /// How stale MRs are remediated.
    pub stale_mr_strategy: StaleMrStrategy,
}

#[derive(Debug, Clone)]
pub struct DashboardConfig {
    pub enabled: bool,
    pub labels: Vec<String>,
    pub local_path: String,
}

#[derive(Debug, Clone)]
pub struct ChangelogConfig {
    pub enabled: bool,
    pub max_length: usize,
    pub github_token: Option<String>,
}

#[derive(Debug, Clone)]
pub struct ReplacementConfig {
    pub enabled: bool,
    pub rules_file: Option<String>,
    pub warn_only: bool,
}

#[derive(Debug, Clone)]
pub struct LockfileConfig {
    pub enabled: bool,
}

/// Credentials for one registry host.
#[derive(Debug, Clone)]
pub struct RegistryCredential {
    pub username: Option<String>,
    /// Name of the environment variable holding the password.
    pub password_env: Option<String>,
    /// Base URL that replaces `https://<host>` for this registry.
    pub base_url: Option<String>,
}

/// The whole configuration.
#[derive(Debug, Clone)]
pub struct Config {
    pub gitlab: GitLabConfig,
    pub scan: ScanConfig,
    pub managers: ManagersConfig,
    pub versioning: VersioningConfig,
    pub merge_request: MergeRequestConfig,
    /// Credentials by registry host (hosts are distinct).
    pub registries: Vec<(String, RegistryCredential)>,
    pub dashboard: DashboardConfig,
    pub changelog: ChangelogConfig,
    pub replacement: ReplacementConfig,
    pub lockfile: LockfileConfig,
    /// When set, operate on this local git checkout instead of the GitLab API.
    pub local_path: Option<String>,
    /// Custom regex-based managers.
    pub regex_managers: Vec<RegexManagerConfig>,
}

/// Values given on the command line that override the configuration file.
#[derive(Debug, Clone)]
pub struct CliOverrides {
    pub token: Option<String>,
    pub gitlab_url: Option<String>,
    pub repo: Option<String>,
    pub local_path: Option<String>,
}

/// The GitLab instance used when none is configured.
pub fn default_gitlab_url() -> (r: String)
    ensures
        r@ == "https://gitlab.com"@,
{
    "https://gitlab.com".to_string()
}

impl Default for GitLabConfig {
    /// gitlab.com, no token, certificates checked.
    fn default() -> (r: Self)
        ensures
            r.url@ == "https://gitlab.com"@,
            r.token is None,
            !r.insecure,
    {
        GitLabConfig { url: default_gitlab_url(), token: None, insecure: false }
    }
}

impl Default for ScanConfig {
    /// No projects.
    fn default() -> (r: Self)
        ensures
            r.projects@.len() == 0,
    {
        ScanConfig { projects: Vec::new() }
    }
}

/// The managers enabled when none are configured: `helm` and `docker`.
pub fn default_managers() -> (r: Vec<String>)
    ensures
        strings_view(r@) == seq!["helm"@, "docker"@],
{
    let mut v: Vec<String> = Vec::new();
    v.push("helm".to_string());
    v.push("docker".to_string());
    assert(strings_view(v@) =~= seq!["helm"@, "docker"@]);
    v
}

impl Default for ManagersConfig {
    /// `helm` and `docker`.
    fn default() -> (r: Self)
        ensures
            strings_view(r.enabled@) == seq!["helm"@, "docker"@],
    {
        ManagersConfig { enabled: default_managers() }
    }
}

/// The pin strategy used when none is configured.
pub fn default_pin_strategy() -> (r: String)
    ensures
        r@ == "semver-minor"@,
{
    "semver-minor".to_string()
}

impl Default for VersioningConfig {
    /// `semver-minor`.
    fn default() -> (r: Self)
        ensures
            r.pin_strategy@ == "semver-minor"@,
    {
        VersioningConfig { pin_strategy: default_pin_strategy() }
    }
}

/// Automerge policies are enabled unless configured otherwise.
pub fn default_policy_enabled() -> (r: bool)
    ensures
        r,
{
    true
}

/// Grouping rules group by pattern unless configured otherwise.
pub fn default_group_by() -> (r: GroupBy)
    ensures
        r == GroupBy::Pattern,
{
    GroupBy::Pattern
}

/// The branch prefix used when none is configured.
pub fn default_branch_prefix() -> (r: String)
    ensures
        r@ == "reforge/"@,
{
    "reforge/".to_string()
}

/// The grouping used when none is configured.
pub fn default_grouping() -> (r: String)
    ensures
        r@ == "per-dependency"@,
{
    "per-dependency".to_string()
}

impl Default for MergeRequestConfig {
    /// Prefix `reforge/`, labels `reforge` and `automated`, one MR per dependency,
    /// no assignees, automerge, limit, window or rules; no stale-MR handling.
    fn default() -> (r: Self)
        ensures
            r.branch_prefix@ == "reforge/"@,
            strings_view(r.labels@) == seq!["reforge"@, "automated"@],
            r.grouping@ == "per-dependency"@,
            r.assignees@.len() == 0,
            !r.auto_merge,
            r.automerge_policies@.len() == 0,
            r.max_open_mrs is None,
            r.schedule_window is None,
            r.grouping_rules@.len() == 0,
            !r.rebase_enabled,
            r.stale_mr_strategy == StaleMrStrategy::Rebase,
    {
        let mut labels: Vec<String> = Vec::new();
        labels.push("reforge".to_string());
        labels.push("automated".to_string());
        assert(strings_view(labels@) =~= seq!["reforge"@, "automated"@]);
        MergeRequestConfig {
            branch_prefix: default_branch_prefix(),
            labels,
            grouping: default_grouping(),
            assignees: Vec::new(),
            auto_merge: false,
            automerge_policies: Vec::new(),
            max_open_mrs: None,
            schedule_window: None,
            grouping_rules: Vec::new(),
            rebase_enabled: false,
            stale_mr_strategy: StaleMrStrategy::Rebase,
        }
    }
}

/// The dashboard is on unless configured otherwise.
pub fn default_dashboard_enabled() -> (r: bool)
    ensures
        r,
{
    true
}

/// Where the local-mode dashboard is written unless configured otherwise.
pub fn default_dashboard_local_path() -> (r: String)
    ensures
        r@ == "DEPENDENCY_DASHBOARD.md"@,
{
    "DEPENDENCY_DASHBOARD.md".to_string()
}

impl Default for DashboardConfig {
    /// Enabled, labels `reforge` and `dependency-dashboard`, written to `DEPENDENCY_DASHBOARD.md`.
    fn default() -> (r: Self)
        ensures
            r.enabled,
            strings_view(r.labels@) == seq!["reforge"@, "dependency-dashboard"@],
            r.local_path@ == "DEPENDENCY_DASHBOARD.md"@,
    {
        let mut labels: Vec<String> = Vec::new();
        labels.push("reforge".to_string());
        labels.push("dependency-dashboard".to_string());
        assert(strings_view(labels@) =~= seq!["reforge"@, "dependency-dashboard"@]);
        DashboardConfig { enabled: default_dashboard_enabled(), labels, local_path: default_dashboard_local_path() }
    }
}

/// Release notes are fetched unless configured otherwise.
pub fn default_changelog_enabled() -> (r: bool)
    ensures
        r,
{
    true
}

/// The byte length release notes are cut to unless configured otherwise.
pub fn default_changelog_max_length() -> (r: usize)
    ensures
        r == 2000,
{
    2000
}

impl Default for ChangelogConfig {
    /// Enabled, cut at 2000 bytes; the GitHub token is filled from the
    /// environment by the program, not here.
    fn default() -> (r: Self)
        ensures
            r.enabled,
            r.max_length == 2000,
            r.github_token is None,
    {
        ChangelogConfig { enabled: default_changelog_enabled(), max_length: default_changelog_max_length(), github_token: None }
    }
}

impl Default for ReplacementConfig {
    /// Off, no rules file, migrations proposed (not only warned about).
    fn default() -> (r: Self)
        ensures
            !r.enabled,
            r.rules_file is None,
            !r.warn_only,
    {
        ReplacementConfig { enabled: false, rules_file: None, warn_only: false }
    }
}

impl Default for LockfileConfig {
    /// Off.
    fn default() -> (r: Self)
        ensures
            !r.enabled,
    {
        LockfileConfig { enabled: false }
    }
}

/// The environment values the configuration layers on: `REFORGE_*` first,
/// `RENOVATE_*` accepted for migration, and `GITHUB_TOKEN`.
#[derive(Debug, Clone)]
pub struct EnvValues {
    pub reforge_gitlab_url: Option<String>,
    pub renovate_gitlab_url: Option<String>,
    pub reforge_token: Option<String>,
    pub renovate_token: Option<String>,
    pub github_token: Option<String>,
}

/// The first value that is present.
pub open spec fn first_of(a: Option<Seq<char>>, b: Option<Seq<char>>) -> Option<Seq<char>> {
    match a {
        Some(x) => Some(x),
        None => b,
    }
}

fn first_present(a: &Option<String>, b: &Option<String>) -> (r: Option<String>)
    ensures
        opt_view(r) == first_of(opt_view(*a), opt_view(*b)),
{
    match a {
        Some(x) => Some(crate::text::copy_string(x)),
        None => crate::text::copy_opt_string(b),
    }
}

impl Config {
    /// A configuration from command-line options alone: the GitLab URL from the
    /// option, else the environment, else gitlab.com; the token from the option,
    /// else the environment; the one repository given, if any; defaults elsewhere.
    pub fn from_cli(cli_overrides: CliOverrides, env: &EnvValues) -> (r: Result<Self, ReforgeError>)
        ensures
            r matches Ok(c) && c.gitlab.url@ == (match first_of(
                opt_view(cli_overrides.gitlab_url),
                first_of(opt_view(env.reforge_gitlab_url), opt_view(env.renovate_gitlab_url)),
            ) {
                Some(u) => u,
                None => "https://gitlab.com"@,
            }) && opt_view(c.gitlab.token) == first_of(
                opt_view(cli_overrides.token),
                first_of(opt_view(env.reforge_token), opt_view(env.renovate_token)),
            ) && strings_view(c.scan.projects@) == (match cli_overrides.repo {
                Some(p) => seq![p@],
                None => Seq::<Seq<char>>::empty(),
            }) && opt_view(c.local_path) == opt_view(cli_overrides.local_path) && opt_view(c.changelog.github_token)
                == opt_view(env.github_token) && c.registries@.len() == 0 && c.regex_managers@.len() == 0,
    {
        let env_url = first_present(&env.reforge_gitlab_url, &env.renovate_gitlab_url);
        let url = match first_present(&cli_overrides.gitlab_url, &env_url) {
            Some(u) => u,
            None => default_gitlab_url(),
        };
        let env_token = first_present(&env.reforge_token, &env.renovate_token);
        let token = first_present(&cli_overrides.token, &env_token);
        let mut projects: Vec<String> = Vec::new();
        match &cli_overrides.repo {
            Some(r) => {
                projects.push(crate::text::copy_string(r));
                assert(strings_view(projects@) =~= seq![r@]);
            },
            None => {
                assert(strings_view(projects@) =~= Seq::<Seq<char>>::empty());
            },
        }
        let mut changelog = ChangelogConfig::default();
        changelog.github_token = crate::text::copy_opt_string(&env.github_token);
        Ok(Config {
            gitlab: GitLabConfig { url, token, insecure: false },
            scan: ScanConfig { projects },
            managers: ManagersConfig::default(),
            versioning: VersioningConfig::default(),
            merge_request: MergeRequestConfig::default(),
            registries: Vec::new(),
            dashboard: DashboardConfig::default(),
            changelog,
            replacement: ReplacementConfig::default(),
            lockfile: LockfileConfig::default(),
            local_path: cli_overrides.local_path,
            regex_managers: Vec::new(),
        })
    }

    /// Layers the environment and the command line over a loaded configuration
    /// and validates its regex managers: a missing GitHub token and GitLab token
    /// come from the environment, an environment GitLab URL replaces the file's,
    /// and each command-line option replaces what it names.
    pub fn apply_overrides(&mut self, cli_overrides: CliOverrides, env: &EnvValues) -> (r: Result<(), ReforgeError>)
        ensures
            r is Ok ==> opt_view(final(self).changelog.github_token) == first_of(opt_view(old(self).changelog.github_token), opt_view(env.github_token)),
            r is Ok ==> opt_view(final(self).gitlab.token) == first_of(
                opt_view(cli_overrides.token),
                first_of(opt_view(old(self).gitlab.token), first_of(opt_view(env.reforge_token), opt_view(env.renovate_token))),
            ),
            r is Ok ==> final(self).gitlab.url@ == (match first_of(
                opt_view(cli_overrides.gitlab_url),
                first_of(opt_view(env.reforge_gitlab_url), opt_view(env.renovate_gitlab_url)),
            ) {
                Some(u) => u,
                None => old(self).gitlab.url@,
            }),
            r is Ok ==> strings_view(final(self).scan.projects@) == (match cli_overrides.repo {
                Some(p) => seq![p@],
                None => strings_view(old(self).scan.projects@),
            }),
            r is Ok ==> opt_view(final(self).local_path) == first_of(opt_view(cli_overrides.local_path), opt_view(old(self).local_path)),
            final(self).regex_managers@ == old(self).regex_managers@,
            r is Err ==> *final(self) == *old(self),
            final(self).gitlab.insecure == old(self).gitlab.insecure,
            final(self).managers == old(self).managers,
            final(self).versioning == old(self).versioning,
            final(self).merge_request == old(self).merge_request,
            final(self).registries == old(self).registries,
            final(self).dashboard == old(self).dashboard,
            final(self).changelog.enabled == old(self).changelog.enabled,
            final(self).changelog.max_length == old(self).changelog.max_length,
            final(self).replacement == old(self).replacement,
            final(self).lockfile == old(self).lockfile,
            match r {
                Ok(()) => forall|i: int| 0 <= i < old(self).regex_managers@.len() ==> validate_spec(#[trigger] old(self).regex_managers@[i]@) is Ok,
                Err(e) => exists|i: int| 0 <= i < old(self).regex_managers@.len() && validate_spec(#[trigger] old(self).regex_managers@[i]@) == Err::<(), ReforgeErrorView>(e@)
                    && forall|j: int| 0 <= j < i ==> validate_spec(#[trigger] old(self).regex_managers@[j]@) is Ok,
            },
    {
        let mut i: usize = 0;
        while i < self.regex_managers.len()
            invariant
                i <= self.regex_managers@.len(),
                *self == *old(self),
                forall|j: int| 0 <= j < i ==> validate_spec(#[trigger] old(self).regex_managers@[j]@) is Ok,
            decreases self.regex_managers@.len() - i,
        {
            match self.regex_managers[i].validate() {
                Ok(()) => {},
                Err(e) => {
                    return Err(e);
                },
            }
            i = i + 1;
        }
        self.changelog.github_token = first_present(&self.changelog.github_token, &env.github_token);
        let env_token = first_present(&env.reforge_token, &env.renovate_token);
        let file_or_env = first_present(&self.gitlab.token, &env_token);
        self.gitlab.token = first_present(&cli_overrides.token, &file_or_env);
        let env_url = first_present(&env.reforge_gitlab_url, &env.renovate_gitlab_url);
        match first_present(&cli_overrides.gitlab_url, &env_url) {
            Some(u) => {
                self.gitlab.url = u;
            },
            None => {},
        }
        match &cli_overrides.repo {
            Some(r) => {
                let mut projects: Vec<String> = Vec::new();
                projects.push(crate::text::copy_string(r));
                assert(strings_view(projects@) =~= seq![r@]);
                self.scan.projects = projects;
            },
            None => {},
        }
        match cli_overrides.local_path {
            Some(p) => {
                self.local_path = Some(p);
            },
            None => {},
        }
        Ok(())
    }
}

} // verus!
