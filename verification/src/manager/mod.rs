//! Package managers for detecting dependencies in different file formats.
//!
//! - [`docker::DockerManager`] — Dockerfiles and docker-compose files
//! - [`helm::HelmManager`] — Chart.yaml and values.yaml
//! - [`regex::RegexManager`] — user-defined regex patterns
pub mod docker;
pub mod helm;
pub mod regex;
pub mod yaml;

use vstd::prelude::*;

use crate::error::ReforgeError;
use crate::text::copy_string;
use crate::text::copy_strings;
use crate::text::copy_opt_string;
use crate::text::opt_view;
use crate::text::strings_view;

verus! {

/// Source registry for looking up available versions.
#[derive(Debug, Clone, PartialEq, Eq)]
pub enum RegistrySource {
    /// A Docker/OCI container image.
    DockerRegistry { image: String, registry: Option<String> },
    /// A Helm chart hosted in an HTTP-based chart repository.
    HelmRepository { repo_url: String, chart_name: String },
    /// A Helm chart stored in an OCI registry.
    OciHelmRegistry { image: String, registry: Option<String> },
}

pub enum RegistrySourceView {
    DockerRegistry { image: Seq<char>, registry: Option<Seq<char>> },
    HelmRepository { repo_url: Seq<char>, chart_name: Seq<char> },
    OciHelmRegistry { image: Seq<char>, registry: Option<Seq<char>> },
}

impl View for RegistrySource {
    type V = RegistrySourceView;

    open spec fn view(&self) -> RegistrySourceView {
        match self {
            RegistrySource::DockerRegistry { image, registry } => RegistrySourceView::DockerRegistry {
                image: image@,
                registry: opt_view(*registry),
            },
            RegistrySource::HelmRepository { repo_url, chart_name } => RegistrySourceView::HelmRepository {
                repo_url: repo_url@,
                chart_name: chart_name@,
            },
            RegistrySource::OciHelmRegistry { image, registry } => RegistrySourceView::OciHelmRegistry {
                image: image@,
                registry: opt_view(*registry),
            },
        }
    }
}

impl RegistrySource {
    /// A copy with the same value.
    pub fn duplicate(&self) -> (r: Self)
        ensures
            r@ == self@,
    {
        match self {
            RegistrySource::DockerRegistry { image, registry } => RegistrySource::DockerRegistry {
                image: copy_string(image),
                registry: copy_opt_string(registry),
            },
            RegistrySource::HelmRepository { repo_url, chart_name } => RegistrySource::HelmRepository {
                repo_url: copy_string(repo_url),
                chart_name: copy_string(chart_name),
            },
            RegistrySource::OciHelmRegistry { image, registry } => RegistrySource::OciHelmRegistry {
                image: copy_string(image),
                registry: copy_opt_string(registry),
            },
        }
    }
}

/// Context needed to apply a version update to a specific location in a file.
#[derive(Debug, Clone, PartialEq, Eq)]
pub enum UpdateContext {
    /// A version value at a YAML key path.
    YamlKeyPath { keys: Vec<String> },
    /// A `FROM` instruction in a Dockerfile (zero-based line number).
    DockerFrom { line_number: usize, full_reference: String },
    /// An `image:` key in a docker-compose service.
    DockerComposeImage { service_path: Vec<String>, full_reference: String },
    /// A match produced by a custom regex manager.
    RegexMatch { matched_text: String, old_value: String },
}

pub enum UpdateContextView {
    YamlKeyPath { keys: Seq<Seq<char>> },
    DockerFrom { line_number: usize, full_reference: Seq<char> },
    DockerComposeImage { service_path: Seq<Seq<char>>, full_reference: Seq<char> },
    RegexMatch { matched_text: Seq<char>, old_value: Seq<char> },
}

impl View for UpdateContext {
    type V = UpdateContextView;

    open spec fn view(&self) -> UpdateContextView {
        match self {
            UpdateContext::YamlKeyPath { keys } => UpdateContextView::YamlKeyPath {
                keys: strings_view(keys@),
            },
            UpdateContext::DockerFrom { line_number, full_reference } => UpdateContextView::DockerFrom {
                line_number: *line_number,
                full_reference: full_reference@,
            },
            UpdateContext::DockerComposeImage { service_path, full_reference } => UpdateContextView::DockerComposeImage {
                service_path: strings_view(service_path@),
                full_reference: full_reference@,
            },
            UpdateContext::RegexMatch { matched_text, old_value } => UpdateContextView::RegexMatch {
                matched_text: matched_text@,
                old_value: old_value@,
            },
        }
    }
}

impl UpdateContext {
    /// A copy with the same value.
    pub fn duplicate(&self) -> (r: Self)
        ensures
            r@ == self@,
    {
        match self {
            UpdateContext::YamlKeyPath { keys } => UpdateContext::YamlKeyPath {
                keys: copy_strings(keys),
            },
            UpdateContext::DockerFrom { line_number, full_reference } => UpdateContext::DockerFrom {
                line_number: *line_number,
                full_reference: copy_string(full_reference),
            },
            UpdateContext::DockerComposeImage { service_path, full_reference } => UpdateContext::DockerComposeImage {
                service_path: copy_strings(service_path),
                full_reference: copy_string(full_reference),
            },
            UpdateContext::RegexMatch { matched_text, old_value } => UpdateContext::RegexMatch {
                matched_text: copy_string(matched_text),
                old_value: copy_string(old_value),
            },
        }
    }
}

/// A dependency detected in a managed file.
#[derive(Debug, Clone, PartialEq, Eq)]
pub struct Dependency {
    /// Human-readable name of the dependency.
    pub name: String,
    /// Current version string as found in the file.
    pub current_version: String,
    /// Where to look up available versions.
    pub registry: RegistrySource,
    /// Path to the file containing this dependency.
    pub file_path: String,
    /// Information needed to update the version in the file.
    pub update_context: UpdateContext,
}

pub struct DependencyView {
    pub name: Seq<char>,
    pub current_version: Seq<char>,
    pub registry: RegistrySourceView,
    pub file_path: Seq<char>,
    pub update_context: UpdateContextView,
}

impl View for Dependency {
    type V = DependencyView;

    open spec fn view(&self) -> DependencyView {
        DependencyView {
            name: self.name@,
            current_version: self.current_version@,
            registry: self.registry@,
            file_path: self.file_path@,
            update_context: self.update_context@,
        }
    }
}

impl Dependency {
    /// A copy with the same value.
    pub fn duplicate(&self) -> (r: Self)
        ensures
            r@ == self@,
    {
        Dependency {
            name: copy_string(&self.name),
            current_version: copy_string(&self.current_version),
            registry: self.registry.duplicate(),
            file_path: copy_string(&self.file_path),
            update_context: self.update_context.duplicate(),
        }
    }
}

pub open spec fn deps_view(v: Seq<Dependency>) -> Seq<DependencyView> {
    v.map_values(|d: Dependency| d@)
}

/// Extracts dependencies from configuration files.
pub trait PackageManager {
    /// The manager's name for logging and branch naming.
    fn name(&self) -> &'static str;

    /// Glob patterns for files this manager can process.
    fn file_patterns(&self) -> Vec<&'static str>;

    /// Extracts dependencies from the text of the file at `file_path`.
    fn extract_dependencies(&self, file_path: &str, contents: &str) -> Result<Vec<Dependency>, ReforgeError>;
}

} // verus!
