//! Docker/OCI container image dependency manager: image references in
//! Dockerfiles and docker-compose files.
use vstd::prelude::*;

use crate::error::ReforgeError;
use crate::error::ReforgeErrorView;
use crate::manager::deps_view;
use crate::manager::yaml::parse_yaml;
use crate::manager::yaml::value_get;
use crate::manager::yaml::value_get_ref;
use crate::manager::yaml::yaml_as_str;
use crate::manager::yaml::yaml_parse;
use crate::manager::yaml::yaml_view;
use crate::manager::yaml::YamlValue;
use crate::manager::yaml::YamlView;
use crate::manager::Dependency;
use crate::manager::DependencyView;
use crate::manager::PackageManager;
use crate::manager::RegistrySource;
use crate::manager::RegistrySourceView;
use crate::manager::UpdateContext;
use crate::manager::UpdateContextView;
use crate::regexp::captures;
use crate::regexp::compile;
use crate::regexp::regex_first_captures;
use crate::regexp::regex_new_error;
use crate::regexp::CompiledRegex;
use crate::text::chars_of;
use crate::text::find_char;
use crate::text::find_spec;
use crate::text::lines_of;
use crate::text::lines_spec;
use crate::text::opt_view;
use crate::text::rfind_char;
use crate::text::rfind_spec;
use crate::text::slice_of;
use crate::text::string_of;
use crate::text::trim_chars;
use crate::text::trim_spec;
use crate::text::vecs_view;
use crate::util::parse_image_reference;
use crate::util::parse_image_reference_spec;

verus! {

/// `FROM [--platform=..] <reference> [AS <name>]`, case-insensitive; group 1 is the reference.
pub const FROM_PATTERN: &'static str = "(?i)^FROM\\s+(?:--platform=\\S+\\s+)?(?P<reference>[^\\s]+)\\s*(?:AS\\s+\\S+)?$";

/// `ARG <NAME>=<image>[:<tag>][@sha256:..]`; groups: 1 name, 2 image, 3 tag.
pub const ARG_IMAGE_PATTERN: &'static str = "^ARG\\s+(\\w+)=(.+?)(?::(?P<tag>[^\\s@]+))?(?:@sha256:\\w+)?\\s*$";

/// `FROM [--platform=..] ${NAME}`, case-insensitive; group 1 is the variable name.
pub const FROM_VAR_PATTERN: &'static str = "(?i)^FROM\\s+(?:--platform=\\S+\\s+)?\\$\\{?(\\w+)\\}?\\s*";

/// Extracts Docker image dependencies from Dockerfiles and compose files.
#[derive(Debug, Default)]
pub struct DockerManager;

/// An image reference split into image and tag: any `@digest` is dropped, then
/// the text after the last `:` is the tag unless it holds a `/` (a registry port).
pub open spec fn split_image_tag_spec(s: Seq<char>) -> Option<(Seq<char>, Seq<char>)> {
    let base = match find_spec(s, '@') {
        Some(i) => s.subrange(0, i),
        None => s,
    };
    match rfind_spec(base, ':') {
        Some(c) => {
            let tag = base.subrange(c + 1, base.len() as int);
            if tag.contains('/') {
                None
            } else {
                Some((base.subrange(0, c), tag))
            }
        },
        None => None,
    }
}

/// The dependency on an image at a tag, found in `file_path`.
pub open spec fn image_dep(image: Seq<char>, tag: Seq<char>, file_path: Seq<char>, ctx: UpdateContextView) -> DependencyView {
    let (registry, name) = parse_image_reference_spec(image);
    DependencyView {
        name,
        current_version: tag,
        registry: RegistrySourceView::DockerRegistry { image: name, registry },
        file_path,
        update_context: ctx,
    }
}

/// Group `i` of a match, empty when it did not take part.
pub open spec fn group(g: Seq<Option<Seq<char>>>, i: int) -> Seq<char> {
    if 0 <= i < g.len() && g[i] is Some {
        g[i]->0
    } else {
        seq![]
    }
}

/// Group `i` of a match, when it took part.
pub open spec fn opt_group(g: Seq<Option<Seq<char>>>, i: int) -> Option<Seq<char>> {
    if 0 <= i < g.len() {
        g[i]
    } else {
        None
    }
}

/// What a trimmed Dockerfile line is.
pub enum DockerLine {
    /// `ARG name=image[:tag]`.
    Arg(Seq<char>, Seq<char>, Option<Seq<char>>),
    /// `FROM ${name}`.
    FromVar(Seq<char>),
    /// `FROM reference`.
    From(Seq<char>),
    Other,
}

/// Classifies a trimmed line: an `ARG` image definition first, then a `FROM` of a
/// variable, then a plain `FROM`.
pub open spec fn docker_line(t: Seq<char>) -> DockerLine {
    match regex_first_captures(ARG_IMAGE_PATTERN@, false, t) {
        Some(g) => DockerLine::Arg(group(g, 1), group(g, 2), opt_group(g, 3)),
        None => match regex_first_captures(FROM_VAR_PATTERN@, false, t) {
            Some(g) => DockerLine::FromVar(group(g, 1)),
            None => match regex_first_captures(FROM_PATTERN@, false, t) {
                Some(g) => DockerLine::From(group(g, 1)),
                None => DockerLine::Other,
            },
        },
    }
}

/// The dependency of a plain `FROM` at line `n`: none for digest-only
/// references or references without a tag.
pub open spec fn from_line_dep(reference: Seq<char>, n: int, file_path: Seq<char>) -> Option<DependencyView> {
    if reference.contains('@') && !reference.contains(':') {
        None
    } else {
        match split_image_tag_spec(reference) {
            Some((image, tag)) => Some(
                image_dep(
                    image,
                    tag,
                    file_path,
                    UpdateContextView::DockerFrom { line_number: n as usize, full_reference: image + ":"@ + tag },
                ),
            ),
            None => None,
        }
    }
}

/// The classification of each line of a text, trimmed.
pub open spec fn line_kinds(lines: Seq<Seq<char>>) -> Seq<DockerLine> {
    lines.map_values(|l: Seq<char>| docker_line(trim_spec(l)))
}

/// The dependencies of the plain `FROM` lines, in order (a line's number is its
/// position).
pub open spec fn from_deps(kinds: Seq<DockerLine>, file_path: Seq<char>) -> Seq<DependencyView>
    decreases kinds.len(),
{
    if kinds.len() == 0 {
        seq![]
    } else {
        let prev = from_deps(kinds.drop_last(), file_path);
        match kinds.last() {
            DockerLine::From(reference) => match from_line_dep(reference, kinds.len() - 1, file_path) {
                Some(d) => prev.push(d),
                None => prev,
            },
            _ => prev,
        }
    }
}

/// The variables named by `FROM ${..}` lines, in order.
pub open spec fn var_refs(kinds: Seq<DockerLine>) -> Seq<Seq<char>>
    decreases kinds.len(),
{
    if kinds.len() == 0 {
        seq![]
    } else {
        let prev = var_refs(kinds.drop_last());
        match kinds.last() {
            DockerLine::FromVar(v) => prev.push(v),
            _ => prev,
        }
    }
}

/// The `ARG` image definitions that carry a tag: name, image, tag, line.
pub open spec fn arg_defs(kinds: Seq<DockerLine>) -> Seq<(Seq<char>, Seq<char>, Seq<char>, int)>
    decreases kinds.len(),
{
    if kinds.len() == 0 {
        seq![]
    } else {
        let prev = arg_defs(kinds.drop_last());
        match kinds.last() {
            DockerLine::Arg(v, image, Some(tag)) => prev.push((v, image, tag, kinds.len() - 1)),
            _ => prev,
        }
    }
}

/// The last definition of a variable.
pub open spec fn last_def(defs: Seq<(Seq<char>, Seq<char>, Seq<char>, int)>, v: Seq<char>) -> Option<(Seq<char>, Seq<char>, int)>
    decreases defs.len(),
{
    if defs.len() == 0 {
        None
    } else if defs.last().0 == v {
        Some((defs.last().1, defs.last().2, defs.last().3))
    } else {
        last_def(defs.drop_last(), v)
    }
}

/// The dependencies of `FROM ${var}` lines whose variable an `ARG` defines (the
/// last definition in the file wins), in the order of the `FROM` lines.
pub open spec fn var_deps(refs: Seq<Seq<char>>, defs: Seq<(Seq<char>, Seq<char>, Seq<char>, int)>, file_path: Seq<char>) -> Seq<DependencyView>
    decreases refs.len(),
{
    if refs.len() == 0 {
        seq![]
    } else {
        let prev = var_deps(refs.drop_last(), defs, file_path);
        match last_def(defs, refs.last()) {
            Some((image, tag, n)) => prev.push(
                image_dep(
                    image,
                    tag,
                    file_path,
                    UpdateContextView::DockerFrom { line_number: n as usize, full_reference: image + ":"@ + tag },
                ),
            ),
            None => prev,
        }
    }
}

/// The dependencies of a Dockerfile whose lines are classified as `kinds`: the
/// plain `FROM` images, then the images of `FROM ${var}` lines resolved through
/// `ARG` definitions.
pub open spec fn line_kinds_deps(kinds: Seq<DockerLine>, file_path: Seq<char>) -> Seq<DependencyView> {
    from_deps(kinds, file_path) + var_deps(var_refs(kinds), arg_defs(kinds), file_path)
}

/// The dependencies of a Dockerfile's text.
pub open spec fn dockerfile_deps_spec(file_path: Seq<char>, contents: Seq<char>) -> Seq<DependencyView> {
    line_kinds_deps(line_kinds(lines_spec(contents)), file_path)
}

pub open spec fn deps_result_view(r: Result<Vec<Dependency>, ReforgeError>) -> Result<Seq<DependencyView>, ReforgeErrorView> {
    match r {
        Ok(v) => Ok(deps_view(v@)),
        Err(e) => Err(e@),
    }
}

/// A Dockerfile's result: its dependencies, or the error of a pattern that failed to compile.
pub open spec fn dockerfile_result(file_path: Seq<char>, contents: Seq<char>) -> Result<Seq<DependencyView>, ReforgeErrorView> {
    if regex_new_error(ARG_IMAGE_PATTERN@) is Some {
        Err(ReforgeErrorView::Config(regex_new_error(ARG_IMAGE_PATTERN@)->0))
    } else if regex_new_error(FROM_VAR_PATTERN@) is Some {
        Err(ReforgeErrorView::Config(regex_new_error(FROM_VAR_PATTERN@)->0))
    } else if regex_new_error(FROM_PATTERN@) is Some {
        Err(ReforgeErrorView::Config(regex_new_error(FROM_PATTERN@)->0))
    } else {
        Ok(dockerfile_deps_spec(file_path, contents))
    }
}

/// The services' image dependencies of a compose document, in service order.
pub open spec fn compose_entries(m: Seq<(YamlView, YamlView)>, file_path: Seq<char>) -> Seq<DependencyView>
    decreases m.len(),
{
    if m.len() == 0 {
        seq![]
    } else {
        let prev = compose_entries(m.drop_last(), file_path);
        let (key, cfg) = m.last();
        let svc = match yaml_as_str(key) {
            Some(s) => s,
            None => "unknown"@,
        };
        match value_get(cfg, "image"@) {
            Some(iv) => match yaml_as_str(iv) {
                Some(s) => match split_image_tag_spec(s) {
                    Some((image, tag)) => prev.push(
                        image_dep(
                            image,
                            tag,
                            file_path,
                            UpdateContextView::DockerComposeImage {
                                service_path: seq!["services"@, svc, "image"@],
                                full_reference: s,
                            },
                        ),
                    ),
                    None => prev,
                },
                None => prev,
            },
            None => prev,
        }
    }
}

/// The image dependencies of a compose document's `services` mapping.
pub open spec fn compose_deps_spec(root: YamlView, file_path: Seq<char>) -> Seq<DependencyView> {
    match value_get(root, "services"@) {
        Some(YamlView::Mapping(m)) => compose_entries(m, file_path),
        _ => seq![],
    }
}

/// A compose file's result: the image dependencies of its `services` mapping, or
/// a parse error.
pub open spec fn compose_result(file_path: Seq<char>, contents: Seq<char>) -> Result<Seq<DependencyView>, ReforgeErrorView> {
    match yaml_parse(contents) {
        Ok(root) => Ok(compose_deps_spec(root, file_path)),
        Err(e) => Err(ReforgeErrorView::Parse { file: file_path, reason: "YAML parse error: "@ + e }),
    }
}

/// The last path segment.
pub open spec fn file_name_spec(path: Seq<char>) -> Seq<char> {
    match rfind_spec(path, '/') {
        Some(i) => path.subrange(i + 1, path.len() as int),
        None => path,
    }
}

/// The last segment of a path (the text after its last `/`).
pub fn file_name(path: &str) -> (r: Vec<char>)
    ensures
        r@ == file_name_spec(path@),
{
    let p = chars_of(path);
    match rfind_char(&p, '/') {
        Some(i) => {
            proof {
                crate::text::lemma_rfind_spec(p@, '/');
            }
            slice_of(&p, i + 1, p.len())
        },
        None => p,
    }
}

/// A Dockerfile (by name) is read line by line; anything else as a compose file.
pub open spec fn docker_extract_spec(file_path: Seq<char>, contents: Seq<char>) -> Result<Seq<DependencyView>, ReforgeErrorView> {
    if crate::text::starts_with_spec(file_name_spec(file_path), "Dockerfile"@) {
        dockerfile_result(file_path, contents)
    } else {
        compose_result(file_path, contents)
    }
}

fn docker_dep(image: &Vec<char>, tag: &Vec<char>, file_path: &str, ctx: UpdateContext) -> (r: Dependency)
    ensures
        r@ == image_dep(image@, tag@, file_path@, ctx@),
{
    let (registry, name) = parse_image_reference(string_of(image).as_str());
    Dependency {
        name: crate::text::copy_string(&name),
        current_version: string_of(tag),
        registry: RegistrySource::DockerRegistry { image: name, registry },
        file_path: file_path.to_string(),
        update_context: ctx,
    }
}

fn group_at(g: &Vec<Option<String>>, i: usize) -> (r: Vec<char>)
    ensures
        r@ == group(crate::regexp::opt_strings_view(g@), i as int),
{
    if i < g.len() {
        match &g[i] {
            Some(s) => chars_of(s.as_str()),
            None => Vec::new(),
        }
    } else {
        Vec::new()
    }
}

fn opt_group_at(g: &Vec<Option<String>>, i: usize) -> (r: Option<Vec<char>>)
    ensures
        match r {
            Some(v) => opt_group(crate::regexp::opt_strings_view(g@), i as int) == Some(v@),
            None => opt_group(crate::regexp::opt_strings_view(g@), i as int) is None,
        },
{
    if i < g.len() {
        match &g[i] {
            Some(s) => Some(chars_of(s.as_str())),
            None => None,
        }
    } else {
        None
    }
}

/// The split of a reference into image and tag (see [`split_image_tag_spec`]).
fn split_image_tag_chars(s: &Vec<char>) -> (r: Option<(Vec<char>, Vec<char>)>)
    ensures
        match r {
            Some((a, b)) => split_image_tag_spec(s@) == Some((a@, b@)),
            None => split_image_tag_spec(s@) is None,
        },
{
    proof {
        crate::text::lemma_find_spec(s@, '@');
    }
    let base = match find_char(s, '@') {
        Some(i) => slice_of(s, 0, i),
        None => slice_of(s, 0, s.len()),
    };
    assert(s@.subrange(0, s@.len() as int) =~= s@);
    match rfind_char(&base, ':') {
        Some(c) => {
            proof {
                crate::text::lemma_rfind_spec(base@, ':');
            }
            let tag = slice_of(&base, c + 1, base.len());
            if crate::text::contains_char(&tag, '/') {
                None
            } else {
                Some((slice_of(&base, 0, c), tag))
            }
        },
        None => None,
    }
}

pub open spec fn defs_view(v: Seq<(Vec<char>, Vec<char>, Vec<char>, usize)>) -> Seq<(Seq<char>, Seq<char>, Seq<char>, int)> {
    v.map_values(|d: (Vec<char>, Vec<char>, Vec<char>, usize)| (d.0@, d.1@, d.2@, d.3 as int))
}

/// A classified Dockerfile line (see [`DockerLine`]).
#[derive(Debug)]
pub enum DockerLineKind {
    /// `ARG name=image[:tag]`: the name, the image and the tag when there is one.
    Arg(String, String, Option<String>),
    /// `FROM ${name}`: the variable's name.
    FromVar(String),
    /// `FROM reference`: the reference.
    From(String),
    Other,
}

impl View for DockerLineKind {
    type V = DockerLine;

    open spec fn view(&self) -> DockerLine {
        match self {
            DockerLineKind::Arg(name, image, tag) => DockerLine::Arg(name@, image@, opt_view(*tag)),
            DockerLineKind::FromVar(name) => DockerLine::FromVar(name@),
            DockerLineKind::From(reference) => DockerLine::From(reference@),
            DockerLineKind::Other => DockerLine::Other,
        }
    }
}

pub open spec fn kinds_view(v: Seq<DockerLineKind>) -> Seq<DockerLine> {
    v.map_values(|k: DockerLineKind| k@)
}

fn classify_line(t: &Vec<char>, arg_re: &CompiledRegex, var_re: &CompiledRegex, from_re: &CompiledRegex) -> (r: DockerLineKind)
    requires
        arg_re.pattern_text() == ARG_IMAGE_PATTERN@ && !arg_re.is_dotall(),
        var_re.pattern_text() == FROM_VAR_PATTERN@ && !var_re.is_dotall(),
        from_re.pattern_text() == FROM_PATTERN@ && !from_re.is_dotall(),
    ensures
        r@ == docker_line(t@),
{
    let ts = string_of(t);
    match captures(arg_re, ts.as_str()) {
        Some(g) => {
            let tag = match opt_group_at(&g, 3) {
                Some(x) => Some(string_of(&x)),
                None => None,
            };
            DockerLineKind::Arg(string_of(&group_at(&g, 1)), string_of(&group_at(&g, 2)), tag)
        },
        None => match captures(var_re, ts.as_str()) {
            Some(g) => DockerLineKind::FromVar(string_of(&group_at(&g, 1))),
            None => match captures(from_re, ts.as_str()) {
                Some(g) => DockerLineKind::From(string_of(&group_at(&g, 1))),
                None => DockerLineKind::Other,
            },
        },
    }
}

fn last_def_of(defs: &Vec<(Vec<char>, Vec<char>, Vec<char>, usize)>, v: &Vec<char>) -> (r: Option<usize>)
    ensures
        match r {
            Some(k) => k < defs@.len() && last_def(defs_view(defs@), v@) == Some(
                (defs@[k as int].1@, defs@[k as int].2@, defs@[k as int].3 as int),
            ),
            None => last_def(defs_view(defs@), v@) is None,
        },
{
    let ghost dv = defs_view(defs@);
    let mut i: usize = defs.len();
    assert(dv.take(i as int) =~= dv);
    while i > 0
        invariant
            i <= defs@.len(),
            dv == defs_view(defs@),
            last_def(dv, v@) == last_def(dv.take(i as int), v@),
        decreases i,
    {
        assert(dv.take(i as int).drop_last() =~= dv.take(i - 1));
        assert(dv.take(i as int).last() == dv[i - 1]);
        if crate::text::chars_eq(&defs[i - 1].0, v) {
            return Some(i - 1);
        }
        i = i - 1;
    }
    None
}

impl DockerManager {
    /// A Docker manager.
    pub fn new() -> (r: Self) {
        DockerManager
    }

    /// Splits an image reference into image and tag (see [`split_image_tag_spec`]).
    pub fn split_image_tag(image_str: &str) -> (r: Option<(String, String)>)
        ensures
            match r {
                Some((a, b)) => split_image_tag_spec(image_str@) == Some((a@, b@)),
                None => split_image_tag_spec(image_str@) is None,
            },
    {
        match split_image_tag_chars(&chars_of(image_str)) {
            Some((a, b)) => Some((string_of(&a), string_of(&b))),
            None => None,
        }
    }

    /// Reads the image dependencies of a Dockerfile.
    pub fn extract_dockerfile_deps(&self, file_path: &str, contents: &str) -> (r: Result<Vec<Dependency>, ReforgeError>)
        ensures
            deps_result_view(r) == dockerfile_result(file_path@, contents@),
    {
        let arg_re = match compile(ARG_IMAGE_PATTERN) {
            Ok(re) => re,
            Err(e) => {
                return Err(ReforgeError::Config(e));
            },
        };
        let var_re = match compile(FROM_VAR_PATTERN) {
            Ok(re) => re,
            Err(e) => {
                return Err(ReforgeError::Config(e));
            },
        };
        let from_re = match compile(FROM_PATTERN) {
            Ok(re) => re,
            Err(e) => {
                return Err(ReforgeError::Config(e));
            },
        };
        let text = chars_of(contents);
        let lines = lines_of(&text);
        let ghost ls = lines_spec(contents@);
        let mut kinds: Vec<DockerLineKind> = Vec::new();
        let mut i: usize = 0;
        while i < lines.len()
            invariant
                i <= lines@.len(),
                vecs_view(lines@) == ls,
                arg_re.pattern_text() == ARG_IMAGE_PATTERN@ && !arg_re.is_dotall(),
                var_re.pattern_text() == FROM_VAR_PATTERN@ && !var_re.is_dotall(),
                from_re.pattern_text() == FROM_PATTERN@ && !from_re.is_dotall(),
                kinds_view(kinds@) == line_kinds(ls.take(i as int)),
            decreases lines@.len() - i,
        {
            let trimmed = trim_chars(&lines[i]);
            let k = classify_line(&trimmed, &arg_re, &var_re, &from_re);
            let ghost before = kinds_view(kinds@);
            let ghost kv = k@;
            kinds.push(k);
            assert(kinds_view(kinds@) =~= before.push(kv));
            assert(line_kinds(ls.take(i + 1)) =~= line_kinds(ls.take(i as int)).push(docker_line(trim_spec(ls[i as int]))));
            i = i + 1;
        }
        assert(ls.take(lines@.len() as int) =~= ls);
        Ok(self.deps_from_line_kinds(file_path, &kinds))
    }

    /// The image dependencies of a Dockerfile whose lines (trimmed) are
    /// classified as `kinds`: the plain `FROM` images in order, then the images
    /// of `FROM ${var}` lines resolved through the last `ARG` that defines the
    /// variable with a tag.
    pub fn deps_from_line_kinds(&self, file_path: &str, kinds: &Vec<DockerLineKind>) -> (r: Vec<Dependency>)
        ensures
            deps_view(r@) == line_kinds_deps(kinds_view(kinds@), file_path@),
    {
        let ghost kv = kinds_view(kinds@);
        let mut deps: Vec<Dependency> = Vec::new();
        let mut defs: Vec<(Vec<char>, Vec<char>, Vec<char>, usize)> = Vec::new();
        let mut refs: Vec<Vec<char>> = Vec::new();
        let mut i: usize = 0;
        while i < kinds.len()
            invariant
                i <= kinds@.len(),
                kv == kinds_view(kinds@),
                deps_view(deps@) == from_deps(kv.take(i as int), file_path@),
                defs_view(defs@) == arg_defs(kv.take(i as int)),
                vecs_view(refs@) == var_refs(kv.take(i as int)),
            decreases kinds@.len() - i,
        {
            let ghost t = kv.take(i + 1);
            assert(t.drop_last() =~= kv.take(i as int));
            assert(t.last() == kinds@[i as int]@);
            match &kinds[i] {
                DockerLineKind::Arg(a, b, c) => match c {
                    Some(tag) => {
                        let ghost before = defs_view(defs@);
                        let entry = (chars_of(a.as_str()), chars_of(b.as_str()), chars_of(tag.as_str()), i);
                        let ghost ev = (a@, b@, tag@, i as int);
                        defs.push(entry);
                        assert(defs_view(defs@) =~= before.push(ev));
                    },
                    None => {},
                },
                DockerLineKind::FromVar(a) => {
                    let ghost before = vecs_view(refs@);
                    refs.push(chars_of(a.as_str()));
                    assert(vecs_view(refs@) =~= before.push(a@));
                },
                DockerLineKind::From(r) => {
                    let reference = chars_of(r.as_str());
                    if crate::text::contains_char(&reference, '@') && !crate::text::contains_char(&reference, ':') {
                    } else {
                        match split_image_tag_chars(&reference) {
                            Some((image, tag)) => {
                                let mut full = crate::text::slice_of(&image, 0, image.len());
                                crate::text::push_text(&mut full, ":");
                                crate::text::extend_chars(&mut full, &tag);
                                assert(full@ =~= image@ + ":"@ + tag@);
                                let d = docker_dep(&image, &tag, file_path, UpdateContext::DockerFrom { line_number: i, full_reference: string_of(&full) });
                                let ghost before = deps_view(deps@);
                                deps.push(d);
                                assert(deps_view(deps@) =~= before.push(d@));
                            },
                            None => {},
                        }
                    }
                },
                DockerLineKind::Other => {},
            }
            i = i + 1;
        }
        assert(kv.take(kinds@.len() as int) =~= kv);
        let ghost fd = deps_view(deps@);
        let mut k: usize = 0;
        while k < refs.len()
            invariant
                k <= refs@.len(),
                vecs_view(refs@) == var_refs(kv),
                defs_view(defs@) == arg_defs(kv),
                deps_view(deps@) == fd + var_deps(var_refs(kv).take(k as int), arg_defs(kv), file_path@),
            decreases refs@.len() - k,
        {
            let ghost rv = var_refs(kv);
            assert(rv.take(k + 1).drop_last() =~= rv.take(k as int));
            assert(rv.take(k + 1).last() == refs@[k as int]@);
            match last_def_of(&defs, &refs[k]) {
                Some(j) => {
                    let image = &defs[j].1;
                    let tag = &defs[j].2;
                    let mut full = crate::text::slice_of(image, 0, image.len());
                    crate::text::push_text(&mut full, ":");
                    crate::text::extend_chars(&mut full, tag);
                    assert(full@ =~= image@ + ":"@ + tag@);
                    let d = docker_dep(image, tag, file_path, UpdateContext::DockerFrom { line_number: defs[j].3, full_reference: string_of(&full) });
                    let ghost before = deps_view(deps@);
                    deps.push(d);
                    assert(deps_view(deps@) =~= before.push(d@));
                },
                None => {},
            }
            k = k + 1;
        }
        assert(var_refs(kv).take(refs@.len() as int) =~= var_refs(kv));
        deps
    }

    /// Reads the image dependencies of the services of a docker-compose file.
    pub fn extract_compose_deps(&self, file_path: &str, contents: &str) -> (r: Result<Vec<Dependency>, ReforgeError>)
        ensures
            deps_result_view(r) == compose_result(file_path@, contents@),
    {
        let root = match parse_yaml(contents) {
            Ok(v) => v,
            Err(e) => {
                let mut reason = chars_of("YAML parse error: ");
                crate::text::push_text(&mut reason, e.as_str());
                return Err(ReforgeError::Parse { file: file_path.to_string(), reason: string_of(&reason) });
            },
        };
        Ok(self.compose_deps(file_path, &root))
    }

    /// Reads the image dependencies of the services of a parsed compose document.
    pub fn compose_deps(&self, file_path: &str, root: &YamlValue) -> (r: Vec<Dependency>)
        ensures
            deps_view(r@) == compose_deps_spec(yaml_view(*root), file_path@),
    {
        let mut deps: Vec<Dependency> = Vec::new();
        let sv = value_get_ref(root, "services");
        let services = match sv {
            Some(YamlValue::Mapping(m)) => m,
            _ => {
                proof {
                    match sv {
                        Some(x) => {
                            crate::manager::yaml::lemma_view_parts(x);
                        },
                        None => {},
                    }
                    assert(deps_view(deps@) =~= Seq::<DependencyView>::empty());
                }
                return deps;
            },
        };
        let ghost es = crate::manager::yaml::entries_view(services@);
        proof {
            crate::manager::yaml::lemma_view_parts(sv->0);
        }
        let mut i: usize = 0;
        while i < services.len()
            invariant
                i <= services@.len(),
                es == crate::manager::yaml::entries_view(services@),
                deps_view(deps@) == compose_entries(es.take(i as int), file_path@),
            decreases services@.len() - i,
        {
            let ghost t = es.take(i + 1);
            assert(t.drop_last() =~= es.take(i as int));
            assert(t.last() == es[i as int]);
            let key = &services[i].0;
            let cfg = &services[i].1;
            let svc: Vec<char> = match crate::manager::yaml::as_str(key) {
                Some(s) => chars_of(s.as_str()),
                None => chars_of("unknown"),
            };
            match value_get_ref(cfg, "image") {
                Some(iv) => match crate::manager::yaml::as_str(iv) {
                    Some(image_str) => match split_image_tag_chars(&chars_of(image_str.as_str())) {
                        Some((image, tag)) => {
                            let mut path: Vec<String> = Vec::new();
                            path.push("services".to_string());
                            path.push(string_of(&svc));
                            path.push("image".to_string());
                            assert(crate::text::strings_view(path@) =~= seq!["services"@, svc@, "image"@]);
                            let d = docker_dep(
                                &image,
                                &tag,
                                file_path,
                                UpdateContext::DockerComposeImage {
                                    service_path: path,
                                    full_reference: crate::text::copy_string(image_str),
                                },
                            );
                            let ghost before = deps_view(deps@);
                            deps.push(d);
                            assert(deps_view(deps@) =~= before.push(d@));
                        },
                        None => {},
                    },
                    None => {},
                },
                None => {},
            }
            i = i + 1;
        }
        assert(es.take(services@.len() as int) =~= es);
        deps
    }
}

impl PackageManager for DockerManager {
    fn name(&self) -> (r: &'static str)
        ensures
            r@ == "docker"@,
    {
        "docker"
    }

    fn file_patterns(&self) -> (r: Vec<&'static str>)
        ensures
            r@.map_values(|p: &'static str| p@) == seq![
                "Dockerfile"@,
                "Dockerfile.*"@,
                "docker-compose.yml"@,
                "docker-compose.yaml"@,
                "compose.yml"@,
                "compose.yaml"@,
            ],
    {
        let mut v: Vec<&'static str> = Vec::new();
        v.push("Dockerfile");
        v.push("Dockerfile.*");
        v.push("docker-compose.yml");
        v.push("docker-compose.yaml");
        v.push("compose.yml");
        v.push("compose.yaml");
        assert(v@.map_values(|p: &'static str| p@) =~= seq![
            "Dockerfile"@,
            "Dockerfile.*"@,
            "docker-compose.yml"@,
            "docker-compose.yaml"@,
            "compose.yml"@,
            "compose.yaml"@,
        ]);
        v
    }

    fn extract_dependencies(&self, file_path: &str, contents: &str) -> (r: Result<Vec<Dependency>, ReforgeError>)
        ensures
            deps_result_view(r) == docker_extract_spec(file_path@, contents@),
    {
        self.extract(file_path, contents)
    }
}

impl DockerManager {
    /// Reads the dependencies of a file: Dockerfiles (by file name) line by line,
    /// anything else as a compose file.
    pub fn extract(&self, file_path: &str, contents: &str) -> (r: Result<Vec<Dependency>, ReforgeError>)
        ensures
            deps_result_view(r) == docker_extract_spec(file_path@, contents@),
    {
        let name = file_name(file_path);
        if crate::text::starts_with(&name, &chars_of("Dockerfile")) {
            self.extract_dockerfile_deps(file_path, contents)
        } else {
            self.extract_compose_deps(file_path, contents)
        }
    }
}

proof fn lemma_from_deps_path(kinds: Seq<DockerLine>, file_path: Seq<char>)
    ensures
        forall|i: int| 0 <= i < from_deps(kinds, file_path).len() ==> (#[trigger] from_deps(kinds, file_path)[i]).file_path == file_path,
    decreases kinds.len(),
{
    if kinds.len() > 0 {
        lemma_from_deps_path(kinds.drop_last(), file_path);
    }
}

proof fn lemma_var_deps_path(refs: Seq<Seq<char>>, defs: Seq<(Seq<char>, Seq<char>, Seq<char>, int)>, file_path: Seq<char>)
    ensures
        forall|i: int| 0 <= i < var_deps(refs, defs, file_path).len() ==> (#[trigger] var_deps(refs, defs, file_path)[i]).file_path == file_path,
    decreases refs.len(),
{
    if refs.len() > 0 {
        lemma_var_deps_path(refs.drop_last(), defs, file_path);
    }
}

proof fn lemma_compose_path(m: Seq<(YamlView, YamlView)>, file_path: Seq<char>)
    ensures
        forall|i: int| 0 <= i < compose_entries(m, file_path).len() ==> (#[trigger] compose_entries(m, file_path)[i]).file_path == file_path,
    decreases m.len(),
{
    if m.len() > 0 {
        lemma_compose_path(m.drop_last(), file_path);
    }
}

/// Every dependency read from a Dockerfile or compose file records that file.
pub proof fn lemma_docker_deps_belong_to_file(file_path: Seq<char>, contents: Seq<char>)
    ensures
        docker_extract_spec(file_path, contents) matches Ok(deps) ==> forall|i: int| 0 <= i < deps.len() ==> (#[trigger] deps[i]).file_path
            == file_path,
{
    let lines = line_kinds(lines_spec(contents));
    lemma_from_deps_path(lines, file_path);
    lemma_var_deps_path(var_refs(lines), arg_defs(lines), file_path);
    let a = from_deps(lines, file_path);
    let b = var_deps(var_refs(lines), arg_defs(lines), file_path);
    assert forall|i: int| 0 <= i < (a + b).len() implies (#[trigger] (a + b)[i]).file_path == file_path by {
        if i < a.len() {
            assert((a + b)[i] == a[i]);
        } else {
            assert((a + b)[i] == b[i - a.len()]);
        }
    }
    match yaml_parse(contents) {
        Ok(root) => match value_get(root, "services"@) {
            Some(YamlView::Mapping(m)) => {
                lemma_compose_path(m, file_path);
            },
            _ => {},
        },
        Err(_) => {},
    }
}


/// A digest never changes how a reference splits: an image and a tag (without
/// `@`, `:` or `/`) split back into that image and tag, with or without an
/// `@digest` after them.
pub proof fn lemma_split_ignores_digest(image: Seq<char>, tag: Seq<char>, digest: Seq<char>)
    requires
        !image.contains('@'),
        !tag.contains('@'),
        !tag.contains(':'),
        !tag.contains('/'),
    ensures
        split_image_tag_spec(image + ":"@ + tag + "@"@ + digest) == Some((image, tag)),
        split_image_tag_spec(image + ":"@ + tag) == Some((image, tag)),
{
    reveal_strlit(":");
    reveal_strlit("@");
    let base = image + ":"@ + tag;
    let s1 = base + "@"@ + digest;
    assert(s1 == image + ":"@ + tag + "@"@ + digest);
    crate::text::lemma_find_spec(s1, '@');
    crate::text::lemma_find_spec(base, '@');
    crate::text::lemma_rfind_spec(base, ':');
    let k = base.len() as int;
    assert(s1[k] == '@');
    assert(!base.contains('@')) by {
        assert forall|j: int| 0 <= j < base.len() implies base[j] != '@' by {
            if j < image.len() {
                assert(base[j] == image[j]);
            } else if j > image.len() {
                assert(base[j] == tag[j - image.len() - 1]);
            }
        }
    }
    match find_spec(s1, '@') {
        Some(i) => {
            if i < k {
                assert(s1[i] == base[i]);
            }
            if i > k {
                assert(s1.subrange(0, i)[k] == '@');
            }
            assert(i == k);
            assert(s1.subrange(0, i) =~= base);
        },
        None => {
            assert(s1.contains('@'));
        },
    }
    let c = image.len() as int;
    assert(base[c] == ':');
    match rfind_spec(base, ':') {
        Some(j) => {
            if j > c {
                assert(base[j] == tag[j - c - 1]);
            }
            if j < c {
                assert(base.subrange(j + 1, base.len() as int)[c - j - 1] == ':');
            }
            assert(j == c);
            assert(base.subrange(0, j) =~= image);
            assert(base.subrange(j + 1, base.len() as int) =~= tag);
        },
        None => {
            assert(base.contains(':'));
        },
    }
}

} // verus!
