//! Helm dependency manager: chart dependencies in `Chart.yaml` and image
//! references in values files.
use vstd::prelude::*;

use crate::error::ReforgeError;
use crate::error::ReforgeErrorView;
use crate::fmt::decimal_of;
use crate::fmt::decimal_spec;
use crate::manager::docker::deps_result_view;
use crate::manager::docker::file_name;
use crate::manager::docker::file_name_spec;
use crate::manager::deps_view;
use crate::manager::yaml::as_str;
use crate::manager::yaml::map_get;
use crate::manager::yaml::mapping_get;
use crate::manager::yaml::parse_yaml;
use crate::manager::yaml::untag;
use crate::manager::yaml::untag_ref;
use crate::manager::yaml::yaml_as_str;
use crate::manager::yaml::yaml_parse;
use crate::manager::yaml::yaml_view;
use crate::manager::yaml::YamlValue;
use crate::manager::yaml::YamlView;
use crate::manager::Dependency;
use crate::manager::DependencyView;
use crate::manager::PackageManager;
use crate::manager::RegistrySource;
use crate::manager::RegistrySourceView;
use crate::manager::UpdateContext;
use crate::manager::UpdateContextView;
use crate::text::chars_of;
use crate::text::find_char;
use crate::text::find_spec;
use crate::text::push_text;
use crate::text::slice_of;
use crate::text::starts_with;
use crate::text::starts_with_spec;
use crate::text::string_of;
use crate::text::strings_view;
use crate::text::trim_start_str;
use crate::text::trim_start_str_in;
use crate::text::trim_start_spec;
use crate::text::lines_spec;
use crate::text::vecs_view;
use crate::changelog::word_prefix;
use crate::util::parse_image_reference;
use crate::util::parse_image_reference_spec;

verus! {

/// Reads Helm chart dependencies and images referenced in values files.
pub struct HelmManager;

/// One entry of a chart's `dependencies` list: name, version, repository.
pub type ChartEntry = (Seq<char>, Seq<char>, Seq<char>);

/// The three text fields of a dependency entry (a mapping).
pub open spec fn chart_entry(v: YamlView) -> Option<ChartEntry> {
    match untag(v) {
        YamlView::Mapping(es) => match (
            map_get(es, "name"@),
            map_get(es, "version"@),
            map_get(es, "repository"@),
        ) {
            (Some(n), Some(ver), Some(rep)) => match (yaml_as_str(n), yaml_as_str(ver), yaml_as_str(rep)) {
                (Some(a), Some(b), Some(c)) => Some((a, b, c)),
                _ => None,
            },
            _ => None,
        },
        _ => None,
    }
}

/// The entries of a dependency list; `None` when one of them is malformed.
pub open spec fn chart_entry_list(items: Seq<YamlView>) -> Option<Seq<ChartEntry>>
    decreases items.len(),
{
    if items.len() == 0 {
        Some(seq![])
    } else {
        match (chart_entry_list(items.drop_last()), chart_entry(items.last())) {
            (Some(prev), Some(e)) => Some(prev.push(e)),
            _ => None,
        }
    }
}

/// The chart's dependency entries: none when the document has no (or a null)
/// `dependencies` key; `None` when the document is not a mapping or the list
/// is not a list of complete entries.
pub open spec fn chart_entries(root: YamlView) -> Option<Seq<ChartEntry>> {
    match untag(root) {
        YamlView::Mapping(es) => match map_get(es, "dependencies"@) {
            None => Some(seq![]),
            Some(d) => match untag(d) {
                YamlView::Null => Some(seq![]),
                YamlView::Sequence(items) => chart_entry_list(items),
                _ => None,
            },
        },
        _ => None,
    }
}

/// The registry of an OCI reference: the text before its first `/`.
pub open spec fn oci_registry_spec(image: Seq<char>) -> Option<Seq<char>> {
    match find_spec(image, '/') {
        Some(i) => Some(image.subrange(0, i)),
        None => None,
    }
}

/// The dependency of entry `idx`: an OCI chart for `oci://` repositories, a
/// repository chart for `http(s)://` ones; other repositories are skipped.
pub open spec fn chart_dep(e: ChartEntry, idx: int, file_path: Seq<char>) -> Option<DependencyView> {
    let (name, version, repo) = e;
    let ctx = UpdateContextView::YamlKeyPath { keys: seq!["dependencies"@, decimal_spec(idx as nat), "version"@] };
    if starts_with_spec(repo, "oci://"@) {
        let full = trim_start_str(repo, "oci://"@) + "/"@ + name;
        Some(
            DependencyView {
                name,
                current_version: version,
                registry: RegistrySourceView::OciHelmRegistry { image: full, registry: oci_registry_spec(full) },
                file_path,
                update_context: ctx,
            },
        )
    } else if starts_with_spec(repo, "http://"@) || starts_with_spec(repo, "https://"@) {
        Some(
            DependencyView {
                name,
                current_version: version,
                registry: RegistrySourceView::HelmRepository { repo_url: repo, chart_name: name },
                file_path,
                update_context: ctx,
            },
        )
    } else {
        None
    }
}

/// The dependencies of the entries, in order.
pub open spec fn chart_deps(es: Seq<ChartEntry>, file_path: Seq<char>) -> Seq<DependencyView>
    decreases es.len(),
{
    if es.len() == 0 {
        seq![]
    } else {
        let prev = chart_deps(es.drop_last(), file_path);
        match chart_dep(es.last(), es.len() - 1, file_path) {
            Some(d) => prev.push(d),
            None => prev,
        }
    }
}

/// A parsed `Chart.yaml` document's dependencies, or the error for a document
/// of the wrong shape.
pub open spec fn chart_root_result(root: YamlView, file_path: Seq<char>) -> Result<Seq<DependencyView>, ReforgeErrorView> {
    match chart_entries(root) {
        Some(es) => Ok(chart_deps(es, file_path)),
        None => Err(
            ReforgeErrorView::Parse { file: file_path, reason: "Chart.yaml parse error: unexpected document structure"@ },
        ),
    }
}

/// A `Chart.yaml` file's result: its dependencies, or a parse error.
pub open spec fn chart_result(file_path: Seq<char>, contents: Seq<char>) -> Result<Seq<DependencyView>, ReforgeErrorView> {
    match yaml_parse(contents) {
        Ok(root) => chart_root_result(root, file_path),
        Err(e) => Err(ReforgeErrorView::Parse { file: file_path, reason: "Chart.yaml parse error: "@ + e }),
    }
}

/// The indentation of a line: the length of its leading whitespace.
pub open spec fn indent_of(line: Seq<char>) -> int {
    line.len() - trim_start_spec(line).len()
}

/// A blank line or a comment line.
pub open spec fn blank_or_comment(line: Seq<char>) -> bool {
    let t = trim_start_spec(line);
    t.len() == 0 || t[0] == '#'
}

/// A line that opens `key:` (after its indentation).
pub open spec fn is_key_line(line: Seq<char>, key: Seq<char>) -> bool {
    starts_with_spec(trim_start_spec(line), key + ":"@)
}

/// The first line at or after `pos` that opens `key:` indented deeper than
/// `parent`, before any other line that is not deeper (blank and comment lines
/// skipped).
pub open spec fn find_key_line(lines: Seq<Seq<char>>, pos: int, parent: int, key: Seq<char>) -> Option<int>
    decreases lines.len() - pos,
{
    if pos < 0 || pos >= lines.len() {
        None
    } else if blank_or_comment(lines[pos]) {
        find_key_line(lines, pos + 1, parent, key)
    } else if indent_of(lines[pos]) <= parent {
        None
    } else if is_key_line(lines[pos], key) {
        Some(pos)
    } else {
        find_key_line(lines, pos + 1, parent, key)
    }
}

/// The line of a key path in block-style YAML: each key is looked for after the
/// line of the one before and indented deeper than it.
pub open spec fn find_path_line(lines: Seq<Seq<char>>, keys: Seq<Seq<char>>, pos: int, parent: int) -> Option<int>
    decreases keys.len(),
{
    if keys.len() == 0 {
        None
    } else {
        match find_key_line(lines, pos, parent, keys[0]) {
            None => None,
            Some(j) => if keys.len() == 1 {
                Some(j)
            } else {
                find_path_line(lines, keys.drop_first(), j + 1, indent_of(lines[j]))
            },
        }
    }
}

/// The first word written after `key:` on a line that opens it.
pub open spec fn value_word(line: Seq<char>, key: Seq<char>) -> Seq<char> {
    let t = trim_start_spec(line);
    word_prefix(trim_start_spec(t.subrange(key.len() as int + 1, t.len() as int)))
}

/// The text written in the file for the value at a key path, when the path
/// can be followed line by line in block style and the value is on its key's line.
pub open spec fn written_value(lines: Seq<Seq<char>>, keys: Seq<Seq<char>>) -> Option<Seq<char>> {
    match find_path_line(lines, keys, 0, -1) {
        Some(j) => {
            let w = value_word(lines[j], keys.last());
            if w.len() > 0 {
                Some(w)
            } else {
                None
            }
        },
        None => None,
    }
}

/// A tag value as text: a string as it is; a number as it is written in the file
/// (found through its key path), else as its display text.
pub open spec fn tag_text(v: YamlView, lines: Seq<Seq<char>>, keys: Seq<Seq<char>>) -> Option<Seq<char>> {
    match v {
        YamlView::String(s) => Some(s),
        YamlView::Number(n) => Some(
            match written_value(lines, keys) {
                Some(w) => w,
                None => n,
            },
        ),
        _ => None,
    }
}

/// The first of two lookups that finds something.
pub open spec fn or_else(a: Option<YamlView>, b: Option<YamlView>) -> Option<YamlView> {
    match a {
        Some(x) => Some(x),
        None => b,
    }
}

/// The image a mapping describes itself, if any: `repository` (or `image`) with
/// `tag` (or `version`); the key path ends with the key that held the tag.
pub open spec fn mapping_image(es: Seq<(YamlView, YamlView)>, path: Seq<Seq<char>>, file_path: Seq<char>, lines: Seq<Seq<char>>) -> Option<DependencyView> {
    let repo = or_else(map_get(es, "repository"@), map_get(es, "image"@));
    let tag = or_else(map_get(es, "tag"@), map_get(es, "version"@));
    let key = if map_get(es, "tag"@) is Some { "tag"@ } else { "version"@ };
    match (repo, tag) {
        (Some(r), Some(t)) => match (yaml_as_str(r), tag_text(t, lines, path.push(key))) {
            (Some(repo_str), Some(tag_str)) => {
                Some(
                    DependencyView {
                        name: parse_image_reference_spec(repo_str).1,
                        current_version: tag_str,
                        registry: RegistrySourceView::DockerRegistry {
                            image: repo_str,
                            registry: parse_image_reference_spec(repo_str).0,
                        },
                        file_path,
                        update_context: UpdateContextView::YamlKeyPath { keys: path.push(key) },
                    },
                )
            },
            _ => None,
        },
        _ => None,
    }
}

/// The images found walking a values document depth-first: a mapping's own image
/// first, then its entries with text keys in order; a sequence's items by index.
pub open spec fn walk_images(v: YamlView, path: Seq<Seq<char>>, file_path: Seq<char>, lines: Seq<Seq<char>>) -> Seq<DependencyView>
    decreases v, 1int,
{
    match v {
        YamlView::Mapping(es) => {
            let own = match mapping_image(es, path, file_path, lines) {
                Some(d) => seq![d],
                None => seq![],
            };
            own + walk_entries(es, es.len() as int, path, file_path, lines)
        },
        YamlView::Sequence(items) => walk_items(items, items.len() as int, path, file_path, lines),
        _ => seq![],
    }
}

/// The images under the first `n` entries of a mapping.
pub open spec fn walk_entries(es: Seq<(YamlView, YamlView)>, n: int, path: Seq<Seq<char>>, file_path: Seq<char>, lines: Seq<Seq<char>>) -> Seq<DependencyView>
    decreases es, 0int, n,
{
    if n <= 0 || n > es.len() {
        seq![]
    } else {
        let prev = walk_entries(es, n - 1, path, file_path, lines);
        match yaml_as_str(es[n - 1].0) {
            Some(k) => prev + walk_images(es[n - 1].1, path.push(k), file_path, lines),
            None => prev,
        }
    }
}

/// The images under the first `n` items of a sequence.
pub open spec fn walk_items(items: Seq<YamlView>, n: int, path: Seq<Seq<char>>, file_path: Seq<char>, lines: Seq<Seq<char>>) -> Seq<DependencyView>
    decreases items, 0int, n,
{
    if n <= 0 || n > items.len() {
        seq![]
    } else {
        walk_items(items, n - 1, path, file_path, lines) + walk_images(items[n - 1], path.push(decimal_spec((n - 1) as nat)), file_path, lines)
    }
}

/// A values file's result: the images it references, or a parse error.
pub open spec fn values_result(file_path: Seq<char>, contents: Seq<char>) -> Result<Seq<DependencyView>, ReforgeErrorView> {
    match yaml_parse(contents) {
        Ok(root) => Ok(walk_images(root, seq![], file_path, lines_spec(contents))),
        Err(e) => Err(ReforgeErrorView::Parse { file: file_path, reason: "values.yaml parse error: "@ + e }),
    }
}

/// `Chart.yaml` (by file name) is read for chart dependencies; anything else as a values file.
pub open spec fn helm_extract_spec(file_path: Seq<char>, contents: Seq<char>) -> Result<Seq<DependencyView>, ReforgeErrorView> {
    if file_name_spec(file_path) == "Chart.yaml"@ {
        chart_result(file_path, contents)
    } else {
        values_result(file_path, contents)
    }
}

/// The dependencies listed by a chart's entries record its file.
proof fn lemma_chart_deps_path(es: Seq<ChartEntry>, file_path: Seq<char>)
    ensures
        forall|i: int| 0 <= i < chart_deps(es, file_path).len() ==> (#[trigger] chart_deps(es, file_path)[i]).file_path
            == file_path,
    decreases es.len(),
{
    if es.len() > 0 {
        lemma_chart_deps_path(es.drop_last(), file_path);
    }
}

proof fn lemma_walk_images_path(v: YamlView, path: Seq<Seq<char>>, file_path: Seq<char>, lines: Seq<Seq<char>>)
    ensures
        forall|i: int| 0 <= i < walk_images(v, path, file_path, lines).len() ==> (#[trigger] walk_images(v, path, file_path, lines)[i]).file_path
            == file_path,
    decreases v, 1int,
{
    match v {
        YamlView::Mapping(es) => {
            let own = match mapping_image(es, path, file_path, lines) {
                Some(d) => seq![d],
                None => seq![],
            };
            let rest = walk_entries(es, es.len() as int, path, file_path, lines);
            lemma_walk_entries_path(es, es.len() as int, path, file_path, lines);
            assert forall|i: int| 0 <= i < (own + rest).len() implies (#[trigger] (own + rest)[i]).file_path == file_path by {
                if i < own.len() {
                    assert((own + rest)[i] == own[i]);
                } else {
                    assert((own + rest)[i] == rest[i - own.len()]);
                }
            }
        },
        YamlView::Sequence(items) => {
            lemma_walk_items_path(items, items.len() as int, path, file_path, lines);
        },
        _ => {},
    }
}

proof fn lemma_walk_entries_path(es: Seq<(YamlView, YamlView)>, n: int, path: Seq<Seq<char>>, file_path: Seq<char>, lines: Seq<Seq<char>>)
    ensures
        forall|i: int| 0 <= i < walk_entries(es, n, path, file_path, lines).len() ==> (#[trigger] walk_entries(es, n, path, file_path, lines)[i]).file_path
            == file_path,
    decreases es, 0int, n,
{
    if n > 0 && n <= es.len() {
        lemma_walk_entries_path(es, n - 1, path, file_path, lines);
        match yaml_as_str(es[n - 1].0) {
            Some(k) => {
                assert(decreases_to!(es => es[n - 1]));
                lemma_walk_images_path(es[n - 1].1, path.push(k), file_path, lines);
                let a = walk_entries(es, n - 1, path, file_path, lines);
                let b = walk_images(es[n - 1].1, path.push(k), file_path, lines);
                assert forall|i: int| 0 <= i < (a + b).len() implies (#[trigger] (a + b)[i]).file_path == file_path by {
                    if i < a.len() {
                        assert((a + b)[i] == a[i]);
                    } else {
                        assert((a + b)[i] == b[i - a.len()]);
                    }
                }
            },
            None => {},
        }
    }
}

proof fn lemma_walk_items_path(items: Seq<YamlView>, n: int, path: Seq<Seq<char>>, file_path: Seq<char>, lines: Seq<Seq<char>>)
    ensures
        forall|i: int| 0 <= i < walk_items(items, n, path, file_path, lines).len() ==> (#[trigger] walk_items(items, n, path, file_path, lines)[i]).file_path
            == file_path,
    decreases items, 0int, n,
{
    if n > 0 && n <= items.len() {
        lemma_walk_items_path(items, n - 1, path, file_path, lines);
        assert(decreases_to!(items => items[n - 1]));
        let k = decimal_spec((n - 1) as nat);
        lemma_walk_images_path(items[n - 1], path.push(k), file_path, lines);
        let a = walk_items(items, n - 1, path, file_path, lines);
        let b = walk_images(items[n - 1], path.push(k), file_path, lines);
        assert forall|i: int| 0 <= i < (a + b).len() implies (#[trigger] (a + b)[i]).file_path == file_path by {
            if i < a.len() {
                assert((a + b)[i] == a[i]);
            } else {
                assert((a + b)[i] == b[i - a.len()]);
            }
        }
    }
}

/// Every dependency read from a `Chart.yaml` or values file records that file.
pub proof fn lemma_helm_deps_belong_to_file(file_path: Seq<char>, contents: Seq<char>)
    ensures
        helm_extract_spec(file_path, contents) matches Ok(deps) ==> forall|i: int| 0 <= i < deps.len() ==> (#[trigger] deps[i]).file_path
            == file_path,
{
    match yaml_parse(contents) {
        Ok(root) => {
            match chart_entries(root) {
                Some(es) => lemma_chart_deps_path(es, file_path),
                None => {},
            }
            lemma_walk_images_path(root, seq![], file_path, lines_spec(contents));
        },
        Err(_) => {},
    }
}

pub open spec fn entry_view(e: (Vec<char>, Vec<char>, Vec<char>)) -> ChartEntry {
    (e.0@, e.1@, e.2@)
}

pub fn text_field(es: &Vec<(YamlValue, YamlValue)>, key: &str) -> (r: Option<Vec<char>>)
    ensures
        match r {
            Some(t) => map_get(crate::manager::yaml::entries_view(es@), key@) matches Some(x) && yaml_as_str(x) == Some(t@),
            None => match map_get(crate::manager::yaml::entries_view(es@), key@) {
                Some(x) => yaml_as_str(x) is None,
                None => true,
            },
        },
{
    match mapping_get(es, key) {
        Some(x) => match as_str(x) {
            Some(t) => Some(chars_of(t.as_str())),
            None => None,
        },
        None => None,
    }
}

pub fn entry_of(v: &YamlValue) -> (r: Option<(Vec<char>, Vec<char>, Vec<char>)>)
    ensures
        match r {
            Some(e) => chart_entry(yaml_view(*v)) == Some(entry_view(e)),
            None => chart_entry(yaml_view(*v)) is None,
        },
{
    let u = untag_ref(v);
    proof {
        crate::manager::yaml::lemma_view_parts(u);
    }
    match u {
        YamlValue::Mapping(es) => {
            let n = text_field(es, "name");
            let ver = text_field(es, "version");
            let rep = text_field(es, "repository");
            match (n, ver, rep) {
                (Some(a), Some(b), Some(c)) => Some((a, b, c)),
                _ => None,
            }
        },
        _ => None,
    }
}

fn chart_dep_of(e: &(Vec<char>, Vec<char>, Vec<char>), idx: usize, file_path: &str) -> (r: Option<Dependency>)
    ensures
        match r {
            Some(d) => chart_dep(entry_view(*e), idx as int, file_path@) == Some(d@),
            None => chart_dep(entry_view(*e), idx as int, file_path@) is None,
        },
{
    let name = &e.0;
    let version = &e.1;
    let repo = &e.2;
    let mut keys: Vec<String> = Vec::new();
    keys.push("dependencies".to_string());
    keys.push(string_of(&decimal_of(idx as u64)));
    keys.push("version".to_string());
    assert(strings_view(keys@) =~= seq!["dependencies"@, decimal_spec(idx as nat), "version"@]);
    let ctx = UpdateContext::YamlKeyPath { keys };
    if starts_with(repo, &chars_of("oci://")) {
        let mut full = trim_start_str_in(repo, &chars_of("oci://"));
        push_text(&mut full, "/");
        crate::text::extend_chars(&mut full, name);
        proof {
            crate::text::lemma_find_spec(full@, '/');
        }
        let registry = match find_char(&full, '/') {
            Some(i) => Some(string_of(&slice_of(&full, 0, i))),
            None => None,
        };
        Some(Dependency {
            name: string_of(name),
            current_version: string_of(version),
            registry: RegistrySource::OciHelmRegistry { image: string_of(&full), registry },
            file_path: file_path.to_string(),
            update_context: ctx,
        })
    } else if starts_with(repo, &chars_of("http://")) || starts_with(repo, &chars_of("https://")) {
        Some(Dependency {
            name: string_of(name),
            current_version: string_of(version),
            registry: RegistrySource::HelmRepository { repo_url: string_of(repo), chart_name: string_of(name) },
            file_path: file_path.to_string(),
            update_context: ctx,
        })
    } else {
        None
    }
}

proof fn lemma_find_key_line(lines: Seq<Seq<char>>, pos: int, parent: int, key: Seq<char>)
    requires
        0 <= pos,
    ensures
        find_key_line(lines, pos, parent, key) matches Some(j) ==> pos <= j < lines.len() && is_key_line(lines[j], key),
    decreases lines.len() - pos,
{
    if pos < lines.len() {
        lemma_find_key_line(lines, pos + 1, parent, key);
    }
}

proof fn lemma_find_path_line(lines: Seq<Seq<char>>, keys: Seq<Seq<char>>, pos: int, parent: int)
    requires
        0 <= pos,
    ensures
        find_path_line(lines, keys, pos, parent) matches Some(j) ==> 0 <= j < lines.len() && keys.len() > 0 && is_key_line(
            lines[j],
            keys.last(),
        ),
    decreases keys.len(),
{
    if keys.len() > 0 {
        lemma_find_key_line(lines, pos, parent, keys[0]);
        match find_key_line(lines, pos, parent, keys[0]) {
            Some(j) => {
                if keys.len() > 1 {
                    lemma_find_path_line(lines, keys.drop_first(), j + 1, indent_of(lines[j]));
                }
            },
            None => {},
        }
    }
}

fn find_key_line_at(lines: &Vec<Vec<char>>, pos: usize, floor: u128, key: &str) -> (r: Option<usize>)
    requires
        pos <= lines@.len(),
    ensures
        match r {
            Some(j) => find_key_line(vecs_view(lines@), pos as int, floor - 1, key@) == Some(j as int),
            None => find_key_line(vecs_view(lines@), pos as int, floor - 1, key@) is None,
        },
{
    let ghost ls = vecs_view(lines@);
    let mut kc = chars_of(key);
    kc.push(':');
    proof {
        reveal_strlit(":");
        assert(kc@ =~= key@ + ":"@);
    }
    let mut i: usize = pos;
    while i < lines.len()
        invariant
            pos <= i <= lines@.len(),
            ls == vecs_view(lines@),
            kc@ == key@ + ":"@,
            find_key_line(ls, pos as int, floor - 1, key@) == find_key_line(ls, i as int, floor - 1, key@),
        decreases lines@.len() - i,
    {
        assert(ls[i as int] == lines@[i as int]@);
        let line = &lines[i];
        let a = crate::text::trim_start_len(line);
        let t = slice_of(line, a, line.len());
        assert(t@ == trim_start_spec(ls[i as int]));
        if t.len() == 0 || t[0] == '#' {
            i = i + 1;
        } else {
            if (a as u128) < floor {
                return None;
            }
            if starts_with(&t, &kc) {
                return Some(i);
            }
            i = i + 1;
        }
    }
    None
}

fn find_path_line_at(lines: &Vec<Vec<char>>, keys: &Vec<String>, k: usize, pos: usize, floor: u128) -> (r: Option<usize>)
    requires
        k < keys@.len(),
        pos <= lines@.len(),
    ensures
        match r {
            Some(j) => find_path_line(
                vecs_view(lines@),
                strings_view(keys@).subrange(k as int, keys@.len() as int),
                pos as int,
                floor - 1,
            ) == Some(j as int),
            None => find_path_line(
                vecs_view(lines@),
                strings_view(keys@).subrange(k as int, keys@.len() as int),
                pos as int,
                floor - 1,
            ) is None,
        },
    decreases keys@.len() - k,
{
    let ghost ls = vecs_view(lines@);
    let ghost ks = strings_view(keys@).subrange(k as int, keys@.len() as int);
    assert(ks[0] == keys@[k as int]@);
    proof {
        lemma_find_key_line(ls, pos as int, floor - 1, ks[0]);
    }
    match find_key_line_at(lines, pos, floor, keys[k].as_str()) {
        None => None,
        Some(j) => {
            let n = keys.len();
            let nl = lines.len();
            assert(j < nl);
            if k + 1 == n {
                Some(j)
            } else {
                assert(ks.drop_first() =~= strings_view(keys@).subrange(k + 1, keys@.len() as int));
                assert(ls[j as int] == lines@[j as int]@);
                let ind = crate::text::trim_start_len(&lines[j]);
                assert(indent_of(ls[j as int]) == ind);
                find_path_line_at(lines, keys, k + 1, j + 1, (ind as u128) + 1)
            }
        },
    }
}

fn word_prefix_of(v: &Vec<char>) -> (r: Vec<char>)
    ensures
        r@ == word_prefix(v@),
{
    let mut j: usize = 0;
    assert(v@.subrange(0, 0) =~= Seq::<char>::empty());
    assert(v@.subrange(0, v@.len() as int) =~= v@);
    while j < v.len() && !crate::text::is_whitespace(v[j])
        invariant
            j <= v@.len(),
            word_prefix(v@) == v@.subrange(0, j as int) + word_prefix(v@.subrange(j as int, v@.len() as int)),
        decreases v@.len() - j,
    {
        let ghost t = v@.subrange(j as int, v@.len() as int);
        assert(t.drop_first() =~= v@.subrange(j + 1, v@.len() as int));
        assert(v@.subrange(0, j + 1) =~= v@.subrange(0, j as int) + seq![t[0]]);
        j = j + 1;
    }
    assert(word_prefix(v@.subrange(j as int, v@.len() as int)) =~= Seq::<char>::empty());
    slice_of(v, 0, j)
}

fn written_value_of(lines: &Vec<Vec<char>>, keys: &Vec<String>) -> (r: Option<Vec<char>>)
    ensures
        match r {
            Some(w) => written_value(vecs_view(lines@), strings_view(keys@)) == Some(w@),
            None => written_value(vecs_view(lines@), strings_view(keys@)) is None,
        },
{
    let ghost ls = vecs_view(lines@);
    let ghost kv = strings_view(keys@);
    if keys.len() == 0 {
        return None;
    }
    assert(kv.subrange(0, kv.len() as int) =~= kv);
    proof {
        lemma_find_path_line(ls, kv, 0, -1);
    }
    match find_path_line_at(lines, keys, 0, 0, 0) {
        None => None,
        Some(j) => {
            assert(ls[j as int] == lines@[j as int]@);
            let last = keys.len() - 1;
            assert(kv.last() == keys@[last as int]@);
            let line = &lines[j];
            let a = crate::text::trim_start_len(line);
            let t = slice_of(line, a, line.len());
            let kl = keys[last].as_str().unicode_len();
            proof {
                reveal_strlit(":");
            }
            assert(starts_with_spec(t@, kv.last() + ":"@));
            assert(kl + 1 <= t@.len());
            let klen = kl + 1;
            let rest = slice_of(&t, klen, t.len());
            let b = crate::text::trim_start_len(&rest);
            let rest2 = slice_of(&rest, b, rest.len());
            let w = word_prefix_of(&rest2);
            if w.len() > 0 {
                Some(w)
            } else {
                None
            }
        },
    }
}

fn tag_text_of(v: &YamlValue, lines: &Vec<Vec<char>>, keys: &Vec<String>) -> (r: Option<Vec<char>>)
    ensures
        match r {
            Some(t) => tag_text(yaml_view(*v), vecs_view(lines@), strings_view(keys@)) == Some(t@),
            None => tag_text(yaml_view(*v), vecs_view(lines@), strings_view(keys@)) is None,
        },
{
    proof {
        crate::manager::yaml::lemma_view_parts(v);
    }
    match v {
        YamlValue::String(s) => Some(chars_of(s.as_str())),
        YamlValue::Number(n) => match written_value_of(lines, keys) {
            Some(w) => Some(w),
            None => Some(chars_of(n.as_str())),
        },
        _ => None,
    }
}

fn first_of<'a>(es: &'a Vec<(YamlValue, YamlValue)>, a: &str, b: &str) -> (r: Option<&'a YamlValue>)
    ensures
        match r {
            Some(x) => or_else(map_get(crate::manager::yaml::entries_view(es@), a@), map_get(crate::manager::yaml::entries_view(es@), b@)) == Some(yaml_view(*x)),
            None => or_else(map_get(crate::manager::yaml::entries_view(es@), a@), map_get(crate::manager::yaml::entries_view(es@), b@)) is None,
        },
{
    match mapping_get(es, a) {
        Some(x) => Some(x),
        None => mapping_get(es, b),
    }
}

fn mapping_image_of(es: &Vec<(YamlValue, YamlValue)>, path: &Vec<String>, file_path: &str, lines: &Vec<Vec<char>>) -> (r: Option<Dependency>)
    ensures
        match r {
            Some(d) => mapping_image(crate::manager::yaml::entries_view(es@), strings_view(path@), file_path@, vecs_view(lines@)) == Some(d@),
            None => mapping_image(crate::manager::yaml::entries_view(es@), strings_view(path@), file_path@, vecs_view(lines@)) is None,
        },
{
    let repo = first_of(es, "repository", "image");
    let tag = first_of(es, "tag", "version");
    let key = if mapping_get(es, "tag").is_some() { "tag" } else { "version" };
    let mut keys = crate::text::copy_strings(path);
    let ghost before = strings_view(keys@);
    keys.push(key.to_string());
    assert(strings_view(keys@) =~= before.push(key@));
    match (repo, tag) {
        (Some(r), Some(t)) => match (as_str(r), tag_text_of(t, lines, &keys)) {
            (Some(repo_str), Some(tag_str)) => {
                let (registry, name) = parse_image_reference(repo_str.as_str());
                Some(Dependency {
                    name,
                    current_version: string_of(&tag_str),
                    registry: RegistrySource::DockerRegistry { image: crate::text::copy_string(repo_str), registry },
                    file_path: file_path.to_string(),
                    update_context: UpdateContext::YamlKeyPath { keys },
                })
            },
            _ => None,
        },
        _ => None,
    }
}

impl HelmManager {
    /// A Helm manager.
    pub fn new() -> (r: Self) {
        HelmManager
    }

    /// Reads the chart dependencies of a `Chart.yaml` file.
    pub fn extract_chart_yaml_deps(&self, file_path: &str, contents: &str) -> (r: Result<Vec<Dependency>, ReforgeError>)
        ensures
            deps_result_view(r) == chart_result(file_path@, contents@),
    {
        let root = match parse_yaml(contents) {
            Ok(v) => v,
            Err(e) => {
                let mut reason = chars_of("Chart.yaml parse error: ");
                push_text(&mut reason, e.as_str());
                return Err(ReforgeError::Parse { file: file_path.to_string(), reason: string_of(&reason) });
            },
        };
        self.chart_yaml_deps(file_path, &root)
    }

    /// Reads the chart dependencies of a parsed `Chart.yaml` document.
    pub fn chart_yaml_deps(&self, file_path: &str, root: &YamlValue) -> (r: Result<Vec<Dependency>, ReforgeError>)
        ensures
            deps_result_view(r) == chart_root_result(yaml_view(*root), file_path@),
    {
        let structure_error = ReforgeError::Parse {
            file: file_path.to_string(),
            reason: "Chart.yaml parse error: unexpected document structure".to_string(),
        };
        let u = untag_ref(root);
        proof {
            crate::manager::yaml::lemma_view_parts(u);
        }
        let es = match u {
            YamlValue::Mapping(es) => es,
            _ => {
                return Err(structure_error);
            },
        };
        let mut deps: Vec<Dependency> = Vec::new();
        let items = match mapping_get(es, "dependencies") {
            None => {
                assert(deps_view(deps@) =~= Seq::<DependencyView>::empty());
                return Ok(deps);
            },
            Some(d) => {
                let du = untag_ref(d);
                proof {
                    crate::manager::yaml::lemma_view_parts(du);
                }
                match du {
                    YamlValue::Null => {
                        assert(deps_view(deps@) =~= Seq::<DependencyView>::empty());
                        return Ok(deps);
                    },
                    YamlValue::Sequence(items) => items,
                    _ => {
                        proof {
                            assert(!(yaml_view(*du) is Null)) by {
                                match du {
                                    YamlValue::Bool(_) => {},
                                    YamlValue::Tagged(_, _) => {},
                                    _ => {},
                                }
                            }
                        }
                        return Err(structure_error);
                    },
                }
            },
        };
        let ghost iv = crate::manager::yaml::items_view(items@);
        assert(chart_entries(yaml_view(*root)) == chart_entry_list(iv));
        let mut entries: Vec<(Vec<char>, Vec<char>, Vec<char>)> = Vec::new();
        let mut i: usize = 0;
        while i < items.len()
            invariant
                i <= items@.len(),
                chart_entries(yaml_view(*root)) == chart_entry_list(iv),
                structure_error@ == (ReforgeErrorView::Parse { file: file_path@, reason: "Chart.yaml parse error: unexpected document structure"@ }),
                iv == crate::manager::yaml::items_view(items@),
                chart_entry_list(iv.take(i as int)) == Some(entries@.map_values(|e: (Vec<char>, Vec<char>, Vec<char>)| entry_view(e))),
            decreases items@.len() - i,
        {
            assert(iv.take(i + 1).drop_last() =~= iv.take(i as int));
            assert(iv.take(i + 1).last() == yaml_view(items@[i as int]));
            match entry_of(&items[i]) {
                Some(e) => {
                    let ghost before = entries@.map_values(|e: (Vec<char>, Vec<char>, Vec<char>)| entry_view(e));
                    let ghost ev = entry_view(e);
                    entries.push(e);
                    assert(entries@.map_values(|e: (Vec<char>, Vec<char>, Vec<char>)| entry_view(e)) =~= before.push(ev));
                },
                None => {
                    proof {
                        assert(chart_entry_list(iv.take(i + 1)) is None);
                        lemma_entry_list_none(iv, i as int + 1);
                    }
                    return Err(structure_error);
                },
            }
            i = i + 1;
        }
        assert(iv.take(items@.len() as int) =~= iv);
        let ghost ev = entries@.map_values(|e: (Vec<char>, Vec<char>, Vec<char>)| entry_view(e));
        let mut k: usize = 0;
        while k < entries.len()
            invariant
                k <= entries@.len(),
                ev == entries@.map_values(|e: (Vec<char>, Vec<char>, Vec<char>)| entry_view(e)),
                deps_view(deps@) == chart_deps(ev.take(k as int), file_path@),
            decreases entries@.len() - k,
        {
            assert(ev.take(k + 1).drop_last() =~= ev.take(k as int));
            assert(ev.take(k + 1).last() == entry_view(entries@[k as int]));
            match chart_dep_of(&entries[k], k, file_path) {
                Some(d) => {
                    let ghost before = deps_view(deps@);
                    deps.push(d);
                    assert(deps_view(deps@) =~= before.push(d@));
                },
                None => {},
            }
            k = k + 1;
        }
        assert(ev.take(entries@.len() as int) =~= ev);
        Ok(deps)
    }
}

/// Once an entry of the list is malformed, every longer prefix is too.
pub proof fn lemma_entry_list_none(items: Seq<YamlView>, n: int)
    requires
        0 <= n <= items.len(),
        chart_entry_list(items.take(n)) is None,
    ensures
        chart_entry_list(items) is None,
    decreases items.len() - n,
{
    if n < items.len() {
        assert(items.take(n + 1).drop_last() =~= items.take(n));
        lemma_entry_list_none(items, n + 1);
    } else {
        assert(items.take(n) =~= items);
    }
}

impl HelmManager {
    /// Walks a values document, appending the images it references (see [`walk_images`]).
    pub fn walk_yaml_for_images(&self, value: &YamlValue, path: &mut Vec<String>, file_path: &str, lines: &Vec<Vec<char>>, deps: &mut Vec<Dependency>)
        ensures
            deps_view(final(deps)@) == deps_view(old(deps)@) + walk_images(yaml_view(*value), strings_view(old(path)@), file_path@, vecs_view(lines@)),
            strings_view(final(path)@) == strings_view(old(path)@),
        decreases value,
    {
        proof {
            crate::manager::yaml::lemma_view_parts(value);
        }
        let ghost p0 = strings_view(path@);
        let ghost d0 = deps_view(deps@);
        match value {
            YamlValue::Mapping(es) => {
                let ghost ev = crate::manager::yaml::entries_view(es@);
                match mapping_image_of(es, path, file_path, lines) {
                    Some(d) => {
                        deps.push(d);
                    },
                    None => {},
                }
                let ghost d1 = deps_view(deps@);
                assert(d1 =~= d0 + match mapping_image(ev, p0, file_path@, vecs_view(lines@)) {
                    Some(d) => seq![d],
                    None => Seq::<DependencyView>::empty(),
                });
                assert(decreases_to!(*value => *es));
                let mut i: usize = 0;
                while i < es.len()
                    invariant
                        decreases_to!(*value => *es),
                        i <= es@.len(),
                        ev == crate::manager::yaml::entries_view(es@),
                        strings_view(path@) == p0,
                        deps_view(deps@) == d1 + walk_entries(ev, i as int, p0, file_path@, vecs_view(lines@)),
                    decreases es@.len() - i,
                {
                    assert(ev[i as int] == (yaml_view(es@[i as int].0), yaml_view(es@[i as int].1)));
                    match as_str(&es[i].0) {
                        Some(k) => {
                            path.push(crate::text::copy_string(k));
                            assert(strings_view(path@) =~= p0.push(k@));
                            proof {
                                assert(decreases_to!(*es => es@));
                                assert(decreases_to!(es@ => es@[i as int]));
                                assert(decreases_to!(es@[i as int] => es@[i as int].1));
                            }
                            self.walk_yaml_for_images(&es[i].1, path, file_path, lines, deps);
                            let ghost pushed = path@;
                            path.pop();
                            assert(path@ =~= pushed.drop_last());
                            assert(strings_view(path@) =~= strings_view(pushed).drop_last());
                        },
                        None => {},
                    }
                    i = i + 1;
                }
                assert(deps_view(deps@) =~= d0 + walk_images(yaml_view(*value), p0, file_path@, vecs_view(lines@)));
            },
            YamlValue::Sequence(items) => {
                let ghost iv = crate::manager::yaml::items_view(items@);
                assert(decreases_to!(*value => *items));
                let mut i: usize = 0;
                while i < items.len()
                    invariant
                        decreases_to!(*value => *items),
                        i <= items@.len(),
                        iv == crate::manager::yaml::items_view(items@),
                        strings_view(path@) == p0,
                        deps_view(deps@) == d0 + walk_items(iv, i as int, p0, file_path@, vecs_view(lines@)),
                    decreases items@.len() - i,
                {
                    assert(iv[i as int] == yaml_view(items@[i as int]));
                    let idx = string_of(&decimal_of(i as u64));
                    path.push(idx);
                    assert(strings_view(path@) =~= p0.push(decimal_spec(i as nat)));
                    proof {
                        assert(decreases_to!(*items => items@));
                        assert(decreases_to!(items@ => items@[i as int]));
                    }
                    self.walk_yaml_for_images(&items[i], path, file_path, lines, deps);
                    let ghost pushed = path@;
                    path.pop();
                    assert(path@ =~= pushed.drop_last());
                    assert(strings_view(path@) =~= strings_view(pushed).drop_last());
                    i = i + 1;
                }
            },
            _ => {
                assert(deps_view(deps@) =~= d0 + Seq::<DependencyView>::empty());
            },
        }
    }

    /// Reads the images that a values file references.
    pub fn extract_values_yaml_deps(&self, file_path: &str, contents: &str) -> (r: Result<Vec<Dependency>, ReforgeError>)
        ensures
            deps_result_view(r) == values_result(file_path@, contents@),
    {
        let root = match parse_yaml(contents) {
            Ok(v) => v,
            Err(e) => {
                let mut reason = chars_of("values.yaml parse error: ");
                push_text(&mut reason, e.as_str());
                return Err(ReforgeError::Parse { file: file_path.to_string(), reason: string_of(&reason) });
            },
        };
        let mut deps: Vec<Dependency> = Vec::new();
        let mut path: Vec<String> = Vec::new();
        assert(strings_view(path@) =~= Seq::<Seq<char>>::empty());
        let lines = crate::text::lines_of(&chars_of(contents));
        self.walk_yaml_for_images(&root, &mut path, file_path, &lines, &mut deps);
        assert(deps_view(deps@) =~= walk_images(yaml_view(root), seq![], file_path@, vecs_view(lines@)));
        Ok(deps)
    }

    /// Reads the dependencies of a file: `Chart.yaml` for charts, anything else as values.
    pub fn extract(&self, file_path: &str, contents: &str) -> (r: Result<Vec<Dependency>, ReforgeError>)
        ensures
            deps_result_view(r) == helm_extract_spec(file_path@, contents@),
    {
        let name = file_name(file_path);
        if crate::text::chars_eq(&name, &chars_of("Chart.yaml")) {
            self.extract_chart_yaml_deps(file_path, contents)
        } else {
            self.extract_values_yaml_deps(file_path, contents)
        }
    }
}

impl PackageManager for HelmManager {
    fn name(&self) -> (r: &'static str)
        ensures
            r@ == "helm"@,
    {
        "helm"
    }

    fn file_patterns(&self) -> (r: Vec<&'static str>)
        ensures
            r@.map_values(|p: &'static str| p@) == seq!["Chart.yaml"@, "values.yaml"@, "values-*.yaml"@],
    {
        let mut v: Vec<&'static str> = Vec::new();
        v.push("Chart.yaml");
        v.push("values.yaml");
        v.push("values-*.yaml");
        assert(v@.map_values(|p: &'static str| p@) =~= seq!["Chart.yaml"@, "values.yaml"@, "values-*.yaml"@]);
        v
    }

    fn extract_dependencies(&self, file_path: &str, contents: &str) -> (r: Result<Vec<Dependency>, ReforgeError>)
        ensures
            deps_result_view(r) == helm_extract_spec(file_path@, contents@),
    {
        self.extract(file_path, contents)
    }
}

} // verus!
