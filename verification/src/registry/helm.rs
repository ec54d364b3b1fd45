//! Helm chart repository helpers: where a repository's index lives and which
//! versions of a chart it lists.
use vstd::prelude::*;

use crate::config::RegistryCredential;
use crate::error::ReforgeError;
use crate::error::ReforgeErrorView;
use crate::manager::yaml::as_str;
use crate::manager::yaml::entries_view;
use crate::manager::yaml::items_view;
use crate::manager::yaml::lemma_view_parts;
use crate::manager::yaml::map_get;
use crate::manager::yaml::mapping_get;
use crate::manager::yaml::parse_yaml;
use crate::manager::yaml::untag;
use crate::manager::yaml::untag_ref;
use crate::manager::yaml::yaml_as_str;
use crate::manager::yaml::yaml_parse;
use crate::manager::yaml::yaml_view;
use crate::manager::yaml::YamlValue;
use crate::manager::yaml::YamlView;
use crate::registry::docker::versions_from_tags;
use crate::registry::docker::versions_from_tags_spec;
use crate::registry::docker::versions_view;
use crate::registry::VersionInfo;
use crate::registry::VersionInfoView;
use crate::text::chars_of;
use crate::text::push_text;
use crate::text::string_of;
use crate::text::strings_view;
use crate::text::trim_end_char;
use crate::text::trim_end_char_in;

verus! {

/// The URL of a Helm repository's index.
pub open spec fn index_url_spec(repo_url: Seq<char>) -> Seq<char> {
    trim_end_char(repo_url, '/') + "/index.yaml"@
}

/// Forms the URL of a Helm repository's index.
pub fn index_url(repo_url: &str) -> (r: String)
    ensures
        r@ == index_url_spec(repo_url@),
{
    let mut v = trim_end_char_in(&chars_of(repo_url), '/');
    push_text(&mut v, "/index.yaml");
    string_of(&v)
}

/// The version text of an index entry: its `version` string; `None` when the
/// entry is not a mapping with a text `version` (and, when present, a text `name`).
pub open spec fn index_entry_version(v: YamlView) -> Option<Seq<char>> {
    match untag(v) {
        YamlView::Mapping(es) => match map_get(es, "version"@) {
            Some(ver) => match yaml_as_str(ver) {
                Some(t) => match map_get(es, "name"@) {
                    Some(n) => if yaml_as_str(n) is Some { Some(t) } else { None },
                    None => Some(t),
                },
                None => None,
            },
            None => None,
        },
        _ => None,
    }
}

/// The versions listed for one chart; `None` when an entry is malformed.
pub open spec fn index_entry_versions(items: Seq<YamlView>) -> Option<Seq<Seq<char>>>
    decreases items.len(),
{
    if items.len() == 0 {
        Some(seq![])
    } else {
        match (index_entry_versions(items.drop_last()), index_entry_version(items.last())) {
            (Some(prev), Some(t)) => Some(prev.push(t)),
            _ => None,
        }
    }
}

/// The versions listed for every chart, in index order; `None` when some chart's
/// value is not a list of well-formed entries.
pub open spec fn index_charts(es: Seq<(YamlView, YamlView)>) -> Option<Seq<(YamlView, Seq<Seq<char>>)>>
    decreases es.len(),
{
    if es.len() == 0 {
        Some(seq![])
    } else {
        match (index_charts(es.drop_last()), untag(es.last().1)) {
            (Some(prev), YamlView::Sequence(items)) => match index_entry_versions(items) {
                Some(vs) => Some(prev.push((es.last().0, vs))),
                None => None,
            },
            _ => None,
        }
    }
}

/// The versions of the chart keyed `name` (the first such key).
pub open spec fn chart_versions_of(charts: Seq<(YamlView, Seq<Seq<char>>)>, name: Seq<char>) -> Option<Seq<Seq<char>>>
    decreases charts.len(),
{
    if charts.len() == 0 {
        None
    } else if charts[0].0 == YamlView::String(name) {
        Some(charts[0].1)
    } else {
        chart_versions_of(charts.drop_first(), name)
    }
}

/// The charts of an index document: its `entries` mapping read as chart lists.
pub open spec fn index_structure(root: YamlView) -> Option<Seq<(YamlView, Seq<Seq<char>>)>> {
    match untag(root) {
        YamlView::Mapping(es) => match map_get(es, "entries"@) {
            Some(e) => match untag(e) {
                YamlView::Mapping(charts) => index_charts(charts),
                _ => None,
            },
            None => None,
        },
        _ => None,
    }
}

/// The versions an index lists for a chart: a registry error when the index does
/// not parse or lacks the chart; else the listed versions that read as versions.
pub open spec fn index_versions_spec(body: Seq<char>, chart_name: Seq<char>, repo_url: Seq<char>) -> Result<Seq<VersionInfoView>, ReforgeErrorView> {
    match yaml_parse(body) {
        Err(e) => Err(ReforgeErrorView::Registry { registry: repo_url, message: "Failed to parse index.yaml: "@ + e }),
        Ok(root) => index_root_versions(root, chart_name, repo_url),
    }
}

/// The versions a parsed index lists for a chart, or the error for an index of
/// the wrong shape or without the chart.
pub open spec fn index_root_versions(root: YamlView, chart_name: Seq<char>, repo_url: Seq<char>) -> Result<Seq<VersionInfoView>, ReforgeErrorView> {
    match index_structure(root) {
        None => Err(
            ReforgeErrorView::Registry {
                registry: repo_url,
                message: "Failed to parse index.yaml: unexpected document structure"@,
            },
        ),
        Some(charts) => match chart_versions_of(charts, chart_name) {
            None => Err(
                ReforgeErrorView::Registry {
                    registry: repo_url,
                    message: "Chart '"@ + chart_name + "' not found in index"@,
                },
            ),
            Some(vs) => Ok(versions_from_tags_spec(vs)),
        },
    }
}

pub open spec fn versions_result_view(r: Result<Vec<VersionInfo>, ReforgeError>) -> Result<Seq<VersionInfoView>, ReforgeErrorView> {
    match r {
        Ok(v) => Ok(versions_view(v@)),
        Err(e) => Err(e@),
    }
}

fn entry_version(v: &YamlValue) -> (r: Option<String>)
    ensures
        opt_strings(r) == index_entry_version(yaml_view(*v)),
{
    let u = untag_ref(v);
    proof {
        lemma_view_parts(u);
    }
    match u {
        YamlValue::Mapping(es) => match mapping_get(es, "version") {
            Some(ver) => match as_str(ver) {
                Some(t) => match mapping_get(es, "name") {
                    Some(n) => if as_str(n).is_some() {
                        Some(crate::text::copy_string(t))
                    } else {
                        None
                    },
                    None => Some(crate::text::copy_string(t)),
                },
                None => None,
            },
            None => None,
        },
        _ => None,
    }
}

pub open spec fn opt_strings(o: Option<String>) -> Option<Seq<char>> {
    crate::text::opt_view(o)
}

fn entry_versions(items: &Vec<YamlValue>) -> (r: Option<Vec<String>>)
    ensures
        match r {
            Some(v) => index_entry_versions(items_view(items@)) == Some(strings_view(v@)),
            None => index_entry_versions(items_view(items@)) is None,
        },
{
    let ghost iv = items_view(items@);
    let mut out: Vec<String> = Vec::new();
    let mut i: usize = 0;
    while i < items.len()
        invariant
            i <= items@.len(),
            iv == items_view(items@),
            index_entry_versions(iv.take(i as int)) == Some(strings_view(out@)),
        decreases items@.len() - i,
    {
        assert(iv.take(i + 1).drop_last() =~= iv.take(i as int));
        assert(iv.take(i + 1).last() == yaml_view(items@[i as int]));
        match entry_version(&items[i]) {
            Some(t) => {
                let ghost before = strings_view(out@);
                let ghost tv = t@;
                out.push(t);
                assert(strings_view(out@) =~= before.push(tv));
            },
            None => {
                proof {
                    lemma_versions_none(iv, i as int + 1);
                }
                return None;
            },
        }
        i = i + 1;
    }
    assert(iv.take(items@.len() as int) =~= iv);
    Some(out)
}

proof fn lemma_versions_none(items: Seq<YamlView>, n: int)
    requires
        0 <= n <= items.len(),
        index_entry_versions(items.take(n)) is None,
    ensures
        index_entry_versions(items) is None,
    decreases items.len() - n,
{
    if n < items.len() {
        assert(items.take(n + 1).drop_last() =~= items.take(n));
        lemma_versions_none(items, n + 1);
    } else {
        assert(items.take(n) =~= items);
    }
}

proof fn lemma_charts_none(es: Seq<(YamlView, YamlView)>, n: int)
    requires
        0 <= n <= es.len(),
        index_charts(es.take(n)) is None,
    ensures
        index_charts(es) is None,
    decreases es.len() - n,
{
    if n < es.len() {
        assert(es.take(n + 1).drop_last() =~= es.take(n));
        lemma_charts_none(es, n + 1);
    } else {
        assert(es.take(n) =~= es);
    }
}

proof fn lemma_charts_lookup(es: Seq<(YamlView, YamlView)>, charts: Seq<(YamlView, Seq<Seq<char>>)>, n: int, name: Seq<char>)
    requires
        0 <= n <= es.len(),
        index_charts(es.take(n)) == Some(charts),
    ensures
        charts.len() == n,
        forall|j: int| 0 <= j < n ==> (#[trigger] charts[j]).0 == es[j].0,
    decreases n,
{
    if n > 0 {
        assert(es.take(n).drop_last() =~= es.take(n - 1));
        let prev = index_charts(es.take(n - 1))->0;
        lemma_charts_lookup(es, prev, n - 1, name);
        assert(charts == prev.push((es[n - 1].0, charts.last().1)));
    }
}

/// Reads the versions an index lists for a chart.
pub fn index_versions(body: &str, chart_name: &str, repo_url: &str) -> (r: Result<Vec<VersionInfo>, ReforgeError>)
    ensures
        versions_result_view(r) == index_versions_spec(body@, chart_name@, repo_url@),
{
    let root = match parse_yaml(body) {
        Ok(v) => v,
        Err(e) => {
            let mut m = chars_of("Failed to parse index.yaml: ");
            push_text(&mut m, e.as_str());
            return Err(ReforgeError::Registry { registry: repo_url.to_string(), message: string_of(&m) });
        },
    };
    index_chart_versions(&root, chart_name, repo_url)
}

/// Reads the versions that a parsed index lists for a chart.
pub fn index_chart_versions(root: &YamlValue, chart_name: &str, repo_url: &str) -> (r: Result<Vec<VersionInfo>, ReforgeError>)
    ensures
        versions_result_view(r) == index_root_versions(yaml_view(*root), chart_name@, repo_url@),
{
    let structure_error = ReforgeError::Registry {
        registry: repo_url.to_string(),
        message: "Failed to parse index.yaml: unexpected document structure".to_string(),
    };
    let u = untag_ref(root);
    proof {
        lemma_view_parts(u);
    }
    let es = match u {
        YamlValue::Mapping(es) => es,
        _ => {
            return Err(structure_error);
        },
    };
    let e = match mapping_get(es, "entries") {
        Some(e) => e,
        None => {
            return Err(structure_error);
        },
    };
    let eu = untag_ref(e);
    proof {
        lemma_view_parts(eu);
    }
    let charts = match eu {
        YamlValue::Mapping(c) => c,
        _ => {
            return Err(structure_error);
        },
    };
    let ghost cv = entries_view(charts@);
    let name = chars_of(chart_name);
    let mut found: Option<Vec<String>> = None;
    let ghost mut acc: Seq<(YamlView, Seq<Seq<char>>)> = seq![];
    let mut i: usize = 0;
    while i < charts.len()
        invariant
            i <= charts@.len(),
            cv == entries_view(charts@),
            index_structure(yaml_view(*root)) == index_charts(cv),
            structure_error@ == (ReforgeErrorView::Registry {
                registry: repo_url@,
                message: "Failed to parse index.yaml: unexpected document structure"@,
            }),
            name@ == chart_name@,
            index_charts(cv.take(i as int)) == Some(acc),
            match found {
                Some(v) => chart_versions_of(acc, chart_name@) == Some(strings_view(v@)),
                None => chart_versions_of(acc, chart_name@) is None,
            },
        decreases charts@.len() - i,
    {
        let ghost t = cv.take(i + 1);
        assert(t.drop_last() =~= cv.take(i as int));
        assert(t.last() == (yaml_view(charts@[i as int].0), yaml_view(charts@[i as int].1)));
        let vu = untag_ref(&charts[i].1);
        proof {
            lemma_view_parts(vu);
        }
        let items = match vu {
            YamlValue::Sequence(items) => items,
            _ => {
                proof {
                    lemma_charts_none(cv, i as int + 1);
                }
                return Err(structure_error);
            },
        };
        let vs = match entry_versions(items) {
            Some(vs) => vs,
            None => {
                proof {
                    lemma_charts_none(cv, i as int + 1);
                }
                return Err(structure_error);
            },
        };
        let ghost new_acc = acc.push((yaml_view(charts@[i as int].0), strings_view(vs@)));
        proof {
            lemma_lookup_push(acc, (yaml_view(charts@[i as int].0), strings_view(vs@)), chart_name@);
        }
        let key = &charts[i].0;
        proof {
            lemma_view_parts(key);
        }
        let is_name = match key {
            YamlValue::String(k) => crate::text::chars_eq(&chars_of(k.as_str()), &name),
            _ => false,
        };
        if found.is_none() && is_name {
            found = Some(vs);
        }
        proof {
            acc = new_acc;
        }
        i = i + 1;
    }
    assert(cv.take(charts@.len() as int) =~= cv);
    match found {
        Some(vs) => Ok(versions_from_tags(&vs)),
        None => {
            let mut m = chars_of("Chart '");
            push_text(&mut m, chart_name);
            push_text(&mut m, "' not found in index");
            Err(ReforgeError::Registry { registry: repo_url.to_string(), message: string_of(&m) })
        },
    }
}

proof fn lemma_lookup_push(charts: Seq<(YamlView, Seq<Seq<char>>)>, x: (YamlView, Seq<Seq<char>>), name: Seq<char>)
    ensures
        chart_versions_of(charts.push(x), name) == match chart_versions_of(charts, name) {
            Some(v) => Some(v),
            None => if x.0 == YamlView::String(name) { Some(x.1) } else { None },
        },
    decreases charts.len(),
{
    reveal_with_fuel(chart_versions_of, 2);
    if charts.len() == 0 {
        assert(charts.push(x).drop_first() =~= Seq::<(YamlView, Seq<Seq<char>>)>::empty());
        assert(charts.push(x)[0] == x);
    } else {
        assert(charts.push(x)[0] == charts[0]);
        assert(charts.push(x).drop_first() =~= charts.drop_first().push(x));
        lemma_lookup_push(charts.drop_first(), x, name);
    }
}

/// The host that `url::Url` reads from a URL text, when it parses and has one.
pub uninterp spec fn url_host(text: Seq<char>) -> Option<Seq<char>>;

/// Reads the host of a URL.
/// Trusted: calls `url::Url::parse` and `host_str`; the result is named by `url_host`.
#[verifier::external_body]
fn parse_url_host(text: &str) -> (r: Option<String>)
    ensures
        crate::text::opt_view(r) == url_host(text@),
{
    url::Url::parse(text).ok().and_then(|u| u.host_str().map(|h| h.to_string()))
}

/// The position of the first credential configured for `host`.
pub open spec fn credential_position(hosts: Seq<Seq<char>>, host: Seq<char>) -> Option<int>
    decreases hosts.len(),
{
    if hosts.len() == 0 {
        None
    } else if hosts[0] == host {
        Some(0)
    } else {
        match credential_position(hosts.drop_first(), host) {
            Some(i) => Some(i + 1),
            None => None,
        }
    }
}

pub open spec fn credential_hosts(creds: Seq<(String, RegistryCredential)>) -> Seq<Seq<char>> {
    creds.map_values(|c: (String, RegistryCredential)| c.0@)
}

/// The position of the credential configured for `host`, if any.
pub fn credential_index(credentials: &Vec<(String, RegistryCredential)>, host: &str) -> (r: Option<usize>)
    ensures
        match r {
            Some(i) => credential_position(credential_hosts(credentials@), host@) == Some(i as int),
            None => credential_position(credential_hosts(credentials@), host@) is None,
        },
{
    let hv = chars_of(host);
    let ghost hs = credential_hosts(credentials@);
    assert(hs.subrange(0, hs.len() as int) =~= hs);
    let mut i: usize = 0;
    while i < credentials.len()
        invariant
            i <= credentials@.len(),
            hs == credential_hosts(credentials@),
            hv@ == host@,
            credential_position(hs, host@) == match credential_position(hs.subrange(i as int, hs.len() as int), host@) {
                Some(k) => Some(k + i),
                None => None,
            },
        decreases credentials@.len() - i,
    {
        let ghost rest = hs.subrange(i as int, hs.len() as int);
        assert(rest[0] == credentials@[i as int].0@);
        assert(rest.drop_first() =~= hs.subrange(i + 1, hs.len() as int));
        if crate::text::chars_eq(&chars_of(credentials[i].0.as_str()), &hv) {
            assert(credential_position(rest, host@) == Some(0int));
            return Some(i);
        }
        i = i + 1;
    }
    assert(hs.subrange(i as int, hs.len() as int).len() == 0);
    None
}

/// The credential that applies to a Helm repository: the one configured for the
/// host of the repository's index URL.
pub fn index_credential(repo_url: &str, credentials: &Vec<(String, RegistryCredential)>) -> (r: Option<usize>)
    ensures
        match r {
            Some(i) => url_host(index_url_spec(repo_url@)) matches Some(h) && credential_position(
                credential_hosts(credentials@),
                h,
            ) == Some(i as int),
            None => match url_host(index_url_spec(repo_url@)) {
                Some(h) => credential_position(credential_hosts(credentials@), h) is None,
                None => true,
            },
        },
{
    let url = index_url(repo_url);
    match parse_url_host(url.as_str()) {
        Some(h) => credential_index(credentials, h.as_str()),
        None => None,
    }
}

} // verus!
