//! Docker Registry v2 helpers: where an image's tags are listed, how the
//! registry's authentication challenge and pagination links are read, and which
//! tags become versions.
use vstd::prelude::*;
use base64::Engine;

use crate::config::RegistryCredential;
use crate::error::ReforgeError;
use crate::error::ReforgeErrorView;
use crate::registry::parse_version_lenient;
use crate::registry::parse_version_lenient_spec;
use crate::registry::VersionInfo;
use crate::registry::VersionInfoView;
use crate::text::chars_eq;
use crate::text::chars_of;
use crate::text::contains_char;
use crate::text::contains_sub;
use crate::text::contains_sub_in;
use crate::text::find_char;
use crate::text::find_spec;
use crate::text::opt_view;
use crate::text::push_text;
use crate::text::slice_of;
use crate::text::split_chars;
use crate::text::split_spec;
use crate::text::starts_with;
use crate::text::starts_with_spec;
use crate::text::string_of;
use crate::text::trim_chars;
use crate::text::trim_end_char;
use crate::text::trim_end_char_in;
use crate::text::trim_spec;
use crate::text::trim_start_char_spec;
use crate::text::vecs_view;

verus! {

/// The registry host used when an image names none.
pub open spec fn default_registry_host() -> Seq<char> {
    "registry-1.docker.io"@
}

/// The host part of a registry reference: the text before its first `/`.
pub open spec fn registry_host(reg: Seq<char>) -> Seq<char> {
    match find_spec(reg, '/') {
        Some(i) => reg.subrange(0, i),
        None => reg,
    }
}

/// The credential configured for a host (the first entry for it).
pub open spec fn credential_for(creds: Seq<(Seq<char>, Option<Seq<char>>)>, host: Seq<char>) -> Option<Option<Seq<char>>>
    decreases creds.len(),
{
    if creds.len() == 0 {
        None
    } else if creds[0].0 == host {
        Some(creds[0].1)
    } else {
        credential_for(creds.drop_first(), host)
    }
}

/// The hosts and configured base URLs of a credential list.
pub open spec fn base_urls_view(creds: Seq<(String, RegistryCredential)>) -> Seq<(Seq<char>, Option<Seq<char>>)> {
    creds.map_values(|c: (String, RegistryCredential)| (c.0@, opt_view(c.1.base_url)))
}

/// The base URL and host of a registry: the host's configured base URL (trailing
/// `/` removed) when it has one, else `https://<host>`; the default registry
/// when none is given.
pub open spec fn resolve_registry_url_spec(registry: Option<Seq<char>>, creds: Seq<(Seq<char>, Option<Seq<char>>)>) -> (Seq<char>, Seq<char>) {
    let host = match registry {
        Some(reg) => registry_host(reg),
        None => default_registry_host(),
    };
    match credential_for(creds, host) {
        Some(Some(base)) => (trim_end_char(base, '/'), host),
        _ => ("https://"@ + host, host),
    }
}

fn host_of(reg: &Vec<char>) -> (r: Vec<char>)
    ensures
        r@ == registry_host(reg@),
{
    proof {
        crate::text::lemma_find_spec(reg@, '/');
    }
    match find_char(reg, '/') {
        Some(i) => slice_of(reg, 0, i),
        None => slice_of(reg, 0, reg.len()),
    }
}

/// Resolves the base URL and host of an image's registry.
pub fn resolve_registry_url(registry: &Option<String>, credentials: &Vec<(String, RegistryCredential)>) -> (r: (String, String))
    ensures
        (r.0@, r.1@) == resolve_registry_url_spec(opt_view(*registry), base_urls_view(credentials@)),
{
    let host: Vec<char> = match registry {
        Some(reg) => host_of(&chars_of(reg.as_str())),
        None => chars_of("registry-1.docker.io"),
    };
    let ghost cv = base_urls_view(credentials@);
    assert(cv.subrange(0, cv.len() as int) =~= cv);
    let mut i: usize = 0;
    while i < credentials.len()
        invariant
            i <= credentials@.len(),
            cv == base_urls_view(credentials@),
            host@ == match opt_view(*registry) {
                Some(reg) => registry_host(reg),
                None => default_registry_host(),
            },
            credential_for(cv, host@) == credential_for(cv.subrange(i as int, cv.len() as int), host@),
        decreases credentials@.len() - i,
    {
        let ghost rest = cv.subrange(i as int, cv.len() as int);
        assert(rest[0] == cv[i as int]);
        assert(cv[i as int] == (credentials@[i as int].0@, opt_view(credentials@[i as int].1.base_url)));
        assert(rest.drop_first() =~= cv.subrange(i + 1, cv.len() as int));
        if chars_eq(&chars_of(credentials[i].0.as_str()), &host) {
            match &credentials[i].1.base_url {
                Some(base) => {
                    let b = trim_end_char_in(&chars_of(base.as_str()), '/');
                    return (string_of(&b), string_of(&host));
                },
                None => {
                    let mut u = chars_of("https://");
                    crate::text::extend_chars(&mut u, &host);
                    return (string_of(&u), string_of(&host));
                },
            }
        }
        i = i + 1;
    }
    let mut u = chars_of("https://");
    crate::text::extend_chars(&mut u, &host);
    (string_of(&u), string_of(&host))
}

/// The repository path of an image in its registry: `library/<image>` for bare
/// Docker Hub names; the image without its host prefix when it starts with the
/// host; the registry's path before the image when the registry has one.
pub open spec fn resolve_image_name_spec(image: Seq<char>, registry: Option<Seq<char>>) -> Seq<char> {
    match registry {
        None => if image.contains('/') { image } else { "library/"@ + image },
        Some(reg) => {
            let host = registry_host(reg);
            if starts_with_spec(image, host) {
                trim_start_char_spec(image.subrange(host.len() as int, image.len() as int), '/')
            } else if reg.contains('/') {
                let path = reg.subrange(find_spec(reg, '/')->0 + 1, reg.len() as int);
                if path.len() == 0 { image } else { path + "/"@ + image }
            } else {
                image
            }
        },
    }
}

/// Resolves the repository path of an image within its registry.
pub fn resolve_image_name(image: &str, registry: &Option<String>) -> (r: String)
    ensures
        r@ == resolve_image_name_spec(image@, opt_view(*registry)),
{
    let img = chars_of(image);
    match registry {
        None => {
            if contains_char(&img, '/') {
                img_string(&img)
            } else {
                let mut v = chars_of("library/");
                crate::text::extend_chars(&mut v, &img);
                string_of(&v)
            }
        },
        Some(reg) => {
            let rv = chars_of(reg.as_str());
            let host = host_of(&rv);
            if starts_with(&img, &host) {
                let rest = slice_of(&img, host.len(), img.len());
                string_of(&crate::text::trim_start_char_in(&rest, '/'))
            } else if contains_char(&rv, '/') {
                proof {
                    crate::text::lemma_find_spec(rv@, '/');
                }
                match find_char(&rv, '/') {
                    Some(idx) => {
                        assert(idx < rv.len());
                        let path = slice_of(&rv, idx + 1, rv.len());
                        if path.len() == 0 {
                            img_string(&img)
                        } else {
                            let mut v = slice_of(&path, 0, path.len());
                            push_text(&mut v, "/");
                            crate::text::extend_chars(&mut v, &img);
                            assert(v@ =~= path@ + "/"@ + img@);
                            string_of(&v)
                        }
                    },
                    None => img_string(&img),
                }
            } else {
                img_string(&img)
            }
        },
    }
}

fn img_string(v: &Vec<char>) -> (r: String)
    ensures
        r@ == v@,
{
    string_of(v)
}

/// `s` without all leading and trailing `c` characters (`trim_matches` with a char).
pub open spec fn trim_char_both(s: Seq<char>, c: char) -> Seq<char> {
    trim_end_char(trim_start_char_spec(s, c), c)
}

/// The challenge parameters after the scheme word (`Bearer ` or `bearer `).
pub open spec fn challenge_body(header: Seq<char>) -> Seq<char> {
    if starts_with_spec(header, "Bearer "@) {
        header.subrange(7, header.len() as int)
    } else if starts_with_spec(header, "bearer "@) {
        header.subrange(7, header.len() as int)
    } else {
        header
    }
}

/// The `key=value` pairs of comma-separated parts (trimmed, quotes removed from
/// values); parts without `=` are skipped.
pub open spec fn challenge_params(parts: Seq<Seq<char>>) -> Seq<(Seq<char>, Seq<char>)>
    decreases parts.len(),
{
    if parts.len() == 0 {
        seq![]
    } else {
        let prev = challenge_params(parts.drop_last());
        let p = trim_spec(parts.last());
        match find_spec(p, '=') {
            Some(eq) => prev.push(
                (trim_spec(p.subrange(0, eq)), trim_char_both(trim_spec(p.subrange(eq + 1, p.len() as int)), '"')),
            ),
            None => prev,
        }
    }
}

/// The parameters of a `WWW-Authenticate` challenge, in order.
pub open spec fn www_authenticate_spec(header: Seq<char>) -> Seq<(Seq<char>, Seq<char>)> {
    challenge_params(split_spec(challenge_body(header), ','))
}

pub open spec fn pairs_view(v: Seq<(String, String)>) -> Seq<(Seq<char>, Seq<char>)> {
    v.map_values(|p: (String, String)| (p.0@, p.1@))
}

/// Reads the parameters of a `WWW-Authenticate` challenge (`realm`, `service`, `scope`, ...).
pub fn parse_www_authenticate(header: &str) -> (r: Vec<(String, String)>)
    ensures
        pairs_view(r@) == www_authenticate_spec(header@),
{
    let h = chars_of(header);
    proof {
        reveal_strlit("Bearer ");
        reveal_strlit("bearer ");
    }
    let body = if starts_with(&h, &chars_of("Bearer ")) || starts_with(&h, &chars_of("bearer ")) {
        slice_of(&h, 7, h.len())
    } else {
        slice_of(&h, 0, h.len())
    };
    assert(h@.subrange(0, h@.len() as int) =~= h@);
    let parts = split_chars(&body, ',');
    let ghost pv = vecs_view(parts@);
    let mut out: Vec<(String, String)> = Vec::new();
    let mut i: usize = 0;
    while i < parts.len()
        invariant
            i <= parts@.len(),
            pv == vecs_view(parts@),
            pairs_view(out@) == challenge_params(pv.take(i as int)),
        decreases parts@.len() - i,
    {
        assert(pv.take(i + 1).drop_last() =~= pv.take(i as int));
        assert(pv.take(i + 1).last() == parts@[i as int]@);
        let p = trim_chars(&parts[i]);
        proof {
            crate::text::lemma_find_spec(p@, '=');
        }
        match find_char(&p, '=') {
            Some(eq) => {
                assert(eq < p.len());
                let key = trim_chars(&slice_of(&p, 0, eq));
                let raw = trim_chars(&slice_of(&p, eq + 1, p.len()));
                let val = trim_end_char_in(&crate::text::trim_start_char_in(&raw, '"'), '"');
                let ghost before = pairs_view(out@);
                out.push((string_of(&key), string_of(&val)));
                assert(pairs_view(out@) =~= before.push((key@, val@)));
            },
            None => {},
        }
        i = i + 1;
    }
    assert(pv.take(parts@.len() as int) =~= pv);
    out
}

/// The value of a parameter: the last one given under the key.
pub open spec fn param_spec(params: Seq<(Seq<char>, Seq<char>)>, key: Seq<char>) -> Option<Seq<char>>
    decreases params.len(),
{
    if params.len() == 0 {
        None
    } else if params.last().0 == key {
        Some(params.last().1)
    } else {
        param_spec(params.drop_last(), key)
    }
}

/// Looks up a challenge parameter (the last one given under the key).
pub fn challenge_param(params: &Vec<(String, String)>, key: &str) -> (r: Option<String>)
    ensures
        opt_view(r) == param_spec(pairs_view(params@), key@),
{
    let ghost pv = pairs_view(params@);
    let k = chars_of(key);
    let mut i: usize = params.len();
    assert(pv.take(i as int) =~= pv);
    while i > 0
        invariant
            i <= params@.len(),
            pv == pairs_view(params@),
            k@ == key@,
            param_spec(pv, key@) == param_spec(pv.take(i as int), key@),
        decreases i,
    {
        assert(pv.take(i as int).drop_last() =~= pv.take(i - 1));
        assert(pv.take(i as int).last() == (params@[i - 1].0@, params@[i - 1].1@));
        if chars_eq(&chars_of(params[i - 1].0.as_str()), &k) {
            return Some(crate::text::copy_string(&params[i - 1].1));
        }
        i = i - 1;
    }
    None
}

/// The token endpoint URL: the realm, with `service=` and `scope=` query
/// parameters for those that are given.
pub open spec fn token_url_spec(realm: Seq<char>, service: Option<Seq<char>>, scope: Option<Seq<char>>) -> Seq<char> {
    match (service, scope) {
        (Some(sv), Some(sc)) => realm + "?"@ + "service="@ + sv + "&"@ + "scope="@ + sc,
        (Some(sv), None) => realm + "?"@ + "service="@ + sv,
        (None, Some(sc)) => realm + "?"@ + "scope="@ + sc,
        (None, None) => realm,
    }
}

/// Forms the URL at which a bearer token is requested.
pub fn token_url(realm: &str, service: Option<&str>, scope: Option<&str>) -> (r: String)
    ensures
        r@ == token_url_spec(realm@, match service {
            Some(x) => Some(x@),
            None => None,
        }, match scope {
            Some(x) => Some(x@),
            None => None,
        }),
{
    let mut out = chars_of(realm);
    match service {
        Some(sv) => {
            push_text(&mut out, "?");
            push_text(&mut out, "service=");
            push_text(&mut out, sv);
            match scope {
                Some(sc) => {
                    push_text(&mut out, "&");
                    push_text(&mut out, "scope=");
                    push_text(&mut out, sc);
                },
                None => {},
            }
        },
        None => match scope {
            Some(sc) => {
                push_text(&mut out, "?");
                push_text(&mut out, "scope=");
                push_text(&mut out, sc);
            },
            None => {},
        },
    }
    string_of(&out)
}

/// The outcome for one part of a `Link` header: not a `rel="next"` part with
/// both angle brackets (`None`), or the URL it names (relative URLs joined to the base).
pub open spec fn link_part_next(part: Seq<char>, base: Seq<char>) -> Option<Seq<char>> {
    let p = trim_spec(part);
    if contains_sub(p, "rel=\"next\""@) && find_spec(p, '<') is Some && find_spec(p, '>') is Some {
        let url = p.subrange(find_spec(p, '<')->0 + 1, find_spec(p, '>')->0);
        if starts_with_spec(url, "http"@) {
            Some(url)
        } else {
            Some(base + url)
        }
    } else {
        None
    }
}

/// A part is well formed when, if it is the `next` link, its `<` comes before its `>`.
pub open spec fn link_part_ok(part: Seq<char>) -> bool {
    let p = trim_spec(part);
    (contains_sub(p, "rel=\"next\""@) && find_spec(p, '<') is Some && find_spec(p, '>') is Some) ==> find_spec(p, '<')->0
        < find_spec(p, '>')->0
}

/// The next-page URL of the first `rel="next"` part, if any.
pub open spec fn link_next_spec(parts: Seq<Seq<char>>, base: Seq<char>) -> Option<Seq<char>>
    decreases parts.len(),
{
    if parts.len() == 0 {
        None
    } else {
        match link_part_next(parts[0], base) {
            Some(u) => Some(u),
            None => link_next_spec(parts.drop_first(), base),
        }
    }
}

/// The parts up to and including the first `next` link are well formed.
pub open spec fn link_header_ok(parts: Seq<Seq<char>>) -> bool
    decreases parts.len(),
{
    parts.len() == 0 || (link_part_ok(parts[0]) && (link_part_next(parts[0], ""@) is Some || link_header_ok(
        parts.drop_first(),
    )))
}

/// Reads the next-page URL from a registry's `Link` header.
pub fn parse_link_next(header: &str, base_url: &str) -> (r: Option<String>)
    requires
        link_header_ok(split_spec(header@, ',')),
    ensures
        opt_view(r) == link_next_spec(split_spec(header@, ','), base_url@),
{
    let parts = split_chars(&chars_of(header), ',');
    let ghost pv = vecs_view(parts@);
    let mut i: usize = 0;
    assert(pv.subrange(0, pv.len() as int) =~= pv);
    while i < parts.len()
        invariant
            i <= parts@.len(),
            pv == vecs_view(parts@),
            pv == split_spec(header@, ','),
            link_next_spec(pv, base_url@) == link_next_spec(pv.subrange(i as int, pv.len() as int), base_url@),
            link_header_ok(pv.subrange(i as int, pv.len() as int)),
        decreases parts@.len() - i,
    {
        let ghost rest = pv.subrange(i as int, pv.len() as int);
        assert(rest[0] == parts@[i as int]@);
        assert(rest.drop_first() =~= pv.subrange(i + 1, pv.len() as int));
        let p = trim_chars(&parts[i]);
        proof {
            crate::text::lemma_find_spec(p@, '<');
            crate::text::lemma_find_spec(p@, '>');
        }
        if contains_sub_in(&p, &chars_of("rel=\"next\"")) {
            match (find_char(&p, '<'), find_char(&p, '>')) {
                (Some(start), Some(end)) => {
                    let url = slice_of(&p, start + 1, end);
                    if starts_with(&url, &chars_of("http")) {
                        assert(link_part_next(rest[0], base_url@) == Some(url@));
                        return Some(string_of(&url));
                    } else {
                        let mut full = chars_of(base_url);
                        crate::text::extend_chars(&mut full, &url);
                        assert(link_part_next(rest[0], base_url@) == Some(full@));
                        return Some(string_of(&full));
                    }
                },
                _ => {},
            }
        }
        i = i + 1;
    }
    None
}

/// Whether a `Link` header can be read: the parts up to and including the first
/// `next` link are well formed (`parse_link_next` requires it).
pub fn link_header_well_formed(header: &str) -> (r: bool)
    ensures
        r == link_header_ok(split_spec(header@, ',')),
{
    let parts = split_chars(&chars_of(header), ',');
    let ghost pv = vecs_view(parts@);
    assert(pv.subrange(0, pv.len() as int) =~= pv);
    let mut i: usize = 0;
    while i < parts.len()
        invariant
            i <= parts@.len(),
            pv == vecs_view(parts@),
            pv == split_spec(header@, ','),
            link_header_ok(pv) == link_header_ok(pv.subrange(i as int, pv.len() as int)),
        decreases parts@.len() - i,
    {
        let ghost rest = pv.subrange(i as int, pv.len() as int);
        assert(rest[0] == parts@[i as int]@);
        assert(rest.drop_first() =~= pv.subrange(i + 1, pv.len() as int));
        let p = trim_chars(&parts[i]);
        proof {
            crate::text::lemma_find_spec(p@, '<');
            crate::text::lemma_find_spec(p@, '>');
        }
        if contains_sub_in(&p, &chars_of("rel=\"next\"")) {
            match (find_char(&p, '<'), find_char(&p, '>')) {
                (Some(start), Some(end)) => {
                    assert(link_part_next(rest[0], ""@) is Some);
                    return start < end;
                },
                _ => {},
            }
        }
        i = i + 1;
    }
    assert(pv.subrange(i as int, pv.len() as int).len() == 0);
    true
}

/// The versions among a repository's tags: each tag that reads as a version
/// (leniently), with the tag kept as written, in order.
pub open spec fn versions_from_tags_spec(tags: Seq<Seq<char>>) -> Seq<VersionInfoView>
    decreases tags.len(),
{
    if tags.len() == 0 {
        seq![]
    } else {
        let prev = versions_from_tags_spec(tags.drop_last());
        match parse_version_lenient_spec(tags.last()) {
            Some(v) => prev.push(VersionInfoView { version: v, original_tag: tags.last() }),
            None => prev,
        }
    }
}

/// Whether a tag reads as a version.
pub open spec fn reads_as_version() -> spec_fn(Seq<char>) -> bool {
    |t: Seq<char>| parse_version_lenient_spec(t) is Some
}

/// Only tags that read as versions are kept: each version comes from one of the
/// tags, as that tag reads, and no tag that reads as a version is dropped.
pub proof fn lemma_versions_are_parsed_tags(tags: Seq<Seq<char>>)
    ensures
        forall|i: int| 0 <= i < versions_from_tags_spec(tags).len() ==> {
            let v = #[trigger] versions_from_tags_spec(tags)[i];
            tags.contains(v.original_tag) && parse_version_lenient_spec(v.original_tag) == Some(v.version)
        },
        versions_from_tags_spec(tags).len() == tags.filter(reads_as_version()).len(),
    decreases tags.len(),
{
    if tags.len() > 0 {
        let prev = tags.drop_last();
        lemma_versions_are_parsed_tags(prev);
        assert(tags =~= prev.push(tags.last()));
        let f = reads_as_version();
        prev.lemma_filter_push(tags.last(), f);
        assert forall|i: int| 0 <= i < versions_from_tags_spec(tags).len() implies {
            let v = #[trigger] versions_from_tags_spec(tags)[i];
            tags.contains(v.original_tag) && parse_version_lenient_spec(v.original_tag) == Some(v.version)
        } by {
            if i < versions_from_tags_spec(prev).len() {
                let v = versions_from_tags_spec(prev)[i];
                assert(prev.contains(v.original_tag));
                let k = choose|k: int| 0 <= k < prev.len() && prev[k] == v.original_tag;
                assert(tags[k] == v.original_tag);
            } else {
                assert(tags[tags.len() - 1] == tags.last());
            }
        }
    } else {
        assert(tags.filter(reads_as_version()) =~= Seq::<Seq<char>>::empty());
    }
}

pub open spec fn versions_view(v: Seq<VersionInfo>) -> Seq<VersionInfoView> {
    v.map_values(|x: VersionInfo| x@)
}

/// Keeps the tags that read as versions.
pub fn versions_from_tags(tags: &Vec<String>) -> (r: Vec<VersionInfo>)
    ensures
        versions_view(r@) == versions_from_tags_spec(crate::text::strings_view(tags@)),
{
    let ghost tv = crate::text::strings_view(tags@);
    let mut out: Vec<VersionInfo> = Vec::new();
    let mut i: usize = 0;
    while i < tags.len()
        invariant
            i <= tags@.len(),
            tv == crate::text::strings_view(tags@),
            versions_view(out@) == versions_from_tags_spec(tv.take(i as int)),
        decreases tags@.len() - i,
    {
        assert(tv.take(i + 1).drop_last() =~= tv.take(i as int));
        assert(tv.take(i + 1).last() == tags@[i as int]@);
        match parse_version_lenient(tags[i].as_str()) {
            Some(v) => {
                let info = VersionInfo { version: v, original_tag: crate::text::copy_string(&tags[i]) };
                let ghost before = versions_view(out@);
                out.push(info);
                assert(versions_view(out@) =~= before.push(info@));
            },
            None => {},
        }
        i = i + 1;
    }
    assert(tv.take(tags@.len() as int) =~= tv);
    out
}

/// The token of a token response: `token`, else `access_token`.
pub fn token_from_response(registry_host: &str, token: Option<String>, access_token: Option<String>) -> (r: Result<String, ReforgeError>)
    ensures
        match r {
            Ok(t) => t@ == (match token {
                Some(x) => x@,
                None => access_token->0@,
            }) && (token is Some || access_token is Some),
            Err(e) => token is None && access_token is None && e@ == ReforgeErrorView::Registry {
                registry: registry_host@,
                message: "No token in response"@,
            },
        },
{
    match token {
        Some(t) => Ok(t),
        None => match access_token {
            Some(t) => Ok(t),
            None => Err(ReforgeError::Registry { registry: registry_host.to_string(), message: "No token in response".to_string() }),
        },
    }
}

/// The standard (RFC 4648, padded) base64 text of a byte sequence, as
/// `base64::engine::general_purpose::STANDARD` writes it.
pub uninterp spec fn base64_standard(bytes: Seq<u8>) -> Seq<char>;

/// Base64-encodes bytes.
/// Trusted: calls `base64::engine::general_purpose::STANDARD.encode`; the result
/// is named by `base64_standard`.
#[verifier::external_body]
fn base64_encode(bytes: &[u8]) -> (r: String)
    ensures
        r@ == base64_standard(bytes@),
{
    base64::engine::general_purpose::STANDARD.encode(bytes)
}

/// The `Authorization` value for basic authentication: `Basic ` and the base64
/// of the UTF-8 bytes of `username:password`.
pub open spec fn basic_auth_spec(username: Seq<char>, password: Seq<char>) -> Seq<char> {
    "Basic "@ + base64_standard(vstd::utf8::encode_utf8(username + ":"@ + password))
}

/// Forms the `Authorization` value for basic authentication.
pub fn basic_auth_value(username: &str, password: &str) -> (r: String)
    ensures
        r@ == basic_auth_spec(username@, password@),
{
    let mut joined = chars_of(username);
    push_text(&mut joined, ":");
    push_text(&mut joined, password);
    let s = string_of(&joined);
    let encoded = base64_encode(s.as_str().as_bytes());
    let mut out = chars_of("Basic ");
    push_text(&mut out, encoded.as_str());
    string_of(&out)
}

/// The image and registry a Docker registry client looks up; Helm repositories
/// are not served by it.
pub fn image_and_registry(source: &crate::manager::RegistrySource) -> (r: Result<(String, Option<String>), ReforgeError>)
    ensures
        match source@ {
            crate::manager::RegistrySourceView::DockerRegistry { image, registry } => r matches Ok((i, g)) && i@ == image
                && opt_view(g) == registry,
            crate::manager::RegistrySourceView::OciHelmRegistry { image, registry } => r matches Ok((i, g)) && i@ == image
                && opt_view(g) == registry,
            crate::manager::RegistrySourceView::HelmRepository { .. } => r matches Err(e) && e@ == ReforgeErrorView::Registry {
                registry: "unknown"@,
                message: "DockerRegistryClient cannot handle HelmRepository source"@,
            },
        },
{
    match source {
        crate::manager::RegistrySource::DockerRegistry { image, registry } => Ok(
            (crate::text::copy_string(image), crate::text::copy_opt_string(registry)),
        ),
        crate::manager::RegistrySource::OciHelmRegistry { image, registry } => Ok(
            (crate::text::copy_string(image), crate::text::copy_opt_string(registry)),
        ),
        crate::manager::RegistrySource::HelmRepository { .. } => Err(
            ReforgeError::Registry {
                registry: "unknown".to_string(),
                message: "DockerRegistryClient cannot handle HelmRepository source".to_string(),
            },
        ),
    }
}

/// The `Authorization` value sent with the first tag-list request: a credential
/// with a password but no user name sends the password as a bearer token.
pub fn tag_list_authorization(username: &Option<String>, password: Option<&str>) -> (r: Option<String>)
    ensures
        opt_view(r) == match (username, password) {
            (None, Some(p)) => Some("Bearer "@ + p@),
            _ => None,
        },
{
    match (username, password) {
        (None, Some(p)) => {
            let mut out = chars_of("Bearer ");
            push_text(&mut out, p);
            Some(string_of(&out))
        },
        _ => None,
    }
}

/// The `Authorization` value of a token request: basic authentication when the
/// credential has both a user name and a password.
pub fn token_request_authorization(username: &Option<String>, password: Option<&str>) -> (r: Option<String>)
    ensures
        opt_view(r) == match (username, password) {
            (Some(u), Some(p)) => Some(basic_auth_spec(u@, p@)),
            _ => None,
        },
{
    match (username, password) {
        (Some(u), Some(p)) => Some(basic_auth_value(u.as_str(), p)),
        _ => None,
    }
}

/// The URL of an image's tag list.
pub fn tags_url(registry_url: &str, image_name: &str) -> (r: String)
    ensures
        r@ == registry_url@ + "/v2/"@ + image_name@ + "/tags/list"@,
{
    let mut out = chars_of(registry_url);
    push_text(&mut out, "/v2/");
    push_text(&mut out, image_name);
    push_text(&mut out, "/tags/list");
    string_of(&out)
}

} // verus!
