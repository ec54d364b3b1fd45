//! Shared utility functions: glob pattern matching and image reference parsing.
use vstd::prelude::*;

use crate::manager::RegistrySource;
use crate::manager::RegistrySourceView;
use crate::text::chars_of;
use crate::text::contains_char;
use crate::text::lemma_rfind_spec;
use crate::text::rfind_char;
use crate::text::rfind_spec;
use crate::text::slice_of;
use crate::text::string_of;

verus! {

/// Drops one leading `/` from a pattern remainder, if present.
pub open spec fn skip_leading_slash(p: Seq<char>) -> Seq<char> {
    if p.len() > 0 && p[0] == '/' {
        p.subrange(1, p.len() as int)
    } else {
        p
    }
}

/// True when no character of `s` is `/`.
pub open spec fn no_slash(s: Seq<char>) -> bool {
    !s.contains('/')
}

/// Glob semantics on character sequences:
/// `**` (optionally followed by `/`) consumes any characters, `*` consumes any
/// characters but `/`, every other character matches itself.
pub open spec fn glob_inner(p: Seq<char>, t: Seq<char>) -> bool
    decreases p.len(),
{
    if p.len() == 0 {
        t.len() == 0
    } else if p[0] == '*' {
        if p.len() >= 2 && p[1] == '*' {
            let rest = skip_leading_slash(p.subrange(2, p.len() as int));
            exists|i: int| 0 <= i <= t.len() && glob_inner(rest, #[trigger] t.subrange(i, t.len() as int))
        } else {
            let rest = p.subrange(1, p.len() as int);
            exists|i: int|
                0 <= i <= t.len() && no_slash(t.subrange(0, i)) && glob_inner(
                    rest,
                    #[trigger] t.subrange(i, t.len() as int),
                )
        }
    } else {
        t.len() > 0 && p[0] == t[0] && glob_inner(
            p.subrange(1, p.len() as int),
            t.subrange(1, t.len() as int),
        )
    }
}

/// Whole-pattern glob semantics.
pub open spec fn glob_spec(p: Seq<char>, t: Seq<char>) -> bool {
    glob_inner(p, t)
}

fn glob_match_at(p: &Vec<char>, pi: usize, t: &Vec<char>, ti: usize) -> (r: bool)
    requires
        pi <= p@.len(),
        ti <= t@.len(),
    ensures
        r == glob_inner(p@.subrange(pi as int, p@.len() as int), t@.subrange(ti as int, t@.len() as int)),
    decreases p@.len() - pi, 1int,
{
    let ghost ps = p@.subrange(pi as int, p@.len() as int);
    let ghost ts = t@.subrange(ti as int, t@.len() as int);
    if pi == p.len() {
        return ti == t.len();
    }
    if p[pi] == '*' {
        if pi + 1 < p.len() && p[pi + 1] == '*' {
            let mut rest: usize = pi + 2;
            if rest < p.len() && p[rest] == '/' {
                rest = rest + 1;
            }
            let ghost rs = skip_leading_slash(ps.subrange(2, ps.len() as int));
            assert(p@.subrange(rest as int, p@.len() as int) =~= rs);
            let mut i: usize = ti;
            while i < t.len()
                invariant
                    ti <= i <= t@.len(),
                    pi + 2 <= rest <= p@.len(),
                    p@.subrange(rest as int, p@.len() as int) =~= rs,
                    ps == p@.subrange(pi as int, p@.len() as int),
                    ts == t@.subrange(ti as int, t@.len() as int),
                    rs == skip_leading_slash(ps.subrange(2, ps.len() as int)),
                    ps.len() >= 2 && ps[0] == '*' && ps[1] == '*',
                    forall|j: int| 0 <= j < i - ti ==> !glob_inner(rs, #[trigger] ts.subrange(j, ts.len() as int)),
                decreases t@.len() - i,
            {
                let found = glob_match_at(p, rest, t, i);
                assert(ts.subrange(i - ti, ts.len() as int) =~= t@.subrange(i as int, t@.len() as int));
                if found {
                    assert(glob_inner(rs, ts.subrange(i - ti, ts.len() as int)));
                    return true;
                }
                i = i + 1;
            }
            let found = glob_match_at(p, rest, t, i);
            assert(ts.subrange(i - ti, ts.len() as int) =~= t@.subrange(i as int, t@.len() as int));
            if found {
                assert(glob_inner(rs, ts.subrange(i - ti, ts.len() as int)));
                return true;
            }
            assert forall|j: int| 0 <= j <= ts.len() implies !glob_inner(rs, #[trigger] ts.subrange(j, ts.len() as int)) by {
                if j < i - ti {
                } else {
                    assert(j == i - ti);
                }
            }
            return false;
        } else {
            let rest: usize = pi + 1;
            let ghost rs = ps.subrange(1, ps.len() as int);
            assert(p@.subrange(rest as int, p@.len() as int) =~= rs);
            let mut i: usize = ti;
            while i < t.len()
                invariant
                    ti <= i <= t@.len(),
                    rest == pi + 1,
                    rest <= p@.len(),
                    p@.subrange(rest as int, p@.len() as int) =~= rs,
                    ps == p@.subrange(pi as int, p@.len() as int),
                    ts == t@.subrange(ti as int, t@.len() as int),
                    rs == ps.subrange(1, ps.len() as int),
                    ps.len() >= 1 && ps[0] == '*' && !(ps.len() >= 2 && ps[1] == '*'),
                    no_slash(ts.subrange(0, i - ti)),
                    forall|j: int|
                        0 <= j < i - ti ==> !(no_slash(ts.subrange(0, j)) && glob_inner(
                            rs,
                            #[trigger] ts.subrange(j, ts.len() as int),
                        )),
                decreases t@.len() - i,
            {
                let found = glob_match_at(p, rest, t, i);
                assert(ts.subrange(i - ti, ts.len() as int) =~= t@.subrange(i as int, t@.len() as int));
                if found {
                    assert(no_slash(ts.subrange(0, i - ti)) && glob_inner(rs, ts.subrange(i - ti, ts.len() as int)));
                    return true;
                }
                if t[i] == '/' {
                    assert forall|j: int| 0 <= j <= ts.len() implies !(no_slash(ts.subrange(0, j)) && glob_inner(
                            rs,
                            #[trigger] ts.subrange(j, ts.len() as int),
                        )) by {
                        if j < i - ti {
                        } else if j == i - ti {
                        } else {
                            assert(ts.subrange(0, j)[i - ti] == '/');
                        }
                    }
                    return false;
                }
                assert(ts.subrange(0, i + 1 - ti) =~= ts.subrange(0, i - ti).push(t@[i as int]));
                i = i + 1;
            }
            let found = glob_match_at(p, rest, t, i);
            assert(ts.subrange(i - ti, ts.len() as int) =~= t@.subrange(i as int, t@.len() as int));
            if found {
                assert(no_slash(ts.subrange(0, i - ti)) && glob_inner(rs, ts.subrange(i - ti, ts.len() as int)));
                return true;
            }
            assert forall|j: int| 0 <= j <= ts.len() implies !(no_slash(ts.subrange(0, j)) && glob_inner(
                    rs,
                    #[trigger] ts.subrange(j, ts.len() as int),
                )) by {
                if j < i - ti {
                } else {
                    assert(j == i - ti);
                }
            }
            return false;
        }
    }
    if ti < t.len() && p[pi] == t[ti] {
        assert(ps.subrange(1, ps.len() as int) =~= p@.subrange(pi + 1, p@.len() as int));
        assert(ts.subrange(1, ts.len() as int) =~= t@.subrange(ti + 1, t@.len() as int));
        glob_match_at(p, pi + 1, t, ti + 1)
    } else {
        false
    }
}

/// Matches a glob pattern against text.
///
/// `*` matches any run of characters without `/`, `**` any run including `/`,
/// and every other character matches itself.
pub fn glob_match(pattern: &str, text: &str) -> (r: bool)
    ensures
        r == glob_spec(pattern@, text@),
{
    let p = chars_of(pattern);
    let t = chars_of(text);
    assert(p@.subrange(0, p@.len() as int) =~= p@);
    assert(t@.subrange(0, t@.len() as int) =~= t@);
    glob_match_at(&p, 0, &t, 0)
}


/// The manager that owns a registry source: `docker` for images, `helm` for charts.
pub open spec fn manager_name_spec(registry: RegistrySourceView) -> Seq<char> {
    match registry {
        RegistrySourceView::DockerRegistry { .. } => "docker"@,
        _ => "helm"@,
    }
}

/// Returns the manager name for a registry source (used for branch naming and grouping).
pub fn manager_name(registry: &RegistrySource) -> (r: &'static str)
    ensures
        r@ == manager_name_spec(registry@),
{
    match registry {
        RegistrySource::DockerRegistry { .. } => "docker",
        RegistrySource::HelmRepository { .. } | RegistrySource::OciHelmRegistry { .. } => "helm",
    }
}

/// Splits an image reference into `(registry, name)`: the part before the last `/`
/// is a registry only when it holds `.` or `:`; otherwise the whole reference is the name.
pub open spec fn parse_image_reference_spec(image: Seq<char>) -> (Option<Seq<char>>, Seq<char>) {
    match rfind_spec(image, '/') {
        Some(idx) => {
            let prefix = image.subrange(0, idx);
            if prefix.contains('.') || prefix.contains(':') {
                (Some(prefix), image.subrange(idx + 1, image.len() as int))
            } else {
                (None, image)
            }
        },
        None => (None, image),
    }
}

/// Parses a Docker image reference into `(registry, name)` components.
pub fn parse_image_reference(image: &str) -> (r: (Option<String>, String))
    ensures
        (crate::text::opt_view(r.0), r.1@) == parse_image_reference_spec(image@),
{
    let v = chars_of(image);
    match rfind_char(&v, '/') {
        Some(idx) => {
            proof {
                lemma_rfind_spec(v@, '/');
            }
            let prefix = slice_of(&v, 0, idx);
            if contains_char(&prefix, '.') || contains_char(&prefix, ':') {
                let name = slice_of(&v, idx + 1, v.len());
                (Some(string_of(&prefix)), string_of(&name))
            } else {
                (None, string_of(&v))
            }
        },
        None => (None, string_of(&v)),
    }
}

/// An image reference splits without loss: a found registry, `/` and the name
/// give back the reference; without a registry the name is the reference.
pub proof fn lemma_image_reference_roundtrip(image: Seq<char>)
    ensures
        match parse_image_reference_spec(image) {
            (Some(registry), name) => registry + "/"@ + name == image,
            (None, name) => name == image,
        },
{
    crate::text::lemma_rfind_spec(image, '/');
    match rfind_spec(image, '/') {
        Some(idx) => {
            let prefix = image.subrange(0, idx);
            if prefix.contains('.') || prefix.contains(':') {
                reveal_strlit("/");
                assert(prefix + "/"@ + image.subrange(idx + 1, image.len() as int) =~= image);
            }
        },
        None => {},
    }
}

/// The pattern `*` matches exactly the texts without `/`; `**` matches every text.
pub proof fn lemma_glob_star_matches_all(t: Seq<char>)
    ensures
        glob_spec(seq!['*'], t) <==> no_slash(t),
        glob_spec(seq!['*', '*'], t),
{
    let p1 = seq!['*'];
    let p2 = seq!['*', '*'];
    assert(p1.subrange(1, 1) =~= Seq::<char>::empty());
    assert(t.subrange(t.len() as int, t.len() as int) =~= Seq::<char>::empty());
    assert(t.subrange(0, t.len() as int) =~= t);
    assert(glob_inner(Seq::<char>::empty(), t.subrange(t.len() as int, t.len() as int)));
    if glob_spec(p1, t) {
        let i = choose|i: int|
            0 <= i <= t.len() && no_slash(t.subrange(0, i)) && glob_inner(p1.subrange(1, 1), #[trigger] t.subrange(i, t.len() as int));
        assert(t.subrange(i, t.len() as int).len() == 0);
    }
    assert(p2.subrange(2, 2) =~= Seq::<char>::empty());
    assert(skip_leading_slash(Seq::<char>::empty()) =~= Seq::<char>::empty());
}

/// A pattern without `*` matches exactly the text equal to it.
pub proof fn lemma_glob_literal(p: Seq<char>, t: Seq<char>)
    requires
        !p.contains('*'),
    ensures
        glob_spec(p, t) <==> p == t,
    decreases p.len(),
{
    if p =~= seq!['*'] {
        assert(p[0] == '*');
    } else if p =~= seq!['*', '*'] {
        assert(p[0] == '*');
    } else {
        lemma_glob_inner_literal(p, t);
    }
}

proof fn lemma_glob_inner_literal(p: Seq<char>, t: Seq<char>)
    requires
        !p.contains('*'),
    ensures
        glob_inner(p, t) <==> p == t,
    decreases p.len(),
{
    if p.len() == 0 {
        if t.len() != 0 {
            assert(p != t);
        } else {
            assert(p =~= t);
        }
    } else {
        assert(p[0] != '*') by {
            if p[0] == '*' {
                assert(p.contains('*'));
            }
        }
        let pr = p.subrange(1, p.len() as int);
        assert(!pr.contains('*')) by {
            if pr.contains('*') {
                let k = choose|k: int| 0 <= k < pr.len() && pr[k] == '*';
                assert(p[k + 1] == '*');
            }
        }
        if t.len() > 0 {
            lemma_glob_inner_literal(pr, t.subrange(1, t.len() as int));
            if p == t {
                assert(pr =~= t.subrange(1, t.len() as int));
            }
            if p[0] == t[0] && pr == t.subrange(1, t.len() as int) {
                assert(p.len() == t.len());
                assert forall|k: int| 0 <= k < p.len() implies p[k] == t[k] by {
                    if k > 0 {
                        assert(p[k] == pr[k - 1]);
                        assert(t[k] == t.subrange(1, t.len() as int)[k - 1]);
                    }
                }
                assert(p =~= t);
            }
        } else {
            assert(p != t);
        }
    }
}

} // verus!
