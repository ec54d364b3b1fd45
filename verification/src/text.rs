//! Character-level helpers shared by the parsers and renderers.
use vstd::prelude::*;
use vstd::utf8::encode_scalar;
use vstd::utf8::encode_utf8;

verus! {

/// Appends one character to a string.
/// Trusted: `String::push` adds exactly the given character at the end.
#[verifier::external_body]
pub(crate) fn push_char(s: &mut String, c: char)
    ensures
        final(s)@ == old(s)@.push(c),
{
    s.push(c);
}

/// The characters of a string slice, in order.
pub fn chars_of(s: &str) -> (r: Vec<char>)
    ensures
        r@ == s@,
{
    let n = s.unicode_len();
    let mut r: Vec<char> = Vec::new();
    let mut i: usize = 0;
    while i < n
        invariant
            n == s@.len(),
            i <= n,
            r@ == s@.subrange(0, i as int),
        decreases n - i,
    {
        let c = s.get_char(i);
        r.push(c);
        i = i + 1;
    }
    r
}

/// Builds a string from characters.
pub fn string_of(v: &[char]) -> (r: String)
    ensures
        r@ == v@,
{
    let mut r = String::new();
    let mut i: usize = 0;
    while i < v.len()
        invariant
            i <= v@.len(),
            r@ == v@.subrange(0, i as int),
        decreases v@.len() - i,
    {
        push_char(&mut r, v[i]);
        i = i + 1;
    }
    r
}


/// Index of the last occurrence of `c` in `s`.
pub open spec fn rfind_spec(s: Seq<char>, c: char) -> Option<int>
    decreases s.len(),
{
    if s.len() == 0 {
        None
    } else if s.last() == c {
        Some(s.len() - 1)
    } else {
        rfind_spec(s.drop_last(), c)
    }
}

/// Index of the first occurrence of `c` in `s`.
pub open spec fn find_spec(s: Seq<char>, c: char) -> Option<int>
    decreases s.len(),
{
    if s.len() == 0 {
        None
    } else if s[0] == c {
        Some(0)
    } else {
        match find_spec(s.drop_first(), c) {
            Some(i) => Some(i + 1),
            None => None,
        }
    }
}

/// `pre` is a prefix of `s`.
pub open spec fn starts_with_spec(s: Seq<char>, pre: Seq<char>) -> bool {
    pre.len() <= s.len() && s.subrange(0, pre.len() as int) =~= pre
}

/// `suf` is a suffix of `s`.
pub open spec fn ends_with_spec(s: Seq<char>, suf: Seq<char>) -> bool {
    suf.len() <= s.len() && s.subrange(s.len() - suf.len(), s.len() as int) =~= suf
}

/// `s` with the first character dropped when it is `c`.
pub open spec fn strip_prefix_char(s: Seq<char>, c: char) -> Seq<char> {
    if s.len() > 0 && s[0] == c {
        s.drop_first()
    } else {
        s
    }
}

pub proof fn lemma_rfind_spec(s: Seq<char>, c: char)
    ensures
        match rfind_spec(s, c) {
            Some(i) => 0 <= i < s.len() && s[i] == c && !s.subrange(i + 1, s.len() as int).contains(c),
            None => !s.contains(c),
        },
    decreases s.len(),
{
    if s.len() > 0 && s.last() != c {
        lemma_rfind_spec(s.drop_last(), c);
        match rfind_spec(s.drop_last(), c) {
            Some(i) => {
                assert(s.subrange(i + 1, s.len() as int) =~= s.drop_last().subrange(i + 1, s.len() - 1).push(s.last()));
            },
            None => {
                assert forall|k: int| 0 <= k < s.len() implies s[k] != c by {
                    if k < s.len() - 1 {
                        assert(s[k] == s.drop_last()[k]);
                    }
                }
            },
        }
    }
}

pub proof fn lemma_find_spec(s: Seq<char>, c: char)
    ensures
        match find_spec(s, c) {
            Some(i) => 0 <= i < s.len() && s[i] == c && !s.subrange(0, i).contains(c),
            None => !s.contains(c),
        },
    decreases s.len(),
{
    if s.len() > 0 && s[0] != c {
        lemma_find_spec(s.drop_first(), c);
        match find_spec(s.drop_first(), c) {
            Some(i) => {
                assert(s.subrange(0, i + 1) =~= seq![s[0]] + s.drop_first().subrange(0, i));
            },
            None => {
                assert forall|k: int| 0 <= k < s.len() implies s[k] != c by {
                    if k > 0 {
                        assert(s[k] == s.drop_first()[k - 1]);
                    }
                }
            },
        }
    }
}

/// Appends the characters of `s`.
pub fn push_text(dst: &mut Vec<char>, s: &str)
    ensures
        final(dst)@ == old(dst)@ + s@,
{
    let v = chars_of(s);
    extend_chars(dst, &v);
}

/// Position of the last `c` in `v`.
pub fn rfind_char(v: &Vec<char>, c: char) -> (r: Option<usize>)
    ensures
        r matches Some(i) ==> rfind_spec(v@, c) == Some(i as int),
        r is None ==> rfind_spec(v@, c) is None,
{
    let mut i: usize = v.len();
    assert(v@.subrange(0, i as int) =~= v@);
    while i > 0
        invariant
            i <= v@.len(),
            rfind_spec(v@, c) == rfind_spec(v@.subrange(0, i as int), c),
        decreases i,
    {
        let ghost s = v@.subrange(0, i as int);
        assert(s.drop_last() =~= v@.subrange(0, i - 1));
        if v[i - 1] == c {
            return Some(i - 1);
        }
        i = i - 1;
    }
    None
}

/// Position of the first `c` in `v`.
pub fn find_char(v: &Vec<char>, c: char) -> (r: Option<usize>)
    ensures
        r matches Some(i) ==> find_spec(v@, c) == Some(i as int),
        r is None ==> find_spec(v@, c) is None,
{
    let mut i: usize = 0;
    while i < v.len()
        invariant
            i <= v@.len(),
            forall|k: int| 0 <= k < i ==> v@[k] != c,
        decreases v@.len() - i,
    {
        if v[i] == c {
            proof {
                lemma_find_spec(v@, c);
                match find_spec(v@, c) {
                    Some(j) => {
                        assert(v@.subrange(0, j)[i as int] == c || j <= i);
                    },
                    None => {
                        assert(v@.contains(c));
                    },
                }
            }
            return Some(i);
        }
        i = i + 1;
    }
    proof {
        lemma_find_spec(v@, c);
    }
    None
}

/// Whether `v` holds `c`.
pub fn contains_char(v: &Vec<char>, c: char) -> (r: bool)
    ensures
        r == v@.contains(c),
{
    let f = find_char(v, c);
    proof {
        lemma_find_spec(v@, c);
    }
    f.is_some()
}

/// The characters `v[a..b]`.
pub fn slice_of(v: &Vec<char>, a: usize, b: usize) -> (r: Vec<char>)
    requires
        a <= b <= v@.len(),
    ensures
        r@ == v@.subrange(a as int, b as int),
{
    let mut r: Vec<char> = Vec::new();
    let mut i: usize = a;
    while i < b
        invariant
            a <= i <= b,
            b <= v@.len(),
            r@ == v@.subrange(a as int, i as int),
        decreases b - i,
    {
        r.push(v[i]);
        i = i + 1;
    }
    r
}

/// Character-wise equality.
pub fn chars_eq(a: &Vec<char>, b: &Vec<char>) -> (r: bool)
    ensures
        r == (a@ == b@),
{
    if a.len() != b.len() {
        return false;
    }
    let mut i: usize = 0;
    while i < a.len()
        invariant
            a@.len() == b@.len(),
            i <= a@.len(),
            forall|k: int| 0 <= k < i ==> a@[k] == b@[k],
        decreases a@.len() - i,
    {
        if a[i] != b[i] {
            return false;
        }
        i = i + 1;
    }
    assert(a@ =~= b@);
    true
}

/// Whether `v` begins with `pre`.
pub fn starts_with(v: &Vec<char>, pre: &Vec<char>) -> (r: bool)
    ensures
        r == starts_with_spec(v@, pre@),
{
    if pre.len() > v.len() {
        return false;
    }
    let mut i: usize = 0;
    while i < pre.len()
        invariant
            pre@.len() <= v@.len(),
            i <= pre@.len(),
            forall|k: int| 0 <= k < i ==> v@[k] == pre@[k],
        decreases pre@.len() - i,
    {
        if v[i] != pre[i] {
            assert(v@.subrange(0, pre@.len() as int)[i as int] != pre@[i as int]);
            return false;
        }
        i = i + 1;
    }
    assert(v@.subrange(0, pre@.len() as int) =~= pre@);
    true
}

/// Whether `v` ends with `suf`.
pub fn ends_with(v: &Vec<char>, suf: &Vec<char>) -> (r: bool)
    ensures
        r == ends_with_spec(v@, suf@),
{
    if suf.len() > v.len() {
        return false;
    }
    let off = v.len() - suf.len();
    let mut i: usize = 0;
    while i < suf.len()
        invariant
            suf@.len() <= v@.len(),
            off == v@.len() - suf@.len(),
            off + suf@.len() == v@.len(),
            v@.len() <= usize::MAX,
            i <= suf@.len(),
            forall|k: int| 0 <= k < i ==> v@[off + k] == suf@[k],
        decreases suf@.len() - i,
    {
        if v[off + i] != suf[i] {
            assert(v@.subrange(off as int, v@.len() as int)[i as int] != suf@[i as int]);
            return false;
        }
        i = i + 1;
    }
    assert(v@.subrange(off as int, v@.len() as int) =~= suf@);
    true
}

/// Appends the characters of `src` to `dst`.
pub fn extend_chars(dst: &mut Vec<char>, src: &Vec<char>)
    ensures
        final(dst)@ == old(dst)@ + src@,
{
    let mut i: usize = 0;
    while i < src.len()
        invariant
            i <= src@.len(),
            dst@ == old(dst)@ + src@.subrange(0, i as int),
        decreases src@.len() - i,
    {
        dst.push(src[i]);
        i = i + 1;
        assert(src@.subrange(0, i as int) =~= src@.subrange(0, i - 1).push(src@[i - 1]));
    }
    assert(src@.subrange(0, src@.len() as int) =~= src@);
}


/// The character sequence of an optional string.
pub open spec fn opt_view(o: Option<String>) -> Option<Seq<char>> {
    match o {
        Some(s) => Some(s@),
        None => None,
    }
}

/// The character sequences of a list of strings.
pub open spec fn strings_view(v: Seq<String>) -> Seq<Seq<char>> {
    v.map_values(|s: String| s@)
}

/// A copy of a string with the same characters.
pub fn copy_string(s: &String) -> (r: String)
    ensures
        r@ == s@,
{
    s.clone()
}

/// A copy of an optional string.
pub fn copy_opt_string(s: &Option<String>) -> (r: Option<String>)
    ensures
        opt_view(r) == opt_view(*s),
{
    match s {
        Some(x) => Some(x.clone()),
        None => None,
    }
}

/// A copy of a list of strings.
pub fn copy_strings(v: &Vec<String>) -> (r: Vec<String>)
    ensures
        r@.len() == v@.len(),
        forall|i: int| 0 <= i < v@.len() ==> #[trigger] r@[i]@ == v@[i]@,
        strings_view(r@) == strings_view(v@),
{
    let mut r: Vec<String> = Vec::new();
    let mut i: usize = 0;
    while i < v.len()
        invariant
            i <= v@.len(),
            r@.len() == i,
            forall|k: int| 0 <= k < i ==> #[trigger] r@[k]@ == v@[k]@,
        decreases v@.len() - i,
    {
        r.push(v[i].clone());
        i = i + 1;
    }
    assert(strings_view(r@) =~= strings_view(v@));
    r
}


/// Number of occurrences of `c` in `s`.
pub open spec fn count_char(s: Seq<char>, c: char) -> nat
    decreases s.len(),
{
    if s.len() == 0 {
        0
    } else {
        count_char(s.drop_last(), c) + if s.last() == c { 1nat } else { 0nat }
    }
}

/// Counts the occurrences of `c` in `v`.
pub fn count_char_in(v: &Vec<char>, c: char) -> (r: usize)
    ensures
        r == count_char(v@, c),
{
    let mut n: usize = 0;
    let mut i: usize = 0;
    while i < v.len()
        invariant
            i <= v@.len(),
            n == count_char(v@.subrange(0, i as int), c),
            n <= i,
        decreases v@.len() - i,
    {
        assert(v@.subrange(0, i + 1).drop_last() =~= v@.subrange(0, i as int));
        if v[i] == c {
            n = n + 1;
        }
        i = i + 1;
    }
    assert(v@.subrange(0, v@.len() as int) =~= v@);
    n
}


/// Unicode `White_Space` (what `char::is_whitespace` tests).
pub open spec fn is_ws(c: char) -> bool {
    c == ' ' || c == '\t' || c == '\n' || c == '\x0B' || c == '\x0C' || c == '\r'
        || c == '\u{85}' || c == '\u{A0}' || c == '\u{1680}' || ('\u{2000}' <= c && c <= '\u{200A}')
        || c == '\u{2028}' || c == '\u{2029}' || c == '\u{202F}' || c == '\u{205F}' || c == '\u{3000}'
}

pub fn is_whitespace(c: char) -> (r: bool)
    ensures
        r == is_ws(c),
{
    c == ' ' || c == '\t' || c == '\n' || c == '\x0B' || c == '\x0C' || c == '\r'
        || c == '\u{85}' || c == '\u{A0}' || c == '\u{1680}' || ('\u{2000}' <= c && c <= '\u{200A}')
        || c == '\u{2028}' || c == '\u{2029}' || c == '\u{202F}' || c == '\u{205F}' || c == '\u{3000}'
}

/// `s` without leading whitespace.
pub open spec fn trim_start_spec(s: Seq<char>) -> Seq<char>
    decreases s.len(),
{
    if s.len() > 0 && is_ws(s[0]) {
        trim_start_spec(s.drop_first())
    } else {
        s
    }
}

/// `s` without trailing whitespace.
pub open spec fn trim_end_spec(s: Seq<char>) -> Seq<char>
    decreases s.len(),
{
    if s.len() > 0 && is_ws(s.last()) {
        trim_end_spec(s.drop_last())
    } else {
        s
    }
}

/// `s` without leading and trailing whitespace (`str::trim`).
pub open spec fn trim_spec(s: Seq<char>) -> Seq<char> {
    trim_end_spec(trim_start_spec(s))
}

/// Number of leading whitespace characters of `v[..]`.
pub fn trim_start_len(v: &Vec<char>) -> (r: usize)
    ensures
        r <= v@.len(),
        trim_start_spec(v@) == v@.subrange(r as int, v@.len() as int),
{
    let mut i: usize = 0;
    assert(v@.subrange(0, v@.len() as int) =~= v@);
    while i < v.len() && is_whitespace(v[i])
        invariant
            i <= v@.len(),
            trim_start_spec(v@) == trim_start_spec(v@.subrange(i as int, v@.len() as int)),
        decreases v@.len() - i,
    {
        assert(v@.subrange(i as int, v@.len() as int).drop_first() =~= v@.subrange(i + 1, v@.len() as int));
        i = i + 1;
    }
    i
}

/// Length of `v` without its trailing whitespace.
pub fn trim_end_len(v: &Vec<char>) -> (r: usize)
    ensures
        r <= v@.len(),
        trim_end_spec(v@) == v@.subrange(0, r as int),
{
    let mut i: usize = v.len();
    assert(v@.subrange(0, v@.len() as int) =~= v@);
    while i > 0 && is_whitespace(v[i - 1])
        invariant
            i <= v@.len(),
            trim_end_spec(v@) == trim_end_spec(v@.subrange(0, i as int)),
        decreases i,
    {
        assert(v@.subrange(0, i as int).drop_last() =~= v@.subrange(0, i - 1));
        i = i - 1;
    }
    i
}

/// `v` without leading and trailing whitespace.
pub fn trim_chars(v: &Vec<char>) -> (r: Vec<char>)
    ensures
        r@ == trim_spec(v@),
{
    let a = trim_start_len(v);
    let t = slice_of(v, a, v.len());
    let b = trim_end_len(&t);
    slice_of(&t, 0, b)
}

/// `s` without its last character when that is `\r`.
pub open spec fn strip_cr(s: Seq<char>) -> Seq<char> {
    if s.len() > 0 && s.last() == '\r' {
        s.drop_last()
    } else {
        s
    }
}

/// The lines of `s` as `str::lines` yields them: split at `\n`, one `\r` before
/// each `\n` dropped, no final empty line after a trailing `\n`.
pub open spec fn lines_spec(s: Seq<char>) -> Seq<Seq<char>>
    decreases s.len(),
{
    if s.len() == 0 {
        seq![]
    } else {
        match find_spec(s, '\n') {
            None => seq![s],
            Some(i) => {
                if 0 <= i < s.len() {
                    seq![strip_cr(s.subrange(0, i))] + lines_spec(s.subrange(i + 1, s.len() as int))
                } else {
                    seq![]
                }
            },
        }
    }
}

/// The pieces joined with `sep` between consecutive pieces.
pub open spec fn join_spec(parts: Seq<Seq<char>>, sep: Seq<char>) -> Seq<char>
    decreases parts.len(),
{
    if parts.len() == 0 {
        seq![]
    } else if parts.len() == 1 {
        parts[0]
    } else {
        join_spec(parts.drop_last(), sep) + sep + parts.last()
    }
}

pub open spec fn vecs_view(v: Seq<Vec<char>>) -> Seq<Seq<char>> {
    v.map_values(|x: Vec<char>| x@)
}

/// Splits text into lines as `str::lines` does.
pub fn lines_of(v: &Vec<char>) -> (r: Vec<Vec<char>>)
    ensures
        vecs_view(r@) == lines_spec(v@),
{
    let mut r: Vec<Vec<char>> = Vec::new();
    let mut start: usize = 0;
    assert(v@.subrange(0, v@.len() as int) =~= v@);
    while start < v.len()
        invariant
            start <= v@.len(),
            lines_spec(v@) == vecs_view(r@) + lines_spec(v@.subrange(start as int, v@.len() as int)),
        decreases v@.len() - start,
    {
        let ghost rest = v@.subrange(start as int, v@.len() as int);
        let mut j: usize = start;
        while j < v.len() && v[j] != '\n'
            invariant
                start <= j <= v@.len(),
                forall|k: int| start <= k < j ==> v@[k] != '\n',
            decreases v@.len() - j,
        {
            j = j + 1;
        }
        let mut end: usize = j;
        if end > start && v[end - 1] == '\r' && j < v.len() {
            end = end - 1;
        }
        let line = slice_of(v, start, end);
        proof {
            lemma_find_spec(rest, '\n');
            if j < v@.len() {
                assert(rest[j - start] == '\n');
                match find_spec(rest, '\n') {
                    Some(i) => {
                        if i < j - start {
                            assert(rest.subrange(0, j - start)[i] == '\n');
                            assert(rest[i] == v@[start + i]);
                        }
                        if i > j - start {
                            assert(rest.subrange(0, i)[j - start] == '\n');
                        }
                        assert(i == j - start);
                    },
                    None => {
                        assert(rest.contains('\n'));
                    },
                }
                assert(line@ =~= strip_cr(rest.subrange(0, j - start)));
                assert(rest.subrange(j - start + 1, rest.len() as int) =~= v@.subrange(j + 1, v@.len() as int));
            } else {
                assert forall|k: int| 0 <= k < rest.len() implies rest[k] != '\n' by {
                    assert(rest[k] == v@[start + k]);
                }
                assert(!rest.contains('\n'));
                assert(line@ =~= rest);
            }
        }
        r.push(line);
        assert(vecs_view(r@) =~= vecs_view(r@.drop_last()).push(line@));
        if j < v.len() {
            start = j + 1;
        } else {
            start = v.len();
            assert(v@.subrange(start as int, v@.len() as int).len() == 0);
        }
    }
    assert(v@.subrange(start as int, v@.len() as int).len() == 0);
    assert(vecs_view(r@) + seq![] =~= vecs_view(r@));
    r
}

/// Joins the pieces with `sep` between them.
pub fn join_chars(parts: &Vec<Vec<char>>, sep: &Vec<char>) -> (r: Vec<char>)
    ensures
        r@ == join_spec(vecs_view(parts@), sep@),
{
    let mut r: Vec<char> = Vec::new();
    let mut i: usize = 0;
    while i < parts.len()
        invariant
            i <= parts@.len(),
            r@ == join_spec(vecs_view(parts@.subrange(0, i as int)), sep@),
        decreases parts@.len() - i,
    {
        let ghost pre = vecs_view(parts@.subrange(0, i + 1));
        assert(pre.drop_last() =~= vecs_view(parts@.subrange(0, i as int)));
        assert(pre.last() == parts@[i as int]@);
        if i > 0 {
            extend_chars(&mut r, sep);
        }
        extend_chars(&mut r, &parts[i]);
        if i == 0 {
            assert(r@ =~= pre[0]);
        }
        i = i + 1;
    }
    assert(parts@.subrange(0, parts@.len() as int) =~= parts@);
    r
}

/// Whether `s` holds `pat` starting at position `i`.
pub open spec fn occurs_at(s: Seq<char>, pat: Seq<char>, i: int) -> bool {
    0 <= i && i + pat.len() <= s.len() && s.subrange(i, i + pat.len()) =~= pat
}

/// The first position at or after `from` where `pat` occurs in `s`.
pub open spec fn find_sub_from(s: Seq<char>, pat: Seq<char>, from: int) -> Option<int>
    decreases s.len() - from,
{
    if from < 0 || from + pat.len() > s.len() {
        None
    } else if occurs_at(s, pat, from) {
        Some(from)
    } else {
        find_sub_from(s, pat, from + 1)
    }
}

/// The first position where `pat` occurs in `s` (`str::find`).
pub open spec fn find_sub(s: Seq<char>, pat: Seq<char>) -> Option<int> {
    find_sub_from(s, pat, 0)
}

/// Whether `pat` occurs in `s` (`str::contains`).
pub open spec fn contains_sub(s: Seq<char>, pat: Seq<char>) -> bool {
    find_sub(s, pat) is Some
}

fn occurs_at_exec(v: &Vec<char>, pat: &Vec<char>, i: usize) -> (r: bool)
    requires
        i + pat@.len() <= v@.len(),
    ensures
        r == occurs_at(v@, pat@, i as int),
{
    let mut k: usize = 0;
    let vlen = v.len();
    while k < pat.len()
        invariant
            i + pat@.len() <= v@.len(),
            vlen == v@.len(),
            k <= pat@.len(),
            forall|m: int| 0 <= m < k ==> v@[i + m] == pat@[m],
        decreases pat@.len() - k,
    {
        if v[i + k] != pat[k] {
            assert(v@.subrange(i as int, i + pat@.len())[k as int] != pat@[k as int]);
            return false;
        }
        k = k + 1;
    }
    assert(v@.subrange(i as int, i + pat@.len()) =~= pat@);
    true
}

/// The first position at or after `from` where `pat` occurs in `v`.
pub fn find_sub_in(v: &Vec<char>, pat: &Vec<char>, from: usize) -> (r: Option<usize>)
    ensures
        r matches Some(i) ==> find_sub_from(v@, pat@, from as int) == Some(i as int),
        r is None ==> find_sub_from(v@, pat@, from as int) is None,
{
    let mut i: usize = from;
    while i <= v.len() && pat.len() <= v.len() - i
        invariant
            from <= i,
            find_sub_from(v@, pat@, from as int) == find_sub_from(v@, pat@, i as int),
        decreases v@.len() + 1 - i,
    {
        if occurs_at_exec(v, pat, i) {
            return Some(i);
        }
        i = i + 1;
    }
    None
}

/// Whether `pat` occurs in `v`.
pub fn contains_sub_in(v: &Vec<char>, pat: &Vec<char>) -> (r: bool)
    ensures
        r == contains_sub(v@, pat@),
{
    find_sub_in(v, pat, 0).is_some()
}

/// Width in bytes of a character's UTF-8 encoding.
pub fn utf8_width(c: char) -> (r: usize)
    ensures
        r == encode_scalar(c as u32).len(),
{
    proof {
        vstd::utf8::char_is_scalar(c);
    }
    let u = c as u32;
    if u <= 0x7F {
        1
    } else if u <= 0x7FF {
        2
    } else if u <= 0xFFFF {
        3
    } else {
        4
    }
}

pub proof fn lemma_encode_utf8_concat(a: Seq<char>, b: Seq<char>)
    ensures
        encode_utf8(a + b) == encode_utf8(a) + encode_utf8(b),
    decreases a.len(),
{
    if a.len() == 0 {
        assert(a + b =~= b);
        assert(encode_utf8(a) =~= Seq::<u8>::empty());
        assert(encode_utf8(a) + encode_utf8(b) =~= encode_utf8(b));
    } else {
        lemma_encode_utf8_concat(a.drop_first(), b);
        assert((a + b).drop_first() =~= a.drop_first() + b);
        assert((a + b)[0] == a[0]);
        assert(encode_scalar(a[0] as u32) + (encode_utf8(a.drop_first()) + encode_utf8(b))
            =~= (encode_scalar(a[0] as u32) + encode_utf8(a.drop_first())) + encode_utf8(b));
    }
}

pub proof fn lemma_encode_utf8_push(a: Seq<char>, c: char)
    ensures
        encode_utf8(a.push(c)).len() == encode_utf8(a).len() + encode_scalar(c as u32).len(),
{
    lemma_encode_utf8_concat(a, seq![c]);
    assert(a.push(c) =~= a + seq![c]);
    assert(seq![c].drop_first() =~= Seq::<char>::empty());
    assert(encode_utf8(Seq::<char>::empty()) =~= Seq::<u8>::empty());
    assert(encode_utf8(seq![c]) =~= encode_scalar(c as u32) + encode_utf8(Seq::<char>::empty()));
}

pub proof fn lemma_encode_scalar_nonempty(c: char)
    ensures
        encode_scalar(c as u32).len() >= 1,
{
}

/// Prefix byte lengths grow strictly with the prefix.
pub proof fn lemma_prefix_bytes_strict(s: Seq<char>, i: int, j: int)
    requires
        0 <= i < j <= s.len(),
    ensures
        encode_utf8(s.subrange(0, i)).len() < encode_utf8(s.subrange(0, j)).len(),
    decreases j - i,
{
    lemma_encode_utf8_push(s.subrange(0, j - 1), s[j - 1]);
    assert(s.subrange(0, j - 1).push(s[j - 1]) =~= s.subrange(0, j));
    lemma_encode_scalar_nonempty(s[j - 1]);
    if i < j - 1 {
        lemma_prefix_bytes_strict(s, i, j - 1);
    }
}

/// The number of characters whose UTF-8 encoding takes exactly `nbytes` bytes,
/// when `nbytes` falls on a character boundary.
pub fn char_count_at_byte(v: &Vec<char>, nbytes: usize) -> (r: Option<usize>)
    ensures
        r matches Some(k) ==> k <= v@.len() && encode_utf8(v@.subrange(0, k as int)).len() == nbytes,
        r is None ==> forall|k: int| 0 <= k <= v@.len() ==> encode_utf8(#[trigger] v@.subrange(0, k)).len() != nbytes,
{
    let mut k: usize = 0;
    let mut acc: usize = 0;
    assert(v@.subrange(0, 0) =~= Seq::<char>::empty());
    assert(encode_utf8(Seq::<char>::empty()) =~= Seq::<u8>::empty());
    while k < v.len() && acc < nbytes
        invariant
            k <= v@.len(),
            acc == encode_utf8(v@.subrange(0, k as int)).len(),
            acc <= nbytes || k == 0,
            forall|m: int| 0 <= m < k ==> encode_utf8(#[trigger] v@.subrange(0, m)).len() < nbytes,
        decreases v@.len() - k,
    {
        let w = utf8_width(v[k]);
        proof {
            lemma_encode_utf8_push(v@.subrange(0, k as int), v@[k as int]);
            assert(v@.subrange(0, k as int).push(v@[k as int]) =~= v@.subrange(0, k + 1));
        }
        if w > nbytes - acc {
            assert forall|m: int| 0 <= m <= v@.len() implies encode_utf8(#[trigger] v@.subrange(0, m)).len() != nbytes by {
                if m > k {
                    if m > k + 1 {
                        lemma_prefix_bytes_strict(v@, k + 1, m);
                    }
                }
            }
            return None;
        }
        acc = acc + w;
        k = k + 1;
    }
    if acc == nbytes {
        Some(k)
    } else {
        assert forall|m: int| 0 <= m <= v@.len() implies encode_utf8(#[trigger] v@.subrange(0, m)).len() != nbytes by {
            if m > k {
                lemma_prefix_bytes_strict(v@, k as int, m);
            }
        }
        None
    }
}


/// The pieces of `s` between occurrences of `c` (`str::split` with a char).
pub open spec fn split_spec(s: Seq<char>, c: char) -> Seq<Seq<char>>
    decreases s.len(),
{
    match find_spec(s, c) {
        None => seq![s],
        Some(i) => {
            if 0 <= i < s.len() {
                seq![s.subrange(0, i)] + split_spec(s.subrange(i + 1, s.len() as int), c)
            } else {
                seq![s]
            }
        },
    }
}

/// Splits `v` at every `c`.
pub fn split_chars(v: &Vec<char>, c: char) -> (r: Vec<Vec<char>>)
    ensures
        vecs_view(r@) == split_spec(v@, c),
{
    let mut r: Vec<Vec<char>> = Vec::new();
    let mut start: usize = 0;
    assert(v@.subrange(0, v@.len() as int) =~= v@);
    loop
        invariant
            start <= v@.len(),
            split_spec(v@, c) == vecs_view(r@) + split_spec(v@.subrange(start as int, v@.len() as int), c),
        decreases v@.len() - start,
    {
        let ghost rest = v@.subrange(start as int, v@.len() as int);
        let mut j: usize = start;
        while j < v.len() && v[j] != c
            invariant
                start <= j <= v@.len(),
                forall|k: int| start <= k < j ==> v@[k] != c,
            decreases v@.len() - j,
        {
            j = j + 1;
        }
        let piece = slice_of(v, start, j);
        proof {
            lemma_find_spec(rest, c);
            if j < v@.len() {
                assert(rest[j - start] == c);
                match find_spec(rest, c) {
                    Some(i) => {
                        if i < j - start {
                            assert(rest[i] == v@[start + i]);
                        }
                        if i > j - start {
                            assert(rest.subrange(0, i)[j - start] == c);
                        }
                    },
                    None => {
                        assert(rest.contains(c));
                    },
                }
                assert(piece@ =~= rest.subrange(0, j - start));
                assert(rest.subrange(j - start + 1, rest.len() as int) =~= v@.subrange(j + 1, v@.len() as int));
            } else {
                assert forall|k: int| 0 <= k < rest.len() implies rest[k] != c by {
                    assert(rest[k] == v@[start + k]);
                }
                assert(!rest.contains(c));
                assert(piece@ =~= rest);
            }
        }
        r.push(piece);
        assert(vecs_view(r@) =~= vecs_view(r@.drop_last()).push(piece@));
        if j < v.len() {
            start = j + 1;
        } else {
            assert(vecs_view(r@) + seq![] =~= vecs_view(r@)) by {
                assert(split_spec(rest, c) =~= seq![rest]);
            }
            assert(split_spec(v@, c) =~= vecs_view(r@));
            return r;
        }
    }
}

/// `s` without all leading `c` characters (`trim_start_matches` with a char).
pub open spec fn trim_start_char_spec(s: Seq<char>, c: char) -> Seq<char>
    decreases s.len(),
{
    if s.len() > 0 && s[0] == c {
        trim_start_char_spec(s.drop_first(), c)
    } else {
        s
    }
}

pub fn trim_start_char_in(v: &Vec<char>, c: char) -> (r: Vec<char>)
    ensures
        r@ == trim_start_char_spec(v@, c),
{
    let mut i: usize = 0;
    assert(v@.subrange(0, v@.len() as int) =~= v@);
    while i < v.len() && v[i] == c
        invariant
            i <= v@.len(),
            trim_start_char_spec(v@, c) == trim_start_char_spec(v@.subrange(i as int, v@.len() as int), c),
        decreases v@.len() - i,
    {
        assert(v@.subrange(i as int, v@.len() as int).drop_first() =~= v@.subrange(i + 1, v@.len() as int));
        i = i + 1;
    }
    slice_of(v, i, v.len())
}

/// `s` without all trailing `c` characters (`trim_end_matches` with a char).
pub open spec fn trim_end_char(s: Seq<char>, c: char) -> Seq<char>
    decreases s.len(),
{
    if s.len() > 0 && s.last() == c {
        trim_end_char(s.drop_last(), c)
    } else {
        s
    }
}

/// `s` without all trailing repetitions of a non-empty `pat` (`trim_end_matches` with a string).
pub open spec fn trim_end_str(s: Seq<char>, pat: Seq<char>) -> Seq<char>
    decreases s.len(),
{
    if pat.len() > 0 && ends_with_spec(s, pat) {
        trim_end_str(s.subrange(0, s.len() - pat.len()), pat)
    } else {
        s
    }
}

pub fn trim_end_char_in(v: &Vec<char>, c: char) -> (r: Vec<char>)
    ensures
        r@ == trim_end_char(v@, c),
{
    let mut i: usize = v.len();
    assert(v@.subrange(0, v@.len() as int) =~= v@);
    while i > 0 && v[i - 1] == c
        invariant
            i <= v@.len(),
            trim_end_char(v@, c) == trim_end_char(v@.subrange(0, i as int), c),
        decreases i,
    {
        assert(v@.subrange(0, i as int).drop_last() =~= v@.subrange(0, i - 1));
        i = i - 1;
    }
    slice_of(v, 0, i)
}

pub fn trim_end_str_in(v: &Vec<char>, pat: &Vec<char>) -> (r: Vec<char>)
    ensures
        r@ == trim_end_str(v@, pat@),
{
    let mut cur = slice_of(v, 0, v.len());
    assert(cur@ =~= v@);
    if pat.len() == 0 {
        return cur;
    }
    while ends_with(&cur, pat)
        invariant
            pat@.len() > 0,
            trim_end_str(v@, pat@) == trim_end_str(cur@, pat@),
        decreases cur@.len(),
    {
        let n = cur.len() - pat.len();
        cur = slice_of(&cur, 0, n);
    }
    cur
}

/// Decimal value of a digit sequence.
pub open spec fn digits_value(s: Seq<char>) -> int
    decreases s.len(),
{
    if s.len() == 0 {
        0
    } else {
        digits_value(s.drop_last()) * 10 + (s.last() as int - '0' as int)
    }
}

pub open spec fn all_digits(s: Seq<char>) -> bool {
    forall|i: int| 0 <= i < s.len() ==> '0' <= #[trigger] s[i] <= '9'
}

/// What `u64::from_str` accepts: an optional `+`, then one or more ASCII
/// digits whose value fits in a `u64`.
pub open spec fn parse_u64_spec(s: Seq<char>) -> Option<u64> {
    let d = strip_prefix_char(s, '+');
    if d.len() == 0 || !all_digits(d) || digits_value(d) > u64::MAX {
        None
    } else {
        Some(digits_value(d) as u64)
    }
}

pub proof fn lemma_digits_value_nonneg(s: Seq<char>)
    requires
        all_digits(s),
    ensures
        digits_value(s) >= 0,
    decreases s.len(),
{
    if s.len() > 0 {
        assert(all_digits(s.drop_last())) by {
            assert forall|i: int| 0 <= i < s.drop_last().len() implies '0' <= #[trigger] s.drop_last()[i] <= '9' by {
                assert(s.drop_last()[i] == s[i]);
            }
        }
        lemma_digits_value_nonneg(s.drop_last());
    }
}

pub proof fn lemma_digits_value_grows(s: Seq<char>, k: int)
    requires
        all_digits(s),
        0 <= k <= s.len(),
    ensures
        digits_value(s.subrange(0, k)) <= digits_value(s),
    decreases s.len() - k,
{
    if k < s.len() {
        lemma_digits_value_grows(s, k + 1);
        let p = s.subrange(0, k + 1);
        assert(p.drop_last() =~= s.subrange(0, k));
        assert(all_digits(s.subrange(0, k))) by {
            assert forall|i: int| 0 <= i < k implies '0' <= #[trigger] s.subrange(0, k)[i] <= '9' by {
                assert(s.subrange(0, k)[i] == s[i]);
            }
        }
        lemma_digits_value_nonneg(s.subrange(0, k));
    } else {
        assert(s.subrange(0, k) =~= s);
    }
}

/// Reads an unsigned 64-bit number as `u64::from_str` does.
pub fn parse_u64(v: &Vec<char>) -> (r: Option<u64>)
    ensures
        r == parse_u64_spec(v@),
{
    let start: usize = if v.len() > 0 && v[0] == '+' { 1 } else { 0 };
    let ghost d = strip_prefix_char(v@, '+');
    assert(d =~= v@.subrange(start as int, v@.len() as int));
    if start == v.len() {
        return None;
    }
    let mut acc: u64 = 0;
    let mut i: usize = start;
    while i < v.len()
        invariant
            start <= i <= v@.len(),
            d == strip_prefix_char(v@, '+'),
            d =~= v@.subrange(start as int, v@.len() as int),
            all_digits(d.subrange(0, i - start)),
            acc == digits_value(d.subrange(0, i - start)),
        decreases v@.len() - i,
    {
        let c = v[i];
        let ghost p = d.subrange(0, i - start + 1);
        assert(p.drop_last() =~= d.subrange(0, i - start));
        assert(p.last() == c);
        if !('0' <= c && c <= '9') {
            assert(!all_digits(d)) by {
                assert(d[(i - start) as int] == c);
                assert(!('0' <= d[(i - start) as int] <= '9'));
            }
            return None;
        }
        let dig: u64 = (c as u32 - '0' as u32) as u64;
        assert(dig == c as int - '0' as int);
        assert(digits_value(p) == acc * 10 + dig);
        assert(all_digits(p)) by {
            assert forall|k: int| 0 <= k < p.len() implies '0' <= #[trigger] p[k] <= '9' by {
                if k < p.len() - 1 {
                    assert(p[k] == d.subrange(0, i - start)[k]);
                }
            }
        }
        if acc > (u64::MAX - dig) / 10 {
            proof {
                assert(digits_value(p) == acc * 10 + dig);
                assert(acc * 10 + dig > u64::MAX) by (nonlinear_arith)
                    requires
                        acc > (u64::MAX - dig) / 10,
                        dig <= 9,
                ;
                if all_digits(d) {
                    lemma_digits_value_grows(d, i - start + 1);
                }
            }
            return None;
        }
        assert(acc * 10 + dig <= u64::MAX) by (nonlinear_arith)
            requires
                acc <= (u64::MAX - dig) / 10,
                dig <= 9,
        ;
        acc = acc * 10 + dig;
        i = i + 1;
    }
    assert(d.subrange(0, i - start) =~= d);
    Some(acc)
}


/// `s` with `to` inserted before every character and at the end (replacing the empty pattern).
pub open spec fn interleave_spec(s: Seq<char>, to: Seq<char>) -> Seq<char>
    decreases s.len(),
{
    if s.len() == 0 {
        to
    } else {
        to + seq![s[0]] + interleave_spec(s.drop_first(), to)
    }
}

/// Every non-overlapping occurrence of `pat`, left to right, replaced by `to` (`str::replace`).
pub open spec fn replace_spec(s: Seq<char>, pat: Seq<char>, to: Seq<char>) -> Seq<char>
    decreases s.len(),
{
    if pat.len() == 0 {
        interleave_spec(s, to)
    } else {
        match find_sub(s, pat) {
            None => s,
            Some(i) => {
                if 0 <= i && i + pat.len() <= s.len() {
                    s.subrange(0, i) + to + replace_spec(s.subrange(i + pat.len(), s.len() as int), pat, to)
                } else {
                    s
                }
            },
        }
    }
}

/// The first occurrence of `pat` replaced by `to` (`str::replacen(pat, to, 1)`).
pub open spec fn replace_first_spec(s: Seq<char>, pat: Seq<char>, to: Seq<char>) -> Seq<char> {
    match find_sub(s, pat) {
        None => s,
        Some(i) => {
            if 0 <= i && i + pat.len() <= s.len() {
                s.subrange(0, i) + to + s.subrange(i + pat.len(), s.len() as int)
            } else {
                s
            }
        },
    }
}

pub proof fn lemma_find_sub_bounds(s: Seq<char>, pat: Seq<char>, from: int)
    ensures
        match find_sub_from(s, pat, from) {
            Some(i) => from <= i && i + pat.len() <= s.len() && occurs_at(s, pat, i),
            None => true,
        },
    decreases s.len() - from,
{
    if !(from < 0 || from + pat.len() > s.len()) && !occurs_at(s, pat, from) {
        lemma_find_sub_bounds(s, pat, from + 1);
    }
}

fn interleave(v: &Vec<char>, to: &Vec<char>) -> (r: Vec<char>)
    ensures
        r@ == interleave_spec(v@, to@),
{
    let mut out: Vec<char> = Vec::new();
    let mut i: usize = 0;
    assert(v@.subrange(0, v@.len() as int) =~= v@);
    while i < v.len()
        invariant
            i <= v@.len(),
            interleave_spec(v@, to@) == out@ + interleave_spec(v@.subrange(i as int, v@.len() as int), to@),
        decreases v@.len() - i,
    {
        let ghost rest = v@.subrange(i as int, v@.len() as int);
        assert(rest.drop_first() =~= v@.subrange(i + 1, v@.len() as int));
        extend_chars(&mut out, to);
        out.push(v[i]);
        i = i + 1;
    }
    extend_chars(&mut out, to);
    assert(interleave_spec(v@.subrange(i as int, v@.len() as int), to@) == to@);
    out
}

/// Replaces every occurrence of `pat` by `to`.
pub fn replace_all(v: &Vec<char>, pat: &Vec<char>, to: &Vec<char>) -> (r: Vec<char>)
    ensures
        r@ == replace_spec(v@, pat@, to@),
{
    if pat.len() == 0 {
        return interleave(v, to);
    }
    let mut out: Vec<char> = Vec::new();
    let mut rest = slice_of(v, 0, v.len());
    assert(rest@ =~= v@);
    loop
        invariant
            pat@.len() > 0,
            replace_spec(v@, pat@, to@) == out@ + replace_spec(rest@, pat@, to@),
        decreases rest@.len(),
    {
        proof {
            lemma_find_sub_bounds(rest@, pat@, 0);
        }
        match find_sub_in(&rest, pat, 0) {
            None => {
                extend_chars(&mut out, &rest);
                return out;
            },
            Some(i) => {
                let head = slice_of(&rest, 0, i);
                let tail = slice_of(&rest, i + pat.len(), rest.len());
                let ghost old_out = out@;
                extend_chars(&mut out, &head);
                extend_chars(&mut out, to);
                assert(out@ + replace_spec(tail@, pat@, to@) =~= old_out + (head@ + to@ + replace_spec(tail@, pat@, to@)));
                rest = tail;
            },
        }
    }
}

/// Replaces the first occurrence of `pat` by `to`.
pub fn replace_first(v: &Vec<char>, pat: &Vec<char>, to: &Vec<char>) -> (r: Vec<char>)
    ensures
        r@ == replace_first_spec(v@, pat@, to@),
{
    proof {
        lemma_find_sub_bounds(v@, pat@, 0);
    }
    match find_sub_in(v, pat, 0) {
        None => slice_of(v, 0, v.len()),
        Some(i) => {
            let vlen = v.len();
            assert(i + pat@.len() <= vlen);
            let mut out = slice_of(v, 0, i);
            extend_chars(&mut out, to);
            let tail = slice_of(v, i + pat.len(), v.len());
            extend_chars(&mut out, &tail);
            out
        },
    }
}


/// `s` without all leading repetitions of a non-empty `pat` (`trim_start_matches` with a string).
pub open spec fn trim_start_str(s: Seq<char>, pat: Seq<char>) -> Seq<char>
    decreases s.len(),
{
    if pat.len() > 0 && starts_with_spec(s, pat) {
        trim_start_str(s.subrange(pat.len() as int, s.len() as int), pat)
    } else {
        s
    }
}

pub fn trim_start_str_in(v: &Vec<char>, pat: &Vec<char>) -> (r: Vec<char>)
    ensures
        r@ == trim_start_str(v@, pat@),
{
    let mut cur = slice_of(v, 0, v.len());
    assert(cur@ =~= v@);
    if pat.len() == 0 {
        return cur;
    }
    while starts_with(&cur, pat)
        invariant
            pat@.len() > 0,
            trim_start_str(v@, pat@) == trim_start_str(cur@, pat@),
        decreases cur@.len(),
    {
        cur = slice_of(&cur, pat.len(), cur.len());
    }
    cur
}

/// An occurrence at `j` means the first occurrence at or after `from` exists and is not after `j`.
pub proof fn lemma_find_sub_finds(s: Seq<char>, pat: Seq<char>, from: int, j: int)
    requires
        0 <= from <= j,
        occurs_at(s, pat, j),
    ensures
        find_sub_from(s, pat, from) matches Some(i) && from <= i <= j,
    decreases j - from,
{
    if !occurs_at(s, pat, from) {
        lemma_find_sub_finds(s, pat, from + 1, j);
    }
}

} // verus!
