//! Repository URLs: the SSH form `git@<host>:<org>/<repo>.git` and the HTTP(S)
//! form `http[s]://<host>/<org>/<repo>[/...]`, their parts, and the canonical
//! and SSH renderings.

use vstd::prelude::*;
use vstd::string::*;
use crate::text::{chars_of, push_char, push_text, same_text, string_of, sub_chars, trim_text};

verus! {

/// How a repository URL reaches its host.
#[derive(Debug, Clone, Copy, PartialEq, Eq, Structural)]
pub enum RepositoryTransport {
    Ssh,
    Http,
    Https,
}

/// The parts of a repository URL.
#[derive(Debug, Clone)]
pub struct RepositoryParts {
    pub transport: RepositoryTransport,
    pub host: String,
    pub org: String,
    pub name: String,
}

/// The mathematical value of `RepositoryParts`.
pub struct RepositoryPartsView {
    pub transport: RepositoryTransport,
    pub host: Seq<char>,
    pub org: Seq<char>,
    pub name: Seq<char>,
}

impl View for RepositoryParts {
    type V = RepositoryPartsView;

    open spec fn view(&self) -> RepositoryPartsView {
        RepositoryPartsView {
            transport: self.transport,
            host: self.host@,
            org: self.org@,
            name: self.name@,
        }
    }
}

/// Why a repository URL was refused.
#[derive(Debug, Clone, Copy, PartialEq, Eq, Structural)]
pub enum RepositoryUrlError {
    /// The URL is in neither supported form.
    Unsupported,
}

pub open spec fn git_at() -> Seq<char> {
    seq!['g', 'i', 't', '@']
}

pub open spec fn dot_git() -> Seq<char> {
    seq!['.', 'g', 'i', 't']
}

/// `t` is `git@<host>:<org>/<name>.git`, where `host` holds neither `/` nor `:`,
/// `org` and `name` hold no `/`, and none of the three is empty.
pub open spec fn ssh_form(t: Seq<char>, host: Seq<char>, org: Seq<char>, name: Seq<char>) -> bool {
    &&& t == git_at() + host + seq![':'] + org + seq!['/'] + name + dot_git()
    &&& host.len() > 0 && crate::text::lacks(host, '/') && crate::text::lacks(host, ':')
    &&& org.len() > 0 && crate::text::lacks(org, '/')
    &&& name.len() > 0 && crate::text::lacks(name, '/')
}

/// The `(host, org, name)` of an SSH repository URL, if `t` is one.
pub open spec fn ssh_parts(t: Seq<char>) -> Option<(Seq<char>, Seq<char>, Seq<char>)> {
    if exists|h: Seq<char>, o: Seq<char>, n: Seq<char>| ssh_form(t, h, o, n) {
        Some(choose|h: Seq<char>, o: Seq<char>, n: Seq<char>| ssh_form(t, h, o, n))
    } else {
        None
    }
}

/// Where the parts of `git@<host>:<org>/<name>.git` stand in it.
pub proof fn lemma_git_url_layout(t: Seq<char>, h: Seq<char>, o: Seq<char>, n: Seq<char>)
    requires
        t == git_at() + h + seq![':'] + o + seq!['/'] + n + dot_git(),
    ensures
        t.len() == (h.len() as int) + (o.len() as int) + (n.len() as int) + 10,
        t.subrange(0, 4) == git_at(),
        forall|j: int| 0 <= j < (h.len() as int) ==> t[4 + j] == h[j],
        t[4 + (h.len() as int)] == ':',
        forall|j: int| 0 <= j < (o.len() as int) ==> t[5 + (h.len() as int) + j] == o[j],
        t[5 + (h.len() as int) + (o.len() as int)] == '/',
        forall|j: int| 0 <= j < (n.len() as int) ==> t[6 + (h.len() as int) + (o.len() as int) + j] == n[j],
        t.subrange(t.len() - 4, t.len() as int) == dot_git(),
        h == t.subrange(4, 4 + (h.len() as int)),
        o == t.subrange(5 + (h.len() as int), 5 + (h.len() as int) + (o.len() as int)),
        n == t.subrange(6 + (h.len() as int) + (o.len() as int), 6 + (h.len() as int) + (o.len() as int) + (n.len() as int)),
{
    let a = git_at() + h;
    let b = a + seq![':'];
    let c = b + o;
    let d = c + seq!['/'];
    let e = d + n;
    assert(t == e + dot_git());
    assert forall|j: int| 0 <= j < (h.len() as int) implies t[4 + j] == h[j] by {
        assert(t[4 + j] == e[4 + j]);
        assert(e[4 + j] == d[4 + j]);
        assert(d[4 + j] == c[4 + j]);
        assert(c[4 + j] == b[4 + j]);
        assert(b[4 + j] == a[4 + j]);
    }
    assert forall|j: int| 0 <= j < (o.len() as int) implies t[5 + (h.len() as int) + j] == o[j] by {
        assert(t[5 + (h.len() as int) + j] == e[5 + (h.len() as int) + j]);
        assert(e[5 + (h.len() as int) + j] == d[5 + (h.len() as int) + j]);
        assert(d[5 + (h.len() as int) + j] == c[5 + (h.len() as int) + j]);
    }
    assert forall|j: int| 0 <= j < (n.len() as int) implies t[6 + (h.len() as int) + (o.len() as int) + j] == n[j] by {
        assert(t[6 + (h.len() as int) + (o.len() as int) + j] == e[6 + (h.len() as int) + (o.len() as int) + j]);
    }
    assert(t[4 + (h.len() as int)] == e[4 + (h.len() as int)]);
    assert(e[4 + (h.len() as int)] == d[4 + (h.len() as int)]);
    assert(d[4 + (h.len() as int)] == c[4 + (h.len() as int)]);
    assert(c[4 + (h.len() as int)] == b[4 + (h.len() as int)]);
    assert(t[5 + (h.len() as int) + (o.len() as int)] == e[5 + (h.len() as int) + (o.len() as int)]);
    assert(e[5 + (h.len() as int) + (o.len() as int)] == d[5 + (h.len() as int) + (o.len() as int)]);
    assert(t.subrange(0, 4) =~= git_at()) by {
        assert forall|j: int| 0 <= j < 4 implies t[j] == git_at()[j] by {
            assert(t[j] == e[j]);
            assert(e[j] == d[j]);
            assert(d[j] == c[j]);
            assert(c[j] == b[j]);
            assert(b[j] == a[j]);
        }
    }
    assert(t.subrange(t.len() - 4, t.len() as int) =~= dot_git());
    assert(h =~= t.subrange(4, 4 + (h.len() as int)));
    assert(o =~= t.subrange(5 + (h.len() as int), 5 + (h.len() as int) + (o.len() as int)));
    assert(n =~= t.subrange(6 + (h.len() as int) + (o.len() as int), 6 + (h.len() as int) + (o.len() as int) + (n.len() as int)));
}

/// An SSH repository URL has only one split into host, org and name.
pub proof fn lemma_ssh_form_unique(
    t: Seq<char>,
    h1: Seq<char>,
    o1: Seq<char>,
    n1: Seq<char>,
    h2: Seq<char>,
    o2: Seq<char>,
    n2: Seq<char>,
)
    requires
        ssh_form(t, h1, o1, n1),
        ssh_form(t, h2, o2, n2),
    ensures
        h1 == h2,
        o1 == o2,
        n1 == n2,
{
    lemma_git_url_layout(t, h1, o1, n1);
    lemma_git_url_layout(t, h2, o2, n2);
    if (h1.len() as int) < (h2.len() as int) {
        assert(t[4 + (h1.len() as int)] == h2[h1.len() as int]);
    }
    if (h2.len() as int) < (h1.len() as int) {
        assert(t[4 + (h2.len() as int)] == h1[h2.len() as int]);
    }
    assert((h1.len() as int) == (h2.len() as int));
    if (o1.len() as int) < (o2.len() as int) {
        assert(t[5 + (h1.len() as int) + (o1.len() as int)] == o2[o1.len() as int]);
    }
    if (o2.len() as int) < (o1.len() as int) {
        assert(t[5 + (h1.len() as int) + (o2.len() as int)] == o1[o2.len() as int]);
    }
}

/// `ssh_parts` names the one split of an SSH repository URL.
pub proof fn lemma_ssh_parts_of_form(t: Seq<char>, h: Seq<char>, o: Seq<char>, n: Seq<char>)
    requires
        ssh_form(t, h, o, n),
    ensures
        ssh_parts(t) == Some((h, o, n)),
{
    let (h2, o2, n2) = choose|h2: Seq<char>, o2: Seq<char>, n2: Seq<char>|
        ssh_form(t, h2, o2, n2);
    lemma_ssh_form_unique(t, h, o, n, h2, o2, n2);
}

proof fn lemma_no_ssh_prefix(t: Seq<char>)
    requires
        !(t.len() >= 4 && t[0] == 'g' && t[1] == 'i' && t[2] == 't' && t[3] == '@'),
    ensures
        ssh_parts(t) is None,
{
    assert forall|h: Seq<char>, o: Seq<char>, n: Seq<char>| !ssh_form(t, h, o, n) by {
        if ssh_form(t, h, o, n) {
            lemma_git_url_layout(t, h, o, n);
            assert(t.subrange(0, 4)[0] == 'g');
            assert(t.subrange(0, 4)[1] == 'i');
            assert(t.subrange(0, 4)[2] == 't');
            assert(t.subrange(0, 4)[3] == '@');
        }
    }
}

/// In an SSH repository URL the host ends at the first `:` or `/` after `git@`,
/// and that character is a `:`.
proof fn lemma_ssh_host_end(t: Seq<char>, k: int, h: Seq<char>, o: Seq<char>, n: Seq<char>)
    requires
        ssh_form(t, h, o, n),
        4 <= k <= t.len(),
        forall|j: int| 4 <= j < k ==> t[j] != ':' && t[j] != '/',
        k == t.len() || t[k] == ':' || t[k] == '/',
    ensures
        k == 4 + h.len(),
        t[k] == ':',
{
    lemma_git_url_layout(t, h, o, n);
    if 4 + (h.len() as int) < k {
        assert(t[4 + (h.len() as int)] == ':');
    } else if k < 4 + (h.len() as int) {
        assert(t[k] == h[k - 4]);
    }
}

/// In an SSH repository URL the org ends at the first `/` after the host.
proof fn lemma_ssh_org_end(t: Seq<char>, k: int, m: int, h: Seq<char>, o: Seq<char>, n: Seq<char>)
    requires
        ssh_form(t, h, o, n),
        k == 4 + h.len(),
        k < m <= t.len(),
        forall|j: int| k < j < m ==> t[j] != '/',
        m == t.len() || t[m] == '/',
    ensures
        m == 5 + h.len() + o.len(),
{
    lemma_git_url_layout(t, h, o, n);
    if 5 + (h.len() as int) + (o.len() as int) < m {
        assert(t[5 + (h.len() as int) + (o.len() as int)] == '/');
    } else if m < 5 + (h.len() as int) + (o.len() as int) {
        assert(t[m] == o[m - 5 - (h.len() as int)]);
    }
}

proof fn lemma_no_ssh_host(t: Seq<char>, k: int)
    requires
        4 <= k <= t.len(),
        forall|j: int| 4 <= j < k ==> t[j] != ':' && t[j] != '/',
        k == t.len() || t[k] == ':' || t[k] == '/',
        k == t.len() || k == 4 || t[k] == '/',
    ensures
        ssh_parts(t) is None,
{
    assert forall|h: Seq<char>, o: Seq<char>, n: Seq<char>| !ssh_form(t, h, o, n) by {
        if ssh_form(t, h, o, n) {
            lemma_ssh_host_end(t, k, h, o, n);
        }
    }
}

/// What an SSH repository URL shows after its host: where the org ends, and
/// that the rest is a name without `/` followed by `.git`.
proof fn lemma_ssh_tail(t: Seq<char>, k: int, m: int, h: Seq<char>, o: Seq<char>, n: Seq<char>)
    requires
        ssh_form(t, h, o, n),
        k == 4 + h.len(),
        k < m <= t.len(),
        forall|j: int| k < j < m ==> t[j] != '/',
        m == t.len() || t[m] == '/',
    ensures
        m < t.len(),
        m > k + 1,
        t.len() - m >= 6,
        t[t.len() - 4] == '.' && t[t.len() - 3] == 'g' && t[t.len() - 2] == 'i' && t[t.len() - 1]
            == 't',
        forall|j: int| m < j < t.len() ==> t[j] != '/',
{
    lemma_ssh_org_end(t, k, m, h, o, n);
    lemma_git_url_layout(t, h, o, n);
    let tail = t.subrange(t.len() - 4, t.len() as int);
    assert(t[t.len() - 4] == tail[0]);
    assert(t[t.len() - 3] == tail[1]);
    assert(t[t.len() - 2] == tail[2]);
    assert(t[t.len() - 1] == tail[3]);
    assert forall|j: int| m < j < t.len() implies t[j] != '/' by {
        if j < 6 + (h.len() as int) + (o.len() as int) + (n.len() as int) {
            assert(t[j] == n[j - 6 - (h.len() as int) - (o.len() as int)]);
        } else {
            assert(t[j] == tail[j - (t.len() - 4)]);
        }
    }
}

/// Splits an SSH repository URL: the indices of the `:` after the host and of
/// the `/` after the org.
fn split_ssh(t: &[char]) -> (r: Option<(usize, usize)>)
    ensures
        r matches Some((k, m)) ==> {
            &&& 4 < k < m
            &&& m + 5 <= t@.len()
            &&& ssh_form(
                t@,
                t@.subrange(4, k as int),
                t@.subrange(k + 1, m as int),
                t@.subrange(m + 1, t@.len() - 4),
            )
        },
        r is None ==> ssh_parts(t@) is None,
{
    let len = t.len();
    if len < 4 || t[0] != 'g' || t[1] != 'i' || t[2] != 't' || t[3] != '@' {
        proof {
            lemma_no_ssh_prefix(t@);
        }
        return None;
    }
    let k = crate::text::scan_until(t, 4, ':', '/');
    if k == len || k == 4 || t[k] == '/' {
        proof {
            lemma_no_ssh_host(t@, k as int);
        }
        return None;
    }
    let m = crate::text::scan_until(t, k + 1, '/', '/');
    let ok = m < len && m > k + 1 && len - m >= 6 && t[len - 4] == '.' && t[len - 3] == 'g'
        && t[len - 2] == 'i' && t[len - 1] == 't';
    if !ok {
        proof {
            assert forall|h: Seq<char>, o: Seq<char>, n: Seq<char>| !ssh_form(t@, h, o, n) by {
                if ssh_form(t@, h, o, n) {
                    lemma_ssh_host_end(t@, k as int, h, o, n);
                    lemma_ssh_tail(t@, k as int, m as int, h, o, n);
                }
            }
        }
        return None;
    }
    let p = crate::text::scan_until(t, m + 1, '/', '/');
    if p < len {
        proof {
            assert forall|h: Seq<char>, o: Seq<char>, n: Seq<char>| !ssh_form(t@, h, o, n) by {
                if ssh_form(t@, h, o, n) {
                    lemma_ssh_host_end(t@, k as int, h, o, n);
                    lemma_ssh_tail(t@, k as int, m as int, h, o, n);
                }
            }
        }
        return None;
    }
    proof {
        let h = t@.subrange(4, k as int);
        let o = t@.subrange(k + 1, m as int);
        let n = t@.subrange(m + 1, len - 4);
        assert(t@ =~= git_at() + h + seq![':'] + o + seq!['/'] + n + dot_git());
    }
    Some((k, m))
}

} // verus!

verus! {

/// What `url::Url::parse` makes of a text: the scheme, the host and the path
/// segments of the URL, or `None` where the text is no URL. (Named, not
/// defined: the WHATWG URL parser of the `url` crate computes it.)
pub uninterp spec fn url_components(input: Seq<char>) -> Option<
    (Seq<char>, Option<Seq<char>>, Option<Seq<Seq<char>>>),
>;

/// The parts of a parsed URL that repository handling reads.
pub struct UrlComponents {
    pub scheme: String,
    pub host: Option<String>,
    pub segments: Option<Vec<String>>,
}

pub open spec fn option_text_view(o: Option<String>) -> Option<Seq<char>> {
    match o {
        Some(s) => Some(s@),
        None => None,
    }
}

pub open spec fn texts_view(v: Seq<String>) -> Seq<Seq<char>> {
    v.map_values(|s: String| s@)
}

impl View for UrlComponents {
    type V = (Seq<char>, Option<Seq<char>>, Option<Seq<Seq<char>>>);

    open spec fn view(&self) -> Self::V {
        (
            self.scheme@,
            option_text_view(self.host),
            match self.segments {
                Some(v) => Some(texts_view(v@)),
                None => None,
            },
        )
    }
}

/// Parses `input` with `url::Url::parse` and reads `Url::scheme`,
/// `Url::host_str` and `Url::path_segments` of the result. The contract claims
/// that the outcome is the named `url_components(input)`, and what the crate's
/// source shows: no segment holds a `/` (`path_segments` splits the path at
/// `/`); an `http` or `https` URL has a host, which is not empty (`EmptyHost`),
/// holds no `/` (it ends the host, and is a forbidden domain code point) and
/// does not begin with `:` (a domain holds no `:`, an IPv6 address begins with
/// `[`); and a text that begins with `git@` is no URL (the scheme state stops
/// at `@`, and without a base URL that is `RelativeUrlWithoutBase`).
#[verifier::external_body]
fn parse_url_components(input: &str) -> (r: Option<UrlComponents>)
    ensures
        r is Some <==> url_components(input@) is Some,
        r matches Some(c) ==> c@ == url_components(input@).unwrap(),
        r matches Some(c) ==> (c.segments matches Some(v) ==> forall|i: int|
            0 <= i < v@.len() ==> crate::text::lacks(#[trigger] v@[i]@, '/')),
        r matches Some(c) ==> ((c.scheme@ == http_scheme() || c.scheme@ == https_scheme()) ==> (
        c.host matches Some(h) && h@.len() > 0 && crate::text::lacks(h@, '/') && h@[0] != ':')),
        crate::text::starts_with(input@, git_at()) ==> r is None,
{
    match url::Url::parse(input) {
        Err(_) => None,
        Ok(u) => Some(
            UrlComponents {
                scheme: u.scheme().to_string(),
                host: u.host_str().map(|h| h.to_string()),
                segments: u.path_segments().map(|it| it.map(|s| s.to_string()).collect()),
            },
        ),
    }
}

/// The segments that are not empty, in order.
pub open spec fn nonempty_segments(segs: Seq<Seq<char>>) -> Seq<Seq<char>>
    decreases segs.len(),
{
    if segs.len() == 0 {
        segs
    } else if segs.last().len() > 0 {
        nonempty_segments(segs.drop_last()).push(segs.last())
    } else {
        nonempty_segments(segs.drop_last())
    }
}

/// `str::trim_end_matches(".git")`: `s` with every trailing `.git` removed.
pub open spec fn trim_git_suffixes(s: Seq<char>) -> Seq<char>
    decreases s.len(),
{
    if s.len() >= 4 && s.subrange(s.len() - 4, s.len() as int) == dot_git() {
        trim_git_suffixes(s.subrange(0, s.len() - 4))
    } else {
        s
    }
}

pub open spec fn http_scheme() -> Seq<char> {
    seq!['h', 't', 't', 'p']
}

pub open spec fn https_scheme() -> Seq<char> {
    seq!['h', 't', 't', 'p', 's']
}

/// The repository parts that an HTTP(S) URL with these components names:
/// the host, the first non-empty path segment as the org, and the second,
/// without trailing `.git`, as the name (which must not be empty).
pub open spec fn parts_from_url(
    scheme: Seq<char>,
    host: Option<Seq<char>>,
    segments: Option<Seq<Seq<char>>>,
) -> Option<RepositoryPartsView> {
    if scheme != http_scheme() && scheme != https_scheme() {
        None
    } else if host is None || segments is None {
        None
    } else {
        let kept = nonempty_segments(segments.unwrap());
        if kept.len() < 2 || trim_git_suffixes(kept[1]).len() == 0 {
            None
        } else {
            Some(
                RepositoryPartsView {
                    transport: if scheme == http_scheme() {
                        RepositoryTransport::Http
                    } else {
                        RepositoryTransport::Https
                    },
                    host: host.unwrap(),
                    org: kept[0],
                    name: trim_git_suffixes(kept[1]),
                },
            )
        }
    }
}

/// The parts of the repository URL `input`: the input is trimmed; if it is an
/// SSH repository URL, its split; otherwise what `parts_from_url` makes of the
/// URL that it parses to.
pub open spec fn repository_parts_of(input: Seq<char>) -> Option<RepositoryPartsView> {
    let t = crate::text::trim(input);
    match ssh_parts(t) {
        Some((h, o, n)) => Some(
            RepositoryPartsView { transport: RepositoryTransport::Ssh, host: h, org: o, name: n },
        ),
        None => match url_components(t) {
            Some((s, h, segs)) => parts_from_url(s, h, segs),
            None => None,
        },
    }
}

/// The length of `v` without its trailing `.git` suffixes.
fn trim_git_suffixes_len(v: &[char]) -> (r: usize)
    ensures
        r <= v@.len(),
        trim_git_suffixes(v@) == v@.subrange(0, r as int),
{
    let mut end: usize = v.len();
    assert(v@.subrange(0, end as int) =~= v@);
    while end >= 4 && v[end - 4] == '.' && v[end - 3] == 'g' && v[end - 2] == 'i' && v[end - 1]
        == 't'
        invariant
            end <= v@.len(),
            trim_git_suffixes(v@) == trim_git_suffixes(v@.subrange(0, end as int)),
        decreases end,
    {
        let ghost w = v@.subrange(0, end as int);
        assert(w.subrange(w.len() - 4, w.len() as int) =~= dot_git());
        assert(w.subrange(0, w.len() - 4) =~= v@.subrange(0, end - 4));
        end = end - 4;
    }
    proof {
        let w = v@.subrange(0, end as int);
        if w.len() >= 4 && w.subrange(w.len() - 4, w.len() as int) == dot_git() {
            assert(w.subrange(w.len() - 4, w.len() as int)[0] == '.');
            assert(w.subrange(w.len() - 4, w.len() as int)[1] == 'g');
            assert(w.subrange(w.len() - 4, w.len() as int)[2] == 'i');
            assert(w.subrange(w.len() - 4, w.len() as int)[3] == 't');
        }
    }
    end
}

/// The first two non-empty segments, if there are two.
fn first_two_nonempty(segs: &Vec<String>) -> (r: Option<(usize, usize)>)
    ensures
        r is None <==> nonempty_segments(texts_view(segs@)).len() < 2,
        r matches Some((a, b)) ==> {
            &&& a < b < segs@.len()
            &&& nonempty_segments(texts_view(segs@))[0] == segs@[a as int]@
            &&& nonempty_segments(texts_view(segs@))[1] == segs@[b as int]@
        },
{
    let ghost all = texts_view(segs@);
    let mut found: Vec<usize> = Vec::new();
    let mut i: usize = 0;
    while i < segs.len() && found.len() < 2
        invariant
            all == texts_view(segs@),
            i <= segs@.len(),
            found@.len() <= 2,
            found@.len() == nonempty_segments(all.take(i as int)).len(),
            forall|j: int| 0 <= j < found@.len() ==> #[trigger] found@[j] < i,
            found@.len() == 2 ==> found@[0] < found@[1],
            forall|j: int|
                0 <= j < found@.len() ==> nonempty_segments(all.take(i as int))[j]
                    == #[trigger] segs@[found@[j] as int]@,
        decreases segs@.len() - i,
    {
        assert(all.take(i + 1).drop_last() =~= all.take(i as int));
        assert(all.take(i + 1).last() == segs@[i as int]@);
        if !segs[i].as_str().is_empty() {
            found.push(i);
        }
        i = i + 1;
    }
    if found.len() < 2 {
        proof {
            assert(all.take(i as int) =~= all);
        }
        None
    } else {
        proof {
            lemma_nonempty_segments_prefix(all, i as int);
        }
        Some((found[0], found[1]))
    }
}

/// The non-empty segments of a prefix are a prefix of the non-empty segments.
proof fn lemma_nonempty_segments_prefix(s: Seq<Seq<char>>, i: int)
    requires
        0 <= i <= s.len(),
    ensures
        nonempty_segments(s.take(i)).len() <= nonempty_segments(s).len(),
        forall|j: int|
            0 <= j < nonempty_segments(s.take(i)).len() ==> nonempty_segments(s.take(i))[j]
                == nonempty_segments(s)[j],
    decreases s.len() - i,
{
    if i < s.len() {
        lemma_nonempty_segments_prefix(s, i + 1);
        assert(s.take(i + 1).drop_last() =~= s.take(i));
    } else {
        assert(s.take(i) =~= s);
    }
}

} // verus!

verus! {

/// `git@<host>:<org>/<name>.git`.
pub open spec fn ssh_url_of(p: RepositoryPartsView) -> Seq<char> {
    git_at() + p.host + seq![':'] + p.org + seq!['/'] + p.name + dot_git()
}

pub open spec fn scheme_separator() -> Seq<char> {
    seq![':', '/', '/']
}

/// The canonical URL of a repository: its SSH URL for SSH parts, and
/// `<scheme>://<host>/<org>/<name>` for HTTP(S) parts.
pub open spec fn canonical_url_of(p: RepositoryPartsView) -> Seq<char> {
    match p.transport {
        RepositoryTransport::Ssh => ssh_url_of(p),
        RepositoryTransport::Http => http_scheme() + scheme_separator() + p.host + seq!['/']
            + p.org + seq!['/'] + p.name,
        RepositoryTransport::Https => https_scheme() + scheme_separator() + p.host + seq!['/']
            + p.org + seq!['/'] + p.name,
    }
}

impl RepositoryParts {
    /// `git@<host>:<org>/<name>.git`.
    pub fn ssh_url(&self) -> (r: String)
        ensures
            r@ == ssh_url_of(self@),
    {
        let mut s = String::new();
        push_text(&mut s, "git@");
        push_text(&mut s, self.host.as_str());
        push_char(&mut s, ':');
        push_text(&mut s, self.org.as_str());
        push_char(&mut s, '/');
        push_text(&mut s, self.name.as_str());
        push_text(&mut s, ".git");
        proof {
            reveal_strlit("git@");
            reveal_strlit(".git");
            assert(s@ =~= ssh_url_of(self@));
        }
        s
    }

    /// The canonical URL: the SSH URL for SSH parts, otherwise
    /// `<scheme>://<host>/<org>/<name>`.
    pub fn canonical_url(&self) -> (r: String)
        ensures
            r@ == canonical_url_of(self@),
    {
        match self.transport {
            RepositoryTransport::Ssh => self.ssh_url(),
            RepositoryTransport::Http => {
                let mut s = String::new();
                push_text(&mut s, "http://");
                push_text(&mut s, self.host.as_str());
                push_char(&mut s, '/');
                push_text(&mut s, self.org.as_str());
                push_char(&mut s, '/');
                push_text(&mut s, self.name.as_str());
                proof {
                    reveal_strlit("http://");
                    assert(s@ =~= canonical_url_of(self@));
                }
                s
            },
            RepositoryTransport::Https => {
                let mut s = String::new();
                push_text(&mut s, "https://");
                push_text(&mut s, self.host.as_str());
                push_char(&mut s, '/');
                push_text(&mut s, self.org.as_str());
                push_char(&mut s, '/');
                push_text(&mut s, self.name.as_str());
                proof {
                    reveal_strlit("https://");
                    assert(s@ =~= canonical_url_of(self@));
                }
                s
            },
        }
    }
}

} // verus!

verus! {

/// The repository parts that a parsed HTTP(S) URL names (see `parts_from_url`).
pub fn repository_parts_from_url(c: &UrlComponents) -> (r: Result<RepositoryParts, RepositoryUrlError>)
    ensures
        match r {
            Ok(p) => parts_from_url(c@.0, c@.1, c@.2) == Some(p@),
            Err(e) => parts_from_url(c@.0, c@.1, c@.2) is None && e == RepositoryUrlError::Unsupported,
        },
{
    proof {
        reveal_strlit("http");
        reveal_strlit("https");
    }
    let is_http = same_text(c.scheme.as_str(), "http");
    let is_https = same_text(c.scheme.as_str(), "https");
    assert("http"@ =~= http_scheme());
    assert("https"@ =~= https_scheme());
    if !is_http && !is_https {
        return Err(RepositoryUrlError::Unsupported);
    }
    let host = match &c.host {
        Some(h) => h.clone(),
        None => return Err(RepositoryUrlError::Unsupported),
    };
    let segments = match &c.segments {
        Some(v) => v,
        None => return Err(RepositoryUrlError::Unsupported),
    };
    let (a, b) = match first_two_nonempty(segments) {
        Some(ab) => ab,
        None => return Err(RepositoryUrlError::Unsupported),
    };
    let name_chars = chars_of(segments[b].as_str());
    let end = trim_git_suffixes_len(&name_chars);
    if end == 0 {
        return Err(RepositoryUrlError::Unsupported);
    }
    let name = string_of(&sub_chars(&name_chars, 0, end));
    let org = segments[a].clone();
    let transport = if is_http {
        RepositoryTransport::Http
    } else {
        RepositoryTransport::Https
    };
    Ok(RepositoryParts { transport, host, org, name })
}

/// Parts as a URL yields them: a non-empty host that holds no `/` and does not
/// begin with `:`, a non-empty org and name that hold no `/`, and, unless read
/// from an SSH URL, a name that does not end with `.git`.
pub open spec fn parts_well_formed(p: RepositoryPartsView) -> bool {
    &&& p.host.len() > 0 && crate::text::lacks(p.host, '/') && p.host[0] != ':'
    &&& p.org.len() > 0 && crate::text::lacks(p.org, '/')
    &&& p.name.len() > 0 && crate::text::lacks(p.name, '/')
    &&& p.transport != RepositoryTransport::Ssh ==> !crate::text::ends_with(p.name, dot_git())
}

/// Splits a repository URL into its parts (see `repository_parts_of`). The
/// parts are well formed, and a text that begins with `git@` (once trimmed)
/// gives SSH parts or none.
pub fn parse_repository_parts(repository: &str) -> (r: Result<RepositoryParts, RepositoryUrlError>)
    ensures
        match r {
            Ok(p) => repository_parts_of(repository@) == Some(p@),
            Err(e) => repository_parts_of(repository@) is None && e == RepositoryUrlError::Unsupported,
        },
        r matches Ok(p) ==> parts_well_formed(p@),
        crate::text::starts_with(crate::text::trim(repository@), git_at()) ==> (r matches Ok(p)
            ==> p@.transport == RepositoryTransport::Ssh),
{
    let t = trim_text(repository);
    match split_ssh(&t) {
        Some((k, m)) => {
            assert(m + 5 <= t.len());
            let host = string_of(&sub_chars(&t, 4, k));
            let org = string_of(&sub_chars(&t, k + 1, m));
            let name = string_of(&sub_chars(&t, m + 1, t.len() - 4));
            proof {
                lemma_ssh_parts_of_form(t@, host@, org@, name@);
                lemma_git_url_layout(t@, host@, org@, name@);
            }
            Ok(RepositoryParts { transport: RepositoryTransport::Ssh, host, org, name })
        },
        None => {
            let text = string_of(&t);
            match parse_url_components(text.as_str()) {
                Some(c) => {
                    let r = repository_parts_from_url(&c);
                    proof {
                        if r is Ok {
                            lemma_url_parts_well_formed(c@.0, c@.1, c@.2);
                        }
                    }
                    r
                },
                None => Err(RepositoryUrlError::Unsupported),
            }
        },
    }
}

/// The canonical URL of a repository URL (see `canonical_url_of`).
pub fn parse_repository(repository: &str) -> (r: Result<String, RepositoryUrlError>)
    ensures
        match r {
            Ok(s) => repository_parts_of(repository@) matches Some(p) && s@ == canonical_url_of(p),
            Err(e) => repository_parts_of(repository@) is None && e == RepositoryUrlError::Unsupported,
        },
{
    match parse_repository_parts(repository) {
        Ok(p) => Ok(p.canonical_url()),
        Err(e) => Err(e),
    }
}

/// Accepts exactly the repository URLs that `parse_repository` accepts.
pub fn validate_repository(repository: &str) -> (r: Result<(), RepositoryUrlError>)
    ensures
        r is Ok <==> repository_parts_of(repository@) is Some,
        r matches Err(e) ==> e == RepositoryUrlError::Unsupported,
{
    match parse_repository(repository) {
        Ok(_) => Ok(()),
        Err(e) => Err(e),
    }
}

/// The SSH URL of a repository URL (see `ssh_url_of`). What it gives is an
/// SSH repository URL that converts and parses to itself.
pub fn convert_to_ssh(repository: &str) -> (r: Result<String, RepositoryUrlError>)
    ensures
        match r {
            Ok(s) => repository_parts_of(repository@) matches Some(p) && s@ == ssh_url_of(p),
            Err(e) => repository_parts_of(repository@) is None && e == RepositoryUrlError::Unsupported,
        },
        r matches Ok(x) ==> {
            &&& crate::text::starts_with(x@, git_at())
            &&& crate::text::ends_with(x@, dot_git())
            &&& repository_parts_of(x@) matches Some(q)
            &&& q.transport == RepositoryTransport::Ssh
            &&& ssh_url_of(q) == x@
            &&& canonical_url_of(q) == x@
        },
{
    match parse_repository_parts(repository) {
        Ok(p) => {
            let x = p.ssh_url();
            proof {
                lemma_ssh_url_reads_back(p@);
                let u = x@;
                assert(u.subrange(0, 4) =~= git_at());
                assert(u.subrange(u.len() - 4, u.len() as int) =~= dot_git());
            }
            Ok(x)
        },
        Err(e) => Err(e),
    }
}

impl RepositoryUrlError {
    /// The two supported URL forms, as shown in the error message.
    pub fn supported_formats() -> (r: (&'static str, &'static str))
        ensures
            r.0@ == "git@<host>:<org>/<repo>.git"@,
            r.1@ == "http[s]://<host>/<org>/<repo>[/...]"@,
    {
        ("git@<host>:<org>/<repo>.git", "http[s]://<host>/<org>/<repo>[/...]")
    }

    /// The error message; the two formats are shown in bold where `styled`
    /// (as `console::style(..).bold()` shows them when colours are enabled).
    pub fn message(&self, styled: bool) -> (r: String)
        ensures
            r@ == "Unsupported repository URL. Supported formats: ["@ + bold_of(
                "git@<host>:<org>/<repo>.git"@,
                styled,
            ) + ", "@ + bold_of("http[s]://<host>/<org>/<repo>[/...]"@, styled) + "]"@,
    {
        let (ssh, http) = Self::supported_formats();
        let mut s = String::new();
        push_text(&mut s, "Unsupported repository URL. Supported formats: [");
        push_text(&mut s, bold(ssh, styled).as_str());
        push_text(&mut s, ", ");
        push_text(&mut s, bold(http, styled).as_str());
        push_text(&mut s, "]");
        s
    }
}

/// `s` in bold: between the ANSI codes `ESC[1m` and `ESC[0m` where styled,
/// unchanged otherwise.
pub open spec fn bold_of(s: Seq<char>, styled: bool) -> Seq<char> {
    if styled {
        seq!['\u{1b}', '[', '1', 'm'] + s + seq!['\u{1b}', '[', '0', 'm']
    } else {
        s
    }
}

/// Renders `console::style(s).bold()` with styling forced on or off
/// (`StyledObject::force_styling`). The contract claims what console's
/// `Display` for a styled object writes: the bold code `ESC[1m`, the text and
/// the reset code `ESC[0m` when styled, the bare text otherwise.
#[verifier::external_body]
fn bold(s: &str, styled: bool) -> (r: String)
    ensures
        r@ == bold_of(s@, styled),
{
    console::style(s).bold().force_styling(styled).to_string()
}

} // verus!

verus! {

/// Text that begins and ends with a character that is not white space is its
/// own trim.
proof fn lemma_trim_unchanged(s: Seq<char>)
    requires
        s.len() > 0,
        !crate::text::is_white(s[0]),
        !crate::text::is_white(s[s.len() - 1]),
    ensures
        crate::text::trim(s) == s,
{
    assert(crate::text::skip_white(s, 0) == 0);
    assert(crate::text::skip_white_back(s, 0, s.len() as int) == s.len());
    assert(s.subrange(0, s.len() as int) =~= s);
}

/// Parts whose SSH URL is itself an SSH repository URL with the same parts:
/// the host is not empty and holds neither `/` nor `:`, and org and name hold
/// no `/`.
pub open spec fn ssh_url_compatible(p: RepositoryPartsView) -> bool {
    &&& p.host.len() > 0
    &&& crate::text::lacks(p.host, '/')
    &&& crate::text::lacks(p.host, ':')
    &&& crate::text::lacks(p.org, '/')
    &&& crate::text::lacks(p.name, '/')
}

/// Every repository that `repository_parts_of` yields has a non-empty org and name.
pub proof fn lemma_parts_nonempty(input: Seq<char>)
    requires
        repository_parts_of(input) is Some,
    ensures
        repository_parts_of(input).unwrap().org.len() > 0,
        repository_parts_of(input).unwrap().name.len() > 0,
{
    let t = crate::text::trim(input);
    match ssh_parts(t) {
        Some((h, o, n)) => {
            let w = choose|h: Seq<char>, o: Seq<char>, n: Seq<char>| ssh_form(t, h, o, n);
            assert(ssh_form(t, w.0, w.1, w.2));
        },
        None => {
            let (s, h, segs) = url_components(t).unwrap();
            lemma_nonempty_segments_are_nonempty(segs.unwrap());
            assert(nonempty_segments(segs.unwrap())[0].len() > 0);
        },
    }
}

proof fn lemma_nonempty_segments_are_nonempty(segs: Seq<Seq<char>>)
    ensures
        forall|i: int|
            0 <= i < nonempty_segments(segs).len() ==> #[trigger] nonempty_segments(segs)[i].len()
                > 0,
    decreases segs.len(),
{
    if segs.len() > 0 {
        lemma_nonempty_segments_are_nonempty(segs.drop_last());
        let prev = nonempty_segments(segs.drop_last());
        if segs.last().len() > 0 {
            assert forall|i: int| 0 <= i < prev.len() + 1 implies #[trigger] prev.push(
                segs.last(),
            )[i].len() > 0 by {
                if i < prev.len() {
                    assert(prev[i].len() > 0);
                }
            }
        }
    }
}

/// SSH parts always meet `ssh_url_compatible`.
pub proof fn lemma_ssh_parts_compatible(input: Seq<char>)
    requires
        repository_parts_of(input) matches Some(p) && p.transport == RepositoryTransport::Ssh,
    ensures
        ssh_url_compatible(repository_parts_of(input).unwrap()),
        ssh_form(
            crate::text::trim(input),
            repository_parts_of(input).unwrap().host,
            repository_parts_of(input).unwrap().org,
            repository_parts_of(input).unwrap().name,
        ),
{
    let t = crate::text::trim(input);
    if ssh_parts(t) is None {
        let (s, h, segs) = url_components(t).unwrap();
        assert(parts_from_url(s, h, segs).unwrap().transport != RepositoryTransport::Ssh);
    }
    let w = choose|h: Seq<char>, o: Seq<char>, n: Seq<char>| ssh_form(t, h, o, n);
    assert(ssh_form(t, w.0, w.1, w.2));
}

/// Law: turning a repository URL into its SSH URL and parsing that again gives
/// back the same host, org and name, now over SSH (for parts whose SSH URL is
/// well formed; it always is for SSH input).
pub proof fn law_ssh_url_round_trip(input: Seq<char>)
    requires
        repository_parts_of(input) matches Some(p) && ssh_url_compatible(p),
    ensures
        repository_parts_of(ssh_url_of(repository_parts_of(input).unwrap())) == Some(
            RepositoryPartsView {
                transport: RepositoryTransport::Ssh,
                host: repository_parts_of(input).unwrap().host,
                org: repository_parts_of(input).unwrap().org,
                name: repository_parts_of(input).unwrap().name,
            },
        ),
{
    let p = repository_parts_of(input).unwrap();
    lemma_parts_nonempty(input);
    let u = ssh_url_of(p);
    assert(u[0] == 'g');
    assert(u[u.len() - 1] == 't');
    lemma_trim_unchanged(u);
    assert(ssh_form(u, p.host, p.org, p.name));
    lemma_ssh_parts_of_form(u, p.host, p.org, p.name);
}

/// Law: `convert_to_ssh` is idempotent: the SSH URL of an SSH URL is itself,
/// and `parse_repository` hands it back unchanged. (`parse_repository_parts`
/// ensures that every repository URL it accepts has well-formed parts, and
/// `convert_to_ssh` states this law of its own result.)
pub proof fn law_convert_to_ssh_idempotent(input: Seq<char>)
    requires
        repository_parts_of(input) matches Some(p) && parts_well_formed(p),
    ensures
        repository_parts_of(ssh_url_of(repository_parts_of(input).unwrap())) matches Some(q)
            && ssh_url_of(q) == ssh_url_of(repository_parts_of(input).unwrap())
            && canonical_url_of(q) == ssh_url_of(repository_parts_of(input).unwrap()),
{
    lemma_ssh_url_reads_back(repository_parts_of(input).unwrap());
}

/// Law: `parse_repository` hands an SSH repository URL back unchanged, apart
/// from surrounding white space.
pub proof fn law_ssh_url_preserved(input: Seq<char>)
    requires
        ssh_parts(crate::text::trim(input)) is Some,
    ensures
        repository_parts_of(input) matches Some(p) && canonical_url_of(p) == crate::text::trim(
            input,
        ),
{
    let t = crate::text::trim(input);
    let w = choose|h: Seq<char>, o: Seq<char>, n: Seq<char>| ssh_form(t, h, o, n);
    assert(ssh_form(t, w.0, w.1, w.2));
}

/// Law: `parse_repository` is idempotent on SSH repository URLs: parsing the
/// canonical URL gives the same parts again.
pub proof fn law_parse_repository_idempotent_ssh(input: Seq<char>)
    requires
        repository_parts_of(input) matches Some(p) && p.transport == RepositoryTransport::Ssh,
    ensures
        repository_parts_of(canonical_url_of(repository_parts_of(input).unwrap())) == repository_parts_of(input),
{
    lemma_ssh_parts_compatible(input);
    law_ssh_url_round_trip(input);
}

/// `trim_git_suffixes` keeps a prefix of its text, and that prefix does not
/// end with `.git`.
proof fn lemma_trim_git_suffixes(s: Seq<char>)
    ensures
        trim_git_suffixes(s).len() <= s.len(),
        trim_git_suffixes(s) == s.subrange(0, trim_git_suffixes(s).len() as int),
        !crate::text::ends_with(trim_git_suffixes(s), dot_git()),
    decreases s.len(),
{
    if s.len() >= 4 && s.subrange(s.len() - 4, s.len() as int) == dot_git() {
        let u = s.subrange(0, s.len() - 4);
        lemma_trim_git_suffixes(u);
        assert(trim_git_suffixes(s) == trim_git_suffixes(u));
        assert(u.subrange(0, trim_git_suffixes(u).len() as int) =~= s.subrange(
            0,
            trim_git_suffixes(u).len() as int,
        ));
    } else {
        assert(s.subrange(0, s.len() as int) =~= s);
        if crate::text::ends_with(s, dot_git()) {
            assert(s.subrange(s.len() - 4, s.len() as int) =~= s.subrange(
                s.len() - 4,
                s.len() - 4 + 4,
            ));
        }
    }
}

/// Every segment that `nonempty_segments` keeps is one of the segments.
proof fn lemma_nonempty_segments_from(segs: Seq<Seq<char>>)
    ensures
        forall|i: int|
            0 <= i < nonempty_segments(segs).len() ==> segs.contains(
                #[trigger] nonempty_segments(segs)[i],
            ),
    decreases segs.len(),
{
    if segs.len() > 0 {
        let init = segs.drop_last();
        lemma_nonempty_segments_from(init);
        let prev = nonempty_segments(init);
        assert forall|i: int| 0 <= i < nonempty_segments(segs).len() implies segs.contains(
            #[trigger] nonempty_segments(segs)[i],
        ) by {
            if i < prev.len() {
                assert(init.contains(prev[i]));
                let j = choose|j: int| 0 <= j < init.len() && init[j] == prev[i];
                assert(segs[j] == init[j]);
            } else {
                assert(segs[segs.len() - 1] == segs.last());
            }
            if segs.last().len() > 0 {
                assert(nonempty_segments(segs) == prev.push(segs.last()));
            } else {
                assert(nonempty_segments(segs) == prev);
            }
        }
    }
}

/// What an HTTP(S) URL yields is well formed, given the host and segment
/// facts of the URL parser.
proof fn lemma_url_parts_well_formed(
    scheme: Seq<char>,
    host: Option<Seq<char>>,
    segments: Option<Seq<Seq<char>>>,
)
    requires
        parts_from_url(scheme, host, segments) is Some,
        host matches Some(h) && h.len() > 0 && crate::text::lacks(h, '/') && h[0] != ':',
        segments matches Some(v) && forall|i: int|
            0 <= i < v.len() ==> crate::text::lacks(#[trigger] v[i], '/'),
    ensures
        parts_well_formed(parts_from_url(scheme, host, segments).unwrap()),
{
    let segs = segments.unwrap();
    let kept = nonempty_segments(segs);
    lemma_nonempty_segments_from(segs);
    lemma_nonempty_segments_are_nonempty(segs);
    assert(segs.contains(kept[0]));
    assert(segs.contains(kept[1]));
    let a = choose|j: int| 0 <= j < segs.len() && segs[j] == kept[0];
    let b = choose|j: int| 0 <= j < segs.len() && segs[j] == kept[1];
    assert(crate::text::lacks(segs[a], '/'));
    assert(crate::text::lacks(segs[b], '/'));
    assert(kept[0].len() > 0);
    lemma_trim_git_suffixes(kept[1]);
    let n = trim_git_suffixes(kept[1]);
    assert forall|i: int| 0 <= i < n.len() implies n[i] != '/' by {
        assert(n[i] == kept[1][i]);
    }
}

/// `index_of_or_len` stops at the first `c` from `i` on, or at the end.
proof fn lemma_index_of_or_len_first(s: Seq<char>, c: char, i: int)
    requires
        0 <= i <= s.len(),
    ensures
        i <= crate::text::index_of_or_len(s, c, i) <= s.len(),
        forall|j: int| i <= j < crate::text::index_of_or_len(s, c, i) ==> s[j] != c,
        crate::text::index_of_or_len(s, c, i) < s.len() ==> s[crate::text::index_of_or_len(s, c, i)] == c,
    decreases s.len() - i,
{
    if i < s.len() && s[i] != c {
        lemma_index_of_or_len_first(s, c, i + 1);
    }
}

/// The SSH URL of well-formed parts reads back as SSH parts with the same SSH
/// URL. (Where the host holds a `:`, as an IPv6 address does, the host read
/// back ends at that `:`, and the rest moves to the org; the URL is the same.)
pub proof fn lemma_ssh_url_reads_back(p: RepositoryPartsView)
    requires
        parts_well_formed(p),
    ensures
        repository_parts_of(ssh_url_of(p)) matches Some(q) && q.transport
            == RepositoryTransport::Ssh && ssh_url_of(q) == ssh_url_of(p) && canonical_url_of(q)
            == ssh_url_of(p),
{
    let u = ssh_url_of(p);
    let h = p.host;
    let o = p.org;
    let n = p.name;
    assert(u[0] == 'g');
    assert(u[u.len() - 1] == 't');
    lemma_trim_unchanged(u);
    if crate::text::lacks(h, ':') {
        assert(ssh_form(u, h, o, n));
    } else {
        lemma_index_of_or_len_first(h, ':', 0);
        let k = crate::text::index_of_or_len(h, ':', 0);
        if k == h.len() {
            assert(crate::text::lacks(h, ':'));
        }
        assert(k > 0);
        let h1 = h.subrange(0, k);
        let rest = h.subrange(k + 1, h.len() as int);
        let o1 = rest + seq![':'] + o;
        assert(h =~= h1 + seq![':'] + rest);
        assert(u =~= git_at() + h1 + seq![':'] + o1 + seq!['/'] + n + dot_git());
        assert forall|j: int| 0 <= j < o1.len() implies o1[j] != '/' by {
            if j < rest.len() {
                assert(o1[j] == h[k + 1 + j]);
            } else if j > rest.len() {
                assert(o1[j] == o[j - rest.len() - 1]);
            }
        }
        assert(ssh_form(u, h1, o1, n));
    }
    let w = choose|h2: Seq<char>, o2: Seq<char>, n2: Seq<char>| ssh_form(u, h2, o2, n2);
    assert(ssh_form(u, w.0, w.1, w.2));
}

} // verus!
