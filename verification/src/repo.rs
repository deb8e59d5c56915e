//! A repository named by an SSH URL (`git@<host>:<org>/<name>.git`), and the
//! choice of an IDE from the languages that the repository's host reports.

use vstd::prelude::*;
use vstd::string::*;
use crate::text::{chars_of, push_char, push_text};


verus! {

/// A repository reached over SSH.
#[derive(Debug)]
pub struct Repo<'a> {
    pub username: &'a str,
    pub host: &'a str,
    pub org: &'a str,
    pub name: &'a str,
}

/// The repository URL was not of the form `git@<host>:<org>/<name>.git`.
#[derive(Debug, Clone)]
pub struct InvalidRepositoryUrl {
    pub url: String,
}

impl InvalidRepositoryUrl {
    /// `Invalid repository URL: <url>`.
    pub fn message(&self) -> (r: String)
        ensures
            r@ == "Invalid repository URL: "@ + self.url@,
    {
        let mut s = String::new();
        push_text(&mut s, "Invalid repository URL: ");
        push_text(&mut s, self.url.as_str());
        s
    }
}

/// `t` is `git@<host>:<org>/<name>.git` where `host` holds no `:`, `org` holds
/// no `/`, `name` holds no line feed, and none of them is empty.
pub open spec fn repo_form(t: Seq<char>, host: Seq<char>, org: Seq<char>, name: Seq<char>) -> bool {
    &&& t == crate::repository::git_at() + host + seq![':'] + org + seq!['/'] + name
        + crate::repository::dot_git()
    &&& host.len() > 0 && crate::text::lacks(host, ':')
    &&& org.len() > 0 && crate::text::lacks(org, '/')
    &&& name.len() > 0 && crate::text::lacks(name, '\n')
}

proof fn lemma_repo_layout(t: Seq<char>, h: Seq<char>, o: Seq<char>, n: Seq<char>)
    requires
        repo_form(t, h, o, n),
    ensures
        t.len() == h.len() + o.len() + n.len() + 10,
        t[0] == 'g' && t[1] == 'i' && t[2] == 't' && t[3] == '@',
        forall|j: int| 0 <= j < h.len() ==> t[4 + j] == h[j],
        t[4 + (h.len() as int)] == ':',
        forall|j: int| 0 <= j < o.len() ==> t[5 + (h.len() as int) + j] == o[j],
        t[5 + (h.len() as int) + (o.len() as int)] == '/',
        forall|j: int|
            0 <= j < n.len() ==> t[6 + (h.len() as int) + (o.len() as int) + j] == n[j],
        t[t.len() - 4] == '.' && t[t.len() - 3] == 'g' && t[t.len() - 2] == 'i' && t[t.len()
            - 1] == 't',
{
    crate::repository::lemma_git_url_layout(t, h, o, n);
    let head = t.subrange(0, 4);
    let tail = t.subrange(t.len() - 4, t.len() as int);
    assert(t[0] == head[0] && t[1] == head[1] && t[2] == head[2] && t[3] == head[3]);
    assert(t[t.len() - 4] == tail[0] && t[t.len() - 3] == tail[1]);
    assert(t[t.len() - 2] == tail[2] && t[t.len() - 1] == tail[3]);
}

/// In a repository URL the host ends at the first `:` after `git@`.
proof fn lemma_repo_host_end(t: Seq<char>, k: int, h: Seq<char>, o: Seq<char>, n: Seq<char>)
    requires
        repo_form(t, h, o, n),
        4 <= k <= t.len(),
        forall|j: int| 4 <= j < k ==> t[j] != ':',
        k == t.len() || t[k] == ':',
    ensures
        k == 4 + h.len(),
{
    lemma_repo_layout(t, h, o, n);
    let hl = h.len() as int;
    if 4 + hl < k {
        assert(t[4 + hl] == ':');
    } else if k < 4 + hl {
        assert(t[k] == h[k - 4]);
    }
}

/// In a repository URL the org ends at the first `/` after the host.
#[verifier::spinoff_prover]
proof fn lemma_repo_org_end(t: Seq<char>, k: int, m: int, h: Seq<char>, o: Seq<char>, n: Seq<char>)
    requires
        repo_form(t, h, o, n),
        k == 4 + h.len(),
        k < m <= t.len(),
        forall|j: int| k < j < m ==> t[j] != '/',
        m == t.len() || t[m] == '/',
    ensures
        m == 5 + h.len() + o.len(),
        t.len() - m >= 6,
{
    lemma_repo_layout(t, h, o, n);
    let hl = h.len() as int;
    let ol = o.len() as int;
    if 5 + hl + ol < m {
        assert(t[5 + hl + ol] == '/');
    } else if m < 5 + hl + ol {
        assert(t[m] == o[m - 5 - hl]);
    }
}

/// The name of a repository URL holds no line feed.
proof fn lemma_repo_name_line(t: Seq<char>, m: int, h: Seq<char>, o: Seq<char>, n: Seq<char>)
    requires
        repo_form(t, h, o, n),
        m == 5 + h.len() + o.len(),
    ensures
        forall|j: int| m < j < t.len() - 4 ==> t[j] != '\n',
{
    lemma_repo_layout(t, h, o, n);
    let hl = h.len() as int;
    let ol = o.len() as int;
    assert forall|j: int| m < j < t.len() - 4 implies t[j] != '\n' by {
        assert(t[j] == n[j - 6 - hl - ol]);
    }
}

/// The parts of a repository URL stand at fixed places in it.
proof fn lemma_repo_parts_in_place(t: Seq<char>, h: Seq<char>, o: Seq<char>, n: Seq<char>)
    requires
        repo_form(t, h, o, n),
    ensures
        h == t.subrange(4, 4 + (h.len() as int)),
        o == t.subrange(5 + (h.len() as int), 5 + (h.len() as int) + (o.len() as int)),
        n == t.subrange(6 + (h.len() as int) + (o.len() as int), t.len() - 4),
        t[4 + (h.len() as int)] == ':',
        t[5 + (h.len() as int) + (o.len() as int)] == '/',
{
    lemma_repo_layout(t, h, o, n);
    assert(h =~= t.subrange(4, 4 + (h.len() as int)));
    assert(o =~= t.subrange(5 + (h.len() as int), 5 + (h.len() as int) + (o.len() as int)));
    assert(n =~= t.subrange(6 + (h.len() as int) + (o.len() as int), t.len() - 4));
}

/// A repository URL names one host, one org and one name: reading a URL gives
/// back the parts it was written from.
pub proof fn law_repo_form_unique(
    t: Seq<char>,
    h1: Seq<char>,
    o1: Seq<char>,
    n1: Seq<char>,
    h2: Seq<char>,
    o2: Seq<char>,
    n2: Seq<char>,
)
    requires
        repo_form(t, h1, o1, n1),
        repo_form(t, h2, o2, n2),
    ensures
        h1 == h2,
        o1 == o2,
        n1 == n2,
{
    lemma_repo_parts_in_place(t, h1, o1, n1);
    lemma_repo_parts_in_place(t, h2, o2, n2);
    let k: int = 4 + (h1.len() as int);
    assert forall|j: int| 4 <= j < k implies t[j] != ':' by {
        assert(t[j] == h1[j - 4]);
    }
    lemma_repo_host_end(t, k, h2, o2, n2);
    let m: int = 5 + (h1.len() as int) + (o1.len() as int);
    assert forall|j: int| k < j < m implies t[j] != '/' by {
        assert(t[j] == o1[j - k - 1]);
    }
    lemma_repo_org_end(t, k, m, h2, o2, n2);
}

impl<'a> Repo<'a> {
    /// Reads a repository from its SSH URL; the username is always `git`.
    pub fn parse(url: &'a str) -> (r: Result<Repo<'a>, InvalidRepositoryUrl>)
        ensures
            match r {
                Ok(repo) => repo.username@ == "git"@ && repo_form(
                    url@,
                    repo.host@,
                    repo.org@,
                    repo.name@,
                ),
                Err(e) => e.url@ == url@ && forall|h: Seq<char>, o: Seq<char>, n: Seq<char>|
                    !repo_form(url@, h, o, n),
            },
    {
        let t = chars_of(url);
        let len = t.len();
        let ghost tv = t@;
        if len < 4 || t[0] != 'g' || t[1] != 'i' || t[2] != 't' || t[3] != '@' {
            proof {
                assert forall|h: Seq<char>, o: Seq<char>, n: Seq<char>| !repo_form(tv, h, o, n) by {
                    if repo_form(tv, h, o, n) {
                        lemma_repo_layout(tv, h, o, n);
                    }
                }
            }
            return Err(InvalidRepositoryUrl { url: url.to_owned() });
        }
        let k = crate::text::scan_until(&t, 4, ':', ':');
        if k == len || k == 4 {
            proof {
                assert forall|h: Seq<char>, o: Seq<char>, n: Seq<char>| !repo_form(tv, h, o, n) by {
                    if repo_form(tv, h, o, n) {
                        lemma_repo_layout(tv, h, o, n);
                        lemma_repo_host_end(tv, k as int, h, o, n);
                    }
                }
            }
            return Err(InvalidRepositoryUrl { url: url.to_owned() });
        }
        let m = crate::text::scan_until(&t, k + 1, '/', '/');
        let ok = m > k + 1 && m < len && len - m >= 6 && t[len - 4] == '.' && t[len - 3] == 'g'
            && t[len - 2] == 'i' && t[len - 1] == 't';
        if !ok {
            proof {
                assert forall|h: Seq<char>, o: Seq<char>, n: Seq<char>| !repo_form(tv, h, o, n) by {
                    if repo_form(tv, h, o, n) {
                        lemma_repo_layout(tv, h, o, n);
                        lemma_repo_host_end(tv, k as int, h, o, n);
                        lemma_repo_org_end(tv, k as int, m as int, h, o, n);
                        lemma_repo_name_line(tv, m as int, h, o, n);
                    }
                }
            }
            return Err(InvalidRepositoryUrl { url: url.to_owned() });
        }
        let p = crate::text::scan_until(&t, m + 1, '\n', '\n');
        if p < len - 4 {
            proof {
                assert forall|h: Seq<char>, o: Seq<char>, n: Seq<char>| !repo_form(tv, h, o, n) by {
                    if repo_form(tv, h, o, n) {
                        lemma_repo_host_end(tv, k as int, h, o, n);
                        lemma_repo_org_end(tv, k as int, m as int, h, o, n);
                        lemma_repo_name_line(tv, m as int, h, o, n);
                    }
                }
            }
            return Err(InvalidRepositoryUrl { url: url.to_owned() });
        }
        let host = url.substring_char(4, k);
        let org = url.substring_char(k + 1, m);
        let name = url.substring_char(m + 1, len - 4);
        proof {
            reveal_strlit("git");
            assert(tv =~= crate::repository::git_at() + host@ + seq![':'] + org@ + seq!['/'] + name@
                + crate::repository::dot_git());
        }
        Ok(Repo { username: "git", host, org, name })
    }

    /// `<host>/<org>/<name>`.
    pub fn short_format(&self) -> (r: String)
        ensures
            r@ == self.host@ + seq!['/'] + self.org@ + seq!['/'] + self.name@,
    {
        let mut s = String::new();
        push_text(&mut s, self.host);
        push_char(&mut s, '/');
        push_text(&mut s, self.org);
        push_char(&mut s, '/');
        push_text(&mut s, self.name);
        s
    }
}

} // verus!

verus! {

/// `str::to_lowercase`. (Named, not defined: Unicode lower-casing.)
pub uninterp spec fn lowercase(s: Seq<char>) -> Seq<char>;

/// Calls `str::to_lowercase`. The contract claims that the result is the named
/// `lowercase`.
#[verifier::external_body]
fn to_lowercase(s: &str) -> (r: String)
    ensures
        r@ == lowercase(s@),
{
    s.to_lowercase()
}

/// The languages of a repository as the host reports them: each with its
/// size in bytes, keyed by size (a later language with the same size replaces
/// an earlier one), names in lower case.
pub open spec fn reported_last(langs: Seq<(Seq<char>, i64)>, i: int) -> bool {
    forall|j: int| i < j < langs.len() ==> #[trigger] langs[j].1 != langs[i].1
}

/// The `i`-th reported language is kept for its size and has an IDE.
pub open spec fn ide_candidate(langs: Seq<(Seq<char>, i64)>, i: int) -> bool {
    &&& 0 <= i < langs.len()
    &&& reported_last(langs, i)
    &&& crate::ides::ide_for_language(lowercase(langs[i].0)) is Some
}

/// The IDE for a repository: that of its largest language (by bytes) that has
/// one, if any.
pub open spec fn ide_for_languages_of(langs: Seq<(Seq<char>, i64)>) -> Option<Seq<char>> {
    if exists|i: int| ide_candidate(langs, i) {
        let i = choose|i: int|
            ide_candidate(langs, i) && forall|j: int| ide_candidate(langs, j) ==> langs[j].1 <= langs[i].1;
        crate::ides::ide_for_language(lowercase(langs[i].0))
    } else {
        None
    }
}

pub open spec fn languages_view(v: Seq<(String, i64)>) -> Seq<(Seq<char>, i64)> {
    v.map_values(|p: (String, i64)| (p.0@, p.1))
}

/// Picks the IDE for a repository from the languages its host reports, as
/// `(name, bytes)` pairs in the order reported (see `ide_for_languages_of`).
pub fn ide_for_languages(languages: &Vec<(String, i64)>) -> (r: Option<&'static str>)
    ensures
        crate::label::option_str_view(r) == ide_for_languages_of(languages_view(languages@)),
{
    let ghost ls = languages_view(languages@);
    let n = languages.len();
    let mut best: Option<(usize, &'static str)> = None;
    let mut i: usize = 0;
    while i < n
        invariant
            n == languages@.len(),
            ls == languages_view(languages@),
            i <= n,
            match best {
                Some((b, ide)) => {
                    &&& b < i
                    &&& ide_candidate(ls, b as int)
                    &&& crate::ides::ide_for_language(lowercase(ls[b as int].0)) == Some(ide@)
                    &&& forall|j: int| 0 <= j < i && #[trigger] ide_candidate(ls, j) ==> ls[j].1 <= ls[b as int].1
                },
                None => forall|j: int| 0 <= j < i ==> !#[trigger] ide_candidate(ls, j),
            },
        decreases n - i,
    {
        let mut last = true;
        let mut j: usize = i + 1;
        while j < n
            invariant
                n == languages@.len(),
                ls == languages_view(languages@),
                i < n,
                i + 1 <= j <= n,
                last == forall|q: int| i < q < j ==> #[trigger] ls[q].1 != ls[i as int].1,
            decreases n - j,
        {
            assert(ls[j as int].1 == languages@[j as int].1);
            assert(ls[i as int].1 == languages@[i as int].1);
            if languages[j].1 == languages[i].1 {
                last = false;
            }
            j = j + 1;
        }
        if last {
            let lowered = to_lowercase(languages[i].0.as_str());
            if let Some(ide) = crate::ides::get(lowered.as_str()) {
                let better = match best {
                    None => true,
                    Some((b, _)) => languages[i].1 > languages[b].1,
                };
                if better {
                    proof {
                        if let Some((b, _)) = best {
                            assert forall|q: int| 0 <= q < i + 1 && #[trigger] ide_candidate(ls, q) implies ls[q].1 <= ls[i as int].1 by {
                                if q < i {
                                    assert(ls[q].1 <= ls[b as int].1);
                                }
                            }
                        }
                    }
                    best = Some((i, ide));
                } else {
                    proof {
                        let (b, _) = best.unwrap();
                        if ls[i as int].1 == ls[b as int].1 {
                            assert(ls[i as int].1 != ls[b as int].1);
                        }
                    }
                }
            }
        }
        i = i + 1;
    }
    match best {
        None => None,
        Some((b, ide)) => {
            proof {
                let c = choose|c: int|
                    ide_candidate(ls, c) && forall|j: int| ide_candidate(ls, j) ==> ls[j].1 <= ls[c].1;
                assert(ide_candidate(ls, b as int) && forall|j: int| ide_candidate(ls, j) ==> ls[j].1 <= ls[b as int].1);
                assert(ls[c].1 == ls[b as int].1);
                if c < b {
                    assert(ls[b as int].1 != ls[c].1);
                } else if b < c {
                    assert(ls[c].1 != ls[b as int].1);
                }
            }
            Some(ide)
        },
    }
}

} // verus!
