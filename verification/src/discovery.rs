//! IDE launcher discovery: the candidates found on `PATH` and in
//! `/Applications`, their deduplication, and the order in which the
//! resulting launchers are listed.

use vstd::prelude::*;
use vstd::string::*;
use crate::ides::{IdeKind, Launcher};
use crate::order::{text_order, TextOrder};
use crate::text::{chars_of, push_char, push_text};

verus! {

/// A launcher found during discovery, before deduplication.
pub struct Candidate {
    pub kind: IdeKind,
    pub launcher_path: String,
    pub app_path: Option<String>,
    /// The position of the `PATH` entry it was found in (`usize::MAX` for
    /// known application bundles).
    pub path_rank: usize,
}

/// The mathematical value of a `Candidate`.
pub struct CandidateView {
    pub kind: IdeKind,
    pub launcher_path: Seq<char>,
    pub app_path: Option<Seq<char>>,
    pub path_rank: nat,
}

impl View for Candidate {
    type V = CandidateView;

    open spec fn view(&self) -> CandidateView {
        CandidateView {
            kind: self.kind,
            launcher_path: self.launcher_path@,
            app_path: crate::repository::option_text_view(self.app_path),
            path_rank: self.path_rank as nat,
        }
    }
}

/// The identity of a candidate: `<IDE name>:<application path>`, or the
/// launcher path where no application is known. Candidates with the same
/// identity are the same IDE installation.
pub open spec fn identity_of(c: CandidateView) -> Seq<char> {
    crate::ides::display_name_of(c.kind) + seq![':'] + match c.app_path {
        Some(p) => p,
        None => c.launcher_path,
    }
}

/// The identity of a candidate (see `identity_of`).
pub fn candidate_identity(candidate: &Candidate) -> (r: String)
    ensures
        r@ == identity_of(candidate@),
{
    let mut s = String::new();
    push_text(&mut s, candidate.kind.display_name());
    push_char(&mut s, ':');
    match &candidate.app_path {
        Some(p) => push_text(&mut s, p.as_str()),
        None => push_text(&mut s, candidate.launcher_path.as_str()),
    }
    s
}

/// Among the first `n` candidates, `w` is the one kept for its identity: it
/// has the lowest path rank, and no earlier candidate with that identity has
/// the same rank.
pub open spec fn kept_among(s: Seq<Candidate>, n: int, w: int) -> bool {
    &&& 0 <= w < n
    &&& forall|j: int|
        0 <= j < n && identity_of(#[trigger] s[j]@) == identity_of(s[w]@) ==> s[j]@.path_rank
            > s[w]@.path_rank || (s[j]@.path_rank == s[w]@.path_rank && w <= j)
}

/// The identities are strictly increasing.
pub open spec fn identities_increasing(out: Seq<Candidate>) -> bool {
    forall|a: int, b: int|
        0 <= a < b < out.len() ==> crate::order::text_less(
            identity_of(#[trigger] out[a]@),
            identity_of(#[trigger] out[b]@),
        )
}

/// `c` is one of the candidates of `s` kept for its identity.
pub open spec fn is_kept(s: Seq<Candidate>, c: Candidate) -> bool {
    exists|w: int| kept_among(s, s.len() as int, w) && s[w] == c
}

/// Some candidate in `out` has identity `id`.
pub open spec fn has_identity(out: Seq<Candidate>, id: Seq<char>) -> bool {
    exists|k: int| 0 <= k < out.len() && identity_of(out[k]@) == id
}

/// `out` deduplicates `s`: one candidate per identity, ordered by identity,
/// each the one kept for its identity.
pub open spec fn deduplicates(s: Seq<Candidate>, out: Seq<Candidate>) -> bool {
    &&& identities_increasing(out)
    &&& forall|k: int| 0 <= k < out.len() ==> is_kept(s, #[trigger] out[k])
    &&& forall|j: int| 0 <= j < s.len() ==> has_identity(out, identity_of(#[trigger] s[j]@))
}

} // verus!

verus! {

/// Keeps one candidate per identity: the one with the lowest path rank (the
/// first of those), and orders the result by identity.
pub fn dedupe_candidates(candidates: Vec<Candidate>) -> (r: Vec<Candidate>)
    ensures
        deduplicates(candidates@, r@),
{
    let ghost s = candidates@;
    let n = candidates.len();
    let mut out: Vec<Candidate> = Vec::new();
    let mut ids: Vec<Vec<char>> = Vec::new();
    let ghost mut w: Seq<int> = Seq::empty();
    let ghost mut cov: Seq<int> = Seq::empty();
    let mut i: usize = 0;
    for c in it: candidates
        invariant
            it.seq() == s,
            s.len() == n,
            i == it.index(),
            out@.len() == ids@.len(),
            out@.len() == w.len(),
            cov.len() == i,
            forall|k: int| 0 <= k < ids@.len() ==> #[trigger] ids@[k]@ == identity_of(out@[k]@),
            identities_increasing(out@),
            forall|k: int|
                0 <= k < out@.len() ==> kept_among(s, i as int, #[trigger] w[k]) && out@[k]
                    == s[w[k]],
            forall|j: int|
                0 <= j < i ==> 0 <= #[trigger] cov[j] < out@.len() && identity_of(out@[cov[j]]@)
                    == identity_of(s[j]@),
    {
        assert(c == s[i as int]);
        let id = chars_of(candidate_identity(&c).as_str());
        let mut k: usize = 0;
        while k < ids.len() && text_order(&ids[k], &id) == TextOrder::Less
            invariant
                k <= ids@.len(),
                forall|q: int| 0 <= q < k ==> crate::order::text_less(#[trigger] ids@[q]@, id@),
            decreases ids@.len() - k,
        {
            k = k + 1;
        }
        let at_end = k == ids.len();
        let ord = if at_end {
            TextOrder::Greater
        } else {
            text_order(&ids[k], &id)
        };
        let ghost old_out = out@;
        let ghost old_ids = ids@;
        let ghost old_w = w;
        let ghost old_cov = cov;
        let ghost ci = identity_of(c@);
        assert(id@ == ci);
        if !at_end && ord == TextOrder::Equal {
            assert(identity_of(old_out[k as int]@) == ci);
            proof {
                assert forall|q: int| 0 <= q < old_out.len() && q != k implies identity_of(
                    #[trigger] old_out[q]@,
                ) != ci by {
                    lemma_increasing_distinct(old_out, q, k as int);
                }
            }
            if c.path_rank < out[k].path_rank {
                out.set(k, c);
                proof {
                    w = w.update(k as int, i as int);
                    assert forall|a: int, b: int| 0 <= a < b < out@.len() implies crate::order::text_less(
                        identity_of(#[trigger] out@[a]@),
                        identity_of(#[trigger] out@[b]@),
                    ) by {
                        assert(identity_of(out@[a]@) == identity_of(old_out[a]@));
                        assert(identity_of(out@[b]@) == identity_of(old_out[b]@));
                    }
                    assert forall|q: int| 0 <= q < out@.len() implies kept_among(
                        s,
                        i + 1,
                        #[trigger] w[q],
                    ) && out@[q] == s[w[q]] by {
                        if q == k {
                            assert forall|j: int|
                                0 <= j < i + 1 && identity_of(#[trigger] s[j]@) == identity_of(
                                    s[w[q]]@,
                                ) implies s[j]@.path_rank > s[w[q]]@.path_rank || (
                            s[j]@.path_rank == s[w[q]]@.path_rank && w[q] <= j) by {
                                if j < i {
                                    assert(kept_among(s, i as int, old_w[q]));
                                    assert(identity_of(s[j]@) == identity_of(s[old_w[q]]@));
                                }
                            }
                        } else {
                            assert(kept_among(s, i as int, old_w[q]));
                            assert(identity_of(s[old_w[q]]@) == identity_of(old_out[q]@));
                        }
                    }
                }
            } else {
                proof {
                    assert forall|q: int| 0 <= q < out@.len() implies kept_among(
                        s,
                        i + 1,
                        #[trigger] w[q],
                    ) && out@[q] == s[w[q]] by {
                        assert(kept_among(s, i as int, old_w[q]));
                        assert(identity_of(s[old_w[q]]@) == identity_of(old_out[q]@));
                    }
                }
            }
            proof {
                cov = cov.push(k as int);
                assert forall|j: int| 0 <= j < i + 1 implies 0 <= #[trigger] cov[j] < out@.len()
                    && identity_of(out@[cov[j]]@) == identity_of(s[j]@) by {
                    if j < i {
                        assert(cov[j] == old_cov[j]);
                        assert(identity_of(out@[cov[j]]@) == identity_of(old_out[cov[j]]@));
                    }
                }
            }
        } else {
            proof {
                assert forall|q: int| 0 <= q < old_out.len() implies identity_of(
                    #[trigger] old_out[q]@,
                ) != ci && (q >= k ==> crate::order::text_less(ci, identity_of(old_out[q]@))) by {
                    assert(old_ids[q]@ == identity_of(old_out[q]@));
                    if q < k {
                        assert(crate::order::text_less(old_ids[q]@, id@));
                        crate::order::lemma_text_less_asymmetric(old_ids[q]@, id@);
                    } else {
                        assert(crate::order::text_less(id@, old_ids[k as int]@));
                        if q > k {
                            assert(crate::order::text_less(
                                identity_of(old_out[k as int]@),
                                identity_of(old_out[q]@),
                            ));
                            crate::order::lemma_text_less_transitive(
                                id@,
                                old_ids[k as int]@,
                                old_ids[q]@,
                            );
                        }
                        crate::order::lemma_text_less_asymmetric(id@, old_ids[q]@);
                    }
                }
            }
            out.insert(k, c);
            ids.insert(k, id);
            proof {
                w = w.insert(k as int, i as int);
                cov = old_cov.map_values(|q: int| if q >= k { q + 1 } else { q }).push(k as int);
                assert forall|q: int| 0 <= q < ids@.len() implies #[trigger] ids@[q]@ == identity_of(
                    out@[q]@,
                ) by {
                    if q < k {
                        assert(ids@[q] == old_ids[q]);
                    } else if q > k {
                        assert(ids@[q] == old_ids[q - 1]);
                    }
                }
                assert forall|a: int, b: int| 0 <= a < b < out@.len() implies crate::order::text_less(
                    identity_of(#[trigger] out@[a]@),
                    identity_of(#[trigger] out@[b]@),
                ) by {
                    if b < k {
                        assert(out@[a] == old_out[a] && out@[b] == old_out[b]);
                    } else if b == k {
                        assert(out@[a] == old_out[a]);
                        assert(crate::order::text_less(old_ids[a]@, id@));
                        assert(old_ids[a]@ == identity_of(old_out[a]@));
                    } else if a == k {
                        assert(out@[b] == old_out[b - 1]);
                    } else if a < k {
                        assert(out@[a] == old_out[a] && out@[b] == old_out[b - 1]);
                    } else {
                        assert(out@[a] == old_out[a - 1] && out@[b] == old_out[b - 1]);
                    }
                }
                assert forall|j: int|
                    0 <= j < i + 1 && identity_of(#[trigger] s[j]@) == ci implies j == i by {
                    if j < i {
                        assert(identity_of(old_out[old_cov[j]]@) == identity_of(s[j]@));
                    }
                }
                assert forall|q: int| 0 <= q < out@.len() implies kept_among(
                    s,
                    i + 1,
                    #[trigger] w[q],
                ) && out@[q] == s[w[q]] by {
                    if q < k {
                        assert(w[q] == old_w[q] && out@[q] == old_out[q]);
                        assert(kept_among(s, i as int, old_w[q]));
                    } else if q > k {
                        assert(w[q] == old_w[q - 1] && out@[q] == old_out[q - 1]);
                        assert(kept_among(s, i as int, old_w[q - 1]));
                    }
                }
                assert forall|j: int| 0 <= j < i + 1 implies 0 <= #[trigger] cov[j] < out@.len()
                    && identity_of(out@[cov[j]]@) == identity_of(s[j]@) by {
                    if j < i {
                        let q = old_cov[j];
                        if q >= k {
                            assert(out@[q + 1] == old_out[q]);
                        } else {
                            assert(out@[q] == old_out[q]);
                        }
                    }
                }
            }
        }
        i = i + 1;
    }
    proof {
        assert(i == s.len());
        assert forall|k: int| 0 <= k < out@.len() implies is_kept(s, #[trigger] out@[k]) by {
            assert(kept_among(s, i as int, w[k]) && out@[k] == s[w[k]]);
        }
        assert forall|j: int| 0 <= j < s.len() implies has_identity(
            out@,
            identity_of(#[trigger] s[j]@),
        ) by {
            assert(0 <= cov[j] < out@.len() && identity_of(out@[cov[j]]@) == identity_of(s[j]@));
        }
    }
    out
}

} // verus!

verus! {

/// Increasing identities are distinct.
proof fn lemma_increasing_distinct(out: Seq<Candidate>, a: int, b: int)
    requires
        identities_increasing(out),
        0 <= a < out.len(),
        0 <= b < out.len(),
        a != b,
    ensures
        identity_of(out[a]@) != identity_of(out[b]@),
{
    if a < b {
        crate::order::lemma_text_less_asymmetric(identity_of(out[a]@), identity_of(out[b]@));
    } else {
        crate::order::lemma_text_less_asymmetric(identity_of(out[b]@), identity_of(out[a]@));
    }
}

} // verus!

verus! {

/// The key by which launchers are listed: IDE family rank, IDE name, the
/// application path (or the launcher path where there is none) and the
/// launcher path, paths shown relative to `home`.
pub type SortKeyView = (nat, Seq<char>, Seq<char>, Seq<char>);

pub open spec fn sort_key_of(l: Launcher, home: Option<Seq<char>>) -> SortKeyView {
    (
        crate::ides::family_rank_of(l@.kind),
        crate::ides::display_name_of(l@.kind),
        crate::label::home_relative(
            match l@.app_path {
                Some(p) => p,
                None => l@.launcher_path,
            },
            home,
        ),
        crate::label::home_relative(l@.launcher_path, home),
    )
}

/// The lexicographic order of sort keys.
pub open spec fn key_less(a: SortKeyView, b: SortKeyView) -> bool {
    ||| a.0 < b.0
    ||| a.0 == b.0 && crate::order::text_less(a.1, b.1)
    ||| a.0 == b.0 && a.1 == b.1 && crate::order::text_less(a.2, b.2)
    ||| a.0 == b.0 && a.1 == b.1 && a.2 == b.2 && crate::order::text_less(a.3, b.3)
}

pub proof fn lemma_key_less_transitive(a: SortKeyView, b: SortKeyView, c: SortKeyView)
    requires
        key_less(a, b),
        key_less(b, c),
    ensures
        key_less(a, c),
{
    if a.0 == b.0 && b.0 == c.0 {
        if crate::order::text_less(a.1, b.1) && crate::order::text_less(b.1, c.1) {
            crate::order::lemma_text_less_transitive(a.1, b.1, c.1);
        }
        if a.1 == b.1 && b.1 == c.1 {
            if crate::order::text_less(a.2, b.2) && crate::order::text_less(b.2, c.2) {
                crate::order::lemma_text_less_transitive(a.2, b.2, c.2);
            }
            if a.2 == b.2 && b.2 == c.2 {
                crate::order::lemma_text_less_transitive(a.3, b.3, c.3);
            }
        }
    }
}

pub proof fn lemma_key_less_total(a: SortKeyView, b: SortKeyView)
    ensures
        a == b || key_less(a, b) || key_less(b, a),
{
    crate::order::lemma_text_less_total(a.1, b.1);
    crate::order::lemma_text_less_total(a.2, b.2);
    crate::order::lemma_text_less_total(a.3, b.3);
}

/// A launcher's sort key, computed.
struct SortKey {
    rank: usize,
    name: Vec<char>,
    shown: Vec<char>,
    launcher: Vec<char>,
}

impl SortKey {
    spec fn view_key(&self) -> SortKeyView {
        (self.rank as nat, self.name@, self.shown@, self.launcher@)
    }
}

fn sort_key(l: &Launcher, home: Option<&str>) -> (r: SortKey)
    ensures
        r.view_key() == sort_key_of(*l, crate::label::option_str_view(home)),
{
    let kind = l.kind();
    let shown_source = match l.app_path() {
        Some(p) => p,
        None => l.launcher_path(),
    };
    let shown = crate::label::home_relative_with(shown_source, home);
    let launcher = crate::label::home_relative_with(l.launcher_path(), home);
    SortKey {
        rank: kind.family_rank(),
        name: chars_of(kind.display_name()),
        shown: chars_of(shown.as_str()),
        launcher: chars_of(launcher.as_str()),
    }
}

fn key_precedes(a: &SortKey, b: &SortKey) -> (r: bool)
    ensures
        r == key_less(a.view_key(), b.view_key()),
{
    if a.rank != b.rank {
        return a.rank < b.rank;
    }
    match text_order(&a.name, &b.name) {
        TextOrder::Less => return true,
        TextOrder::Greater => {
            proof {
                crate::order::lemma_text_less_asymmetric(b.name@, a.name@);
            }
            return false;
        },
        TextOrder::Equal => {},
    }
    match text_order(&a.shown, &b.shown) {
        TextOrder::Less => return true,
        TextOrder::Greater => {
            proof {
                crate::order::lemma_text_less_asymmetric(b.shown@, a.shown@);
            }
            return false;
        },
        TextOrder::Equal => {},
    }
    text_order(&a.launcher, &b.launcher) == TextOrder::Less
}

/// `r` lists the launchers of `ls`, each once (`perm` says where each came
/// from), by sort key, launchers with equal keys in their order in `ls`.
pub open spec fn sorted_by_key(
    ls: Seq<Launcher>,
    r: Seq<Launcher>,
    perm: Seq<int>,
    home: Option<Seq<char>>,
) -> bool {
    &&& perm.len() == r.len()
    &&& r.len() == ls.len()
    &&& forall|k: int| 0 <= k < r.len() ==> 0 <= #[trigger] perm[k] < ls.len() && r[k] == ls[perm[k]]
    &&& forall|a: int, b: int| 0 <= a < b < r.len() ==> #[trigger] perm[a] != #[trigger] perm[b]
    &&& forall|a: int, b: int|
        0 <= a < b < r.len() ==> key_less(
            sort_key_of(#[trigger] r[a], home),
            sort_key_of(#[trigger] r[b], home),
        ) || (sort_key_of(r[a], home) == sort_key_of(r[b], home) && perm[a] < perm[b])
}

/// Orders launchers for listing: by sort key, and stably (launchers with equal
/// keys keep their order).
pub fn sort_launchers(launchers: Vec<Launcher>, home: Option<&str>) -> (r: Vec<Launcher>)
    ensures
        exists|perm: Seq<int>|
            sorted_by_key(launchers@, r@, perm, crate::label::option_str_view(home)),
{
    let ghost ls = launchers@;
    let ghost h = crate::label::option_str_view(home);
    let n = launchers.len();
    let mut out: Vec<Launcher> = Vec::new();
    let mut keys: Vec<SortKey> = Vec::new();
    let ghost mut perm: Seq<int> = Seq::empty();
    let mut i: usize = 0;
    for l in it: launchers
        invariant
            it.seq() == ls,
            ls.len() == n,
            i == it.index(),
            h == crate::label::option_str_view(home),
            out@.len() == i,
            keys@.len() == i,
            perm.len() == i,
            forall|k: int| 0 <= k < i ==> #[trigger] keys@[k].view_key() == sort_key_of(out@[k], h),
            forall|k: int| 0 <= k < i ==> 0 <= #[trigger] perm[k] < i && out@[k] == ls[perm[k]],
            forall|a: int, b: int| 0 <= a < b < i ==> #[trigger] perm[a] != #[trigger] perm[b],
            forall|a: int, b: int|
                0 <= a < b < i ==> key_less(
                    #[trigger] keys@[a].view_key(),
                    #[trigger] keys@[b].view_key(),
                ) || (keys@[a].view_key() == keys@[b].view_key() && perm[a] < perm[b]),
    {
        assert(l == ls[i as int]);
        let key = sort_key(&l, home);
        let mut p: usize = 0;
        while p < keys.len() && !key_precedes(&key, &keys[p])
            invariant
                p <= keys@.len(),
                forall|q: int| 0 <= q < p ==> !key_less(key.view_key(), #[trigger] keys@[q].view_key()),
            decreases keys@.len() - p,
        {
            p = p + 1;
        }
        let ghost old_keys = keys@;
        let ghost old_perm = perm;
        let ghost old_out = out@;
        let ghost kv = key.view_key();
        proof {
            assert forall|q: int| p <= q < i implies key_less(kv, #[trigger] old_keys[q].view_key()) by {
                if q > p {
                    assert(key_less(kv, old_keys[p as int].view_key()));
                    if key_less(old_keys[p as int].view_key(), old_keys[q].view_key()) {
                        lemma_key_less_transitive(
                            kv,
                            old_keys[p as int].view_key(),
                            old_keys[q].view_key(),
                        );
                    }
                }
            }
            assert forall|q: int| 0 <= q < p implies key_less(
                #[trigger] old_keys[q].view_key(),
                kv,
            ) || old_keys[q].view_key() == kv by {
                lemma_key_less_total(kv, old_keys[q].view_key());
            }
        }
        out.insert(p, l);
        keys.insert(p, key);
        proof {
            perm = old_perm.insert(p as int, i as int);
            assert forall|k: int| 0 <= k < i + 1 implies #[trigger] keys@[k].view_key()
                == sort_key_of(out@[k], h) by {
                if k < p {
                    assert(keys@[k] == old_keys[k] && out@[k] == old_out[k]);
                } else if k > p {
                    assert(keys@[k] == old_keys[k - 1] && out@[k] == old_out[k - 1]);
                }
            }
            assert forall|k: int| 0 <= k < i + 1 implies 0 <= #[trigger] perm[k] < i + 1 && out@[k]
                == ls[perm[k]] by {
                if k < p {
                    assert(perm[k] == old_perm[k] && out@[k] == old_out[k]);
                } else if k > p {
                    assert(perm[k] == old_perm[k - 1] && out@[k] == old_out[k - 1]);
                }
            }
            assert forall|a: int, b: int| 0 <= a < b < i + 1 implies #[trigger] perm[a]
                != #[trigger] perm[b] by {
                if a < p && b < p {
                    assert(perm[a] == old_perm[a] && perm[b] == old_perm[b]);
                } else if a < p && b == p {
                    assert(perm[a] == old_perm[a]);
                } else if a < p {
                    assert(perm[a] == old_perm[a] && perm[b] == old_perm[b - 1]);
                } else if a == p {
                    assert(perm[b] == old_perm[b - 1]);
                } else {
                    assert(perm[a] == old_perm[a - 1] && perm[b] == old_perm[b - 1]);
                }
            }
            assert forall|a: int, b: int| 0 <= a < b < i + 1 implies key_less(
                #[trigger] keys@[a].view_key(),
                #[trigger] keys@[b].view_key(),
            ) || (keys@[a].view_key() == keys@[b].view_key() && perm[a] < perm[b]) by {
                if a < p && b < p {
                    assert(keys@[a] == old_keys[a] && keys@[b] == old_keys[b]);
                    assert(perm[a] == old_perm[a] && perm[b] == old_perm[b]);
                } else if a < p && b == p {
                    assert(keys@[a] == old_keys[a] && perm[a] == old_perm[a]);
                } else if a < p {
                    assert(keys@[a] == old_keys[a] && keys@[b] == old_keys[b - 1]);
                    assert(perm[a] == old_perm[a] && perm[b] == old_perm[b - 1]);
                } else if a == p {
                    assert(keys@[b] == old_keys[b - 1]);
                } else {
                    assert(keys@[a] == old_keys[a - 1] && keys@[b] == old_keys[b - 1]);
                    assert(perm[a] == old_perm[a - 1] && perm[b] == old_perm[b - 1]);
                }
            }
        }
        i = i + 1;
    }
    proof {
        assert(i == ls.len());
        assert forall|a: int, b: int| 0 <= a < b < out@.len() implies key_less(
            sort_key_of(#[trigger] out@[a], h),
            sort_key_of(#[trigger] out@[b], h),
        ) || (sort_key_of(out@[a], h) == sort_key_of(out@[b], h) && perm[a] < perm[b]) by {
            assert(keys@[a].view_key() == sort_key_of(out@[a], h));
            assert(keys@[b].view_key() == sort_key_of(out@[b], h));
        }
        assert(sorted_by_key(ls, out@, perm, h));
    }
    out
}

} // verus!

verus! {

/// The first line of `s` from `start` on (lines end at line feeds) that is not
/// blank, trimmed.
pub open spec fn first_nonblank_line_from(s: Seq<char>, start: int) -> Option<Seq<char>>
    decreases s.len() - start,
{
    if 0 <= start <= s.len() {
        let e = crate::text::index_of_or_len(s, '\n', start);
        proof {
            crate::text::lemma_index_of_or_len_bounds(s, '\n', start);
        }
        let line = crate::text::trim(s.subrange(start, e));
        if line.len() > 0 {
            Some(line)
        } else if e < s.len() {
            first_nonblank_line_from(s, e + 1)
        } else {
            None
        }
    } else {
        None
    }
}

/// The first line of `s` that is not blank, trimmed.
pub open spec fn first_nonblank_line(s: Seq<char>) -> Option<Seq<char>> {
    first_nonblank_line_from(s, 0)
}

fn first_nonblank_line_of(v: &[char]) -> (r: Option<String>)
    ensures
        crate::repository::option_text_view(r) == first_nonblank_line(v@),
{
    let mut start: usize = 0;
    loop
        invariant
            start <= v@.len(),
            first_nonblank_line(v@) == first_nonblank_line_from(v@, start as int),
        decreases v@.len() - start,
    {
        let e = crate::text::index_of_char_from(v, '\n', start);
        let line = crate::text::sub_chars(v, start, e);
        let (a, b) = crate::text::trim_bounds(&line);
        if a < b {
            return Some(crate::text::string_of(&crate::text::sub_chars(&line, a, b)));
        }
        if e >= v.len() {
            return None;
        }
        start = e + 1;
    }
}

/// The version line of an IDE: the first non-blank line of what its
/// `--version` printed, on standard output and then on standard error; none
/// if it failed and printed nothing on standard output.
pub open spec fn version_line_of(success: bool, stdout: Seq<char>, stderr: Seq<char>) -> Option<
    Seq<char>,
> {
    if !success && stdout.len() == 0 {
        None
    } else {
        match first_nonblank_line(stdout) {
            Some(l) => Some(l),
            None => first_nonblank_line(stderr),
        }
    }
}

/// Reads the version line from the output of an IDE's `--version`.
pub fn version_from_output(success: bool, stdout: &str, stderr: &str) -> (r: Option<String>)
    ensures
        crate::repository::option_text_view(r) == version_line_of(success, stdout@, stderr@),
{
    if !success && stdout.is_empty() {
        return None;
    }
    match first_nonblank_line_of(&chars_of(stdout)) {
        Some(l) => Some(l),
        None => first_nonblank_line_of(&chars_of(stderr)),
    }
}

/// A discovered candidate as a launcher: its version is the one its launcher
/// reports, else the one its application reports.
pub fn candidate_to_launcher(
    candidate: Candidate,
    launcher_version: Option<String>,
    app_version: Option<String>,
    home: Option<&str>,
    columns: u16,
) -> (r: Launcher)
    requires
        launcher_version matches Some(v) ==> v@.len() <= isize::MAX,
        app_version matches Some(v) ==> v@.len() <= isize::MAX,
    ensures
        r@.kind == candidate@.kind,
        r@.launcher_path == candidate@.launcher_path,
        r@.app_path == candidate@.app_path,
        r@.version == match launcher_version {
            Some(v) => Some(v@),
            None => crate::repository::option_text_view(app_version),
        },
        r@.label == crate::label::label_text(
            candidate@.kind,
            r@.version,
            candidate@.app_path,
            candidate@.launcher_path,
            crate::label::option_str_view(home),
            columns as nat,
        ),
{
    let version = match launcher_version {
        Some(v) => Some(v),
        None => app_version,
    };
    Launcher::new(
        candidate.kind,
        candidate.launcher_path,
        candidate.app_path,
        version,
        home,
        columns,
    )
}

/// Law: the version line comes from standard output whenever that holds a
/// non-blank line (and the output is accepted): it is the first such line,
/// trimmed, and standard error plays no part.
pub proof fn law_version_prefers_standard_output(
    success: bool,
    stdout: Seq<char>,
    stderr: Seq<char>,
    other_stderr: Seq<char>,
)
    requires
        success || stdout.len() > 0,
        first_nonblank_line(stdout) is Some,
    ensures
        version_line_of(success, stdout, stderr) == first_nonblank_line(stdout),
        version_line_of(success, stdout, stderr) == version_line_of(success, stdout, other_stderr),
{
}

/// Law: a command that failed and printed nothing on standard output reports
/// no version, whatever it printed on standard error.
pub proof fn law_failed_silent_command_has_no_version(stderr: Seq<char>)
    ensures
        version_line_of(false, Seq::empty(), stderr) is None,
{
}

/// Law: the version line found in an output is trimmed: it is not empty and
/// neither begins nor ends with white space.
pub proof fn law_version_line_is_trimmed(s: Seq<char>)
    ensures
        first_nonblank_line(s) matches Some(l) ==> l.len() > 0 && !crate::text::is_white(l[0])
            && !crate::text::is_white(l[l.len() - 1]),
{
    lemma_first_nonblank_trimmed(s, 0);
}

proof fn lemma_first_nonblank_trimmed(s: Seq<char>, start: int)
    ensures
        first_nonblank_line_from(s, start) matches Some(l) ==> l.len() > 0 && !crate::text::is_white(
            l[0],
        ) && !crate::text::is_white(l[l.len() - 1]),
    decreases s.len() - start,
{
    if 0 <= start <= s.len() {
        let e = crate::text::index_of_or_len(s, '\n', start);
        crate::text::lemma_index_of_or_len_bounds(s, '\n', start);
        crate::text::lemma_trim_ends_not_white(s.subrange(start, e));
        if crate::text::trim(s.subrange(start, e)).len() == 0 && e < s.len() {
            lemma_first_nonblank_trimmed(s, e + 1);
        }
    }
}

/// Law: when the first line of an output is not blank, it is the version
/// line, trimmed, whatever follows it.
pub proof fn law_version_line_is_first_nonblank_line(first: Seq<char>, rest: Seq<char>)
    requires
        crate::text::lacks(first, '\n'),
        crate::text::trim(first).len() > 0,
    ensures
        first_nonblank_line(first + seq!['\n'] + rest) == Some(crate::text::trim(first)),
        first_nonblank_line(first) == Some(crate::text::trim(first)),
{
    let s = first + seq!['\n'] + rest;
    crate::text::lemma_first_line_feed(first, rest);
    assert(s.subrange(0, first.len() as int) =~= first);
    assert(first.subrange(0, first.len() as int) =~= first);
    assert(crate::text::index_of_or_len(first, '\n', 0) == first.len()) by {
        lemma_no_line_feed(first, 0);
    }
}

proof fn lemma_no_line_feed(s: Seq<char>, i: int)
    requires
        crate::text::lacks(s, '\n'),
        0 <= i <= s.len(),
    ensures
        crate::text::index_of_or_len(s, '\n', i) == s.len(),
    decreases s.len() - i,
{
    if i < s.len() {
        lemma_no_line_feed(s, i + 1);
    }
}

} // verus!
