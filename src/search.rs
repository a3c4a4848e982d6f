use vstd::prelude::*;
use vstd::string::StrSliceExecFns;

use crate::store::{lower_of, lowercase, PasswordStore};

verus! {

/// Score of matching `q[j..]` in order into `name[i..]`, taking each query
/// character at its first occurrence: a matched character counts 1, or 2 when
/// the character before it in the name matched too (`run`). `-1` when some
/// query character cannot be matched.
pub open spec fn subseq_score(name: Seq<char>, q: Seq<char>, i: int, j: int, run: bool) -> int
    decreases name.len() - i,
{
    if j >= q.len() {
        0
    } else if i >= name.len() || i < 0 {
        -1
    } else if name[i] == q[j] {
        let rest = subseq_score(name, q, i + 1, j + 1, true);
        if rest < 0 {
            -1
        } else {
            rest + if run {
                2int
            } else {
                1int
            }
        }
    } else {
        subseq_score(name, q, i + 1, j, false)
    }
}

/// The rank of a case-folded name against a case-folded query: 0 when the
/// query is not a subsequence of the name, the highest possible score
/// `2 * |q| + 2` for an exact match, and otherwise one more than the match
/// score, so that adjacent matched characters rank above scattered ones.
pub open spec fn fuzzy_score(name: Seq<char>, q: Seq<char>) -> int {
    if name == q {
        2 * q.len() as int + 2
    } else if subseq_score(name, q, 0, 0, false) < 0 {
        0
    } else {
        subseq_score(name, q, 0, 0, false) + 1
    }
}

/// The positions `k < n` whose score is `s`, in increasing order.
pub open spec fn bucket(scores: Seq<int>, s: int, n: int) -> Seq<int>
    decreases n,
{
    if n <= 0 {
        Seq::empty()
    } else {
        bucket(scores, s, n - 1) + if scores[n - 1] == s {
            seq![n - 1]
        } else {
            Seq::empty()
        }
    }
}

/// The positions whose score is between 1 and `top`, highest score first
/// and, among equal scores, in increasing order.
pub open spec fn ranked(scores: Seq<int>, top: int) -> Seq<int>
    decreases top,
{
    if top <= 0 {
        Seq::empty()
    } else {
        bucket(scores, top, scores.len() as int) + ranked(scores, top - 1)
    }
}

/// The scores of the entry names `names` against `query`, ignoring case.
pub open spec fn scores_of(names: Seq<Seq<char>>, query: Seq<char>) -> Seq<int> {
    names.map_values(|n: Seq<char>| fuzzy_score(lower_of(n), lower_of(query)))
}

proof fn lemma_score_bound(name: Seq<char>, q: Seq<char>, i: int, j: int, run: bool)
    requires
        0 <= j <= q.len(),
    ensures
        subseq_score(name, q, i, j, run) <= 2 * (q.len() - j),
    decreases name.len() - i,
{
    if j < q.len() && 0 <= i < name.len() {
        if name[i] == q[j] {
            lemma_score_bound(name, q, i + 1, j + 1, true);
        } else {
            lemma_score_bound(name, q, i + 1, j, false);
        }
    }
}

fn score_name(name: &str, q: &str) -> (r: u128)
    ensures
        r == fuzzy_score(name@, q@),
{
    let n = name.unicode_len();
    let m = q.unicode_len();
    let mut same = n == m;
    let mut k: usize = 0;
    while k < n && same
        invariant
            n == name@.len(),
            m == q@.len(),
            k <= n,
            same ==> n == m && name@.subrange(0, k as int) == q@.subrange(0, k as int),
            !same ==> name@ != q@,
        decreases n - k,
    {
        if name.get_char(k) != q.get_char(k) {
            same = false;
        } else {
            assert(name@.subrange(0, k + 1) =~= name@.subrange(0, k as int).push(name@[k as int]));
            assert(q@.subrange(0, k + 1) =~= q@.subrange(0, k as int).push(q@[k as int]));
        }
        k = k + 1;
    }
    if same {
        assert(name@ =~= name@.subrange(0, n as int));
        assert(q@ =~= q@.subrange(0, m as int));
        return 2 * (m as u128) + 2;
    }
    let mut i: usize = 0;
    let mut j: usize = 0;
    let mut run = false;
    let mut acc: u128 = 0;
    proof {
        lemma_score_bound(name@, q@, 0, 0, false);
    }
    while j < m
        invariant
            n == name@.len(),
            m == q@.len(),
            i <= n,
            j <= m,
            acc <= 2 * j,
            name@ != q@,
            ({
                let total = subseq_score(name@, q@, 0, 0, false);
                let rest = subseq_score(name@, q@, i as int, j as int, run);
                if rest < 0 {
                    total < 0
                } else {
                    total == acc + rest
                }
            }),
        decreases n - i,
    {
        if i >= n {
            return 0;
        }
        if name.get_char(i) == q.get_char(j) {
            acc = acc + if run { 2 } else { 1 };
            j = j + 1;
            run = true;
        } else {
            run = false;
        }
        i = i + 1;
    }
    acc + 1
}

impl PasswordStore {
    /// The positions of the entries whose names match `query` ignoring case,
    /// best match first and, among equal ranks, in insertion order.
    pub fn search_fuzzy(&self, query: &str) -> (r: Vec<usize>)
        ensures
            r@.map_values(|k: usize| k as int) == ranked(
                scores_of(self@.entries.map_values(|e: crate::store::PasswordView| e.name), query@),
                2 * lower_of(query@).len() as int + 2,
            ),
    {
        let ghost names = self@.entries.map_values(|e: crate::store::PasswordView| e.name);
        let ghost sc = scores_of(names, query@);
        let q = lowercase(query);
        let n = self.len();
        let mut scores: Vec<u128> = Vec::new();
        let mut i: usize = 0;
        while i < n
            invariant
                n == self@.entries.len(),
                i <= n,
                q@ == lower_of(query@),
                sc == scores_of(names, query@),
                names == self@.entries.map_values(|e: crate::store::PasswordView| e.name),
                scores@.len() == i,
                forall|k: int| 0 <= k < i ==> scores@[k] as int == #[trigger] sc[k],
            decreases n - i,
        {
            let l = lowercase(self.entry(i).name.as_str());
            let s = score_name(l.as_str(), q.as_str());
            scores.push(s);
            i = i + 1;
        }
        let top: u128 = 2 * (q.unicode_len() as u128) + 2;
        let mut out: Vec<usize> = Vec::new();
        let mut s: u128 = top;
        assert(sc.len() == n);
        while s > 0
            invariant
                s <= top,
                top == 2 * lower_of(query@).len() + 2,
                scores@.len() == n,
                sc.len() == n,
                forall|k: int| 0 <= k < n ==> scores@[k] as int == #[trigger] sc[k],
                out@.map_values(|k: usize| k as int) + ranked(sc, s as int) == ranked(sc, top as int),
            decreases s,
        {
            let ghost before = out@.map_values(|k: usize| k as int);
            let mut k: usize = 0;
            while k < n
                invariant
                    s > 0,
                    k <= n,
                    scores@.len() == n,
                    sc.len() == n,
                    forall|t: int| 0 <= t < n ==> scores@[t] as int == #[trigger] sc[t],
                    out@.map_values(|t: usize| t as int) == before + bucket(sc, s as int, k as int),
                decreases n - k,
            {
                let ghost prev = out@;
                assert(scores@[k as int] as int == sc[k as int]);
                if scores[k] == s {
                    out.push(k);
                    assert(out@.map_values(|t: usize| t as int) =~= prev.map_values(|t: usize| t as int).push(k as int));
                } else {
                    assert(out@ == prev);
                }
                assert(bucket(sc, s as int, k + 1) == bucket(sc, s as int, k as int) + if sc[k as int] == s as int {
                    seq![k as int]
                } else {
                    Seq::<int>::empty()
                });
                assert(out@.map_values(|t: usize| t as int) =~= before + bucket(sc, s as int, k + 1));
                k = k + 1;
            }
            assert(before + ranked(sc, s as int) =~= before + bucket(sc, s as int, n as int) + ranked(sc, s - 1));
            s = s - 1;
        }
        out
    }
}

/// An exact match (ignoring case) ranks strictly above every other name: its
/// score is `2 * |q| + 2`, and any other name scores at most `2 * |q| + 1`.
pub proof fn lemma_exact_match_ranks_highest(name: Seq<char>, q: Seq<char>)
    ensures
        name == q ==> fuzzy_score(name, q) == 2 * q.len() + 2,
        name != q ==> 0 <= fuzzy_score(name, q) <= 2 * q.len() + 1,
{
    lemma_score_bound(name, q, 0, 0, false);
}

/// The ranking depends on the entry names and the query alone: two stores
/// with the same names, searched with the same query, rank alike.
pub proof fn lemma_search_deterministic(names1: Seq<Seq<char>>, names2: Seq<Seq<char>>, query: Seq<char>)
    requires
        names1 == names2,
    ensures
        ranked(scores_of(names1, query), 2 * lower_of(query).len() as int + 2) == ranked(
            scores_of(names2, query),
            2 * lower_of(query).len() as int + 2,
        ),
{
}

} // verus!
