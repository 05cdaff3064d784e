//! The fuzzy finder: a query, a snapshot of the candidate sheet labels,
//! and a ranking of the candidates by case-insensitive similarity to the
//! query, stably sorted so that ties keep their enumeration order.
use vstd::prelude::*;
use vstd::string::StrSliceExecFns;
use vstd::seq_lib::group_to_multiset_ensures;
use crate::SheetAddress;

verus! {

/// The longest query or label the ranking accepts, in characters (after
/// case folding). Far beyond any terminal use, and small enough that the
/// similarity arithmetic below is exact.
pub const LEN_LIMIT: usize = 0x10000000;

/// The bit pattern of the similarity value that means "identical".
pub const SCORE_ONE: u64 = 0x3FF0000000000000;

/// What `str::to_lowercase` returns for these characters: the result
/// depends on the characters alone.
pub uninterp spec fn lower_of(s: Seq<char>) -> Seq<char>;

/// What `rapidfuzz::fuzz::ratio` returns for these two character
/// sequences, seen through `f64::to_bits`.
pub uninterp spec fn score_of(a: Seq<char>, b: Seq<char>) -> u64;

/// Relies on `str::to_lowercase`: a function of the characters alone, and
/// empty exactly on the empty string.
#[verifier::external_body]
fn lowercase(s: &str) -> (r: String)
    ensures
        r@ == lower_of(s@),
        s@.len() == 0 <==> r@.len() == 0,
{
    s.to_lowercase()
}

/// Relies on `rapidfuzz::fuzz::ratio`: a normalized similarity in
/// [0.0, 1.0], a function of the two character sequences alone. The value
/// is handed out through `f64::to_bits`, which on non-negative values is
/// strictly increasing, so comparing the results compares similarities;
/// `SCORE_ONE` is the image of 1.0. rapidfuzz computes
/// 1.0 - d / (|a| + |b|) with d the indel distance, which is zero exactly
/// on equal sequences, and for the lengths admitted here the division is
/// too coarse to round a positive distance up to similarity 1.0 — hence
/// the result is `SCORE_ONE` exactly when the sequences are equal.
#[verifier::external_body]
fn ratio_bits(a: &str, b: &str) -> (r: u64)
    requires
        a@.len() < LEN_LIMIT,
        b@.len() < LEN_LIMIT,
    ensures
        r == score_of(a@, b@),
        r <= SCORE_ONE,
        r == SCORE_ONE <==> a@ == b@,
{
    rapidfuzz::fuzz::ratio(a.chars(), b.chars()).to_bits()
}

/// Relies on `String::push`: appends exactly the one character.
#[verifier::external_body]
fn push_char(s: &mut String, c: char)
    ensures
        final(s)@ == old(s)@.push(c),
{
    s.push(c)
}

/// Relies on `String::pop`: removes exactly the last character, and
/// leaves an empty string alone.
#[verifier::external_body]
fn pop_char(s: &mut String)
    ensures
        old(s)@.len() == 0 ==> final(s)@ == old(s)@,
        old(s)@.len() > 0 ==> final(s)@ == old(s)@.drop_last(),
{
    let _ = s.pop();
}

/// The score a candidate label gets against the query: the similarity of
/// the case-folded pair — except that an empty query scores every
/// candidate the same, so that the stable ranking keeps the original
/// enumeration order.
pub open spec fn cand_score(q: Seq<char>, label: Seq<char>) -> u64 {
    if q.len() == 0 {
        0u64
    } else {
        score_of(lower_of(q), lower_of(label))
    }
}

/// The ranking runs only when the case-folded query and labels are within
/// `LEN_LIMIT`; otherwise the candidates are handed back unranked.
pub open spec fn rankable(q: Seq<char>, cands: Seq<(SheetAddress, String)>) -> bool {
    &&& lower_of(q).len() < LEN_LIMIT
    &&& forall|i: int|
        0 <= i < cands.len() ==> lower_of((#[trigger] cands[i]).1@).len() < LEN_LIMIT
}

/// Candidate `i1` ranks strictly before candidate `i2`: a higher score,
/// or the same score and the earlier enumeration position.
pub open spec fn lex_before(s1: u64, i1: int, s2: u64, i2: int) -> bool {
    s1 > s2 || (s1 == s2 && i1 < i2)
}

/// `p` lists, in ranking order, the positions the results came from:
/// every result is the candidate at its position, and along `p` the
/// (score, original position) pairs strictly descend — which makes the
/// ranking a stable sort of the candidates by descending score.
pub open spec fn ranking_perm(
    q: Seq<char>,
    cands: Seq<(SheetAddress, String)>,
    res: Seq<(SheetAddress, String)>,
    p: Seq<int>,
) -> bool {
    &&& p.len() == cands.len()
    &&& res.len() == cands.len()
    &&& forall|i: int| 0 <= i < p.len() ==> 0 <= #[trigger] p[i] < cands.len()
    &&& forall|i: int|
        0 <= i < p.len() ==> (#[trigger] res[i]).0 == cands[p[i]].0 && res[i].1 == cands[p[i]].1
    &&& forall|i: int, j: int|
        0 <= i < j < p.len() ==> lex_before(
            cand_score(q, cands[#[trigger] p[i]].1@),
            p[i],
            cand_score(q, cands[#[trigger] p[j]].1@),
            p[j],
        )
}

/// No candidate before `k` matches the case-folded query exactly.
pub open spec fn first_exact_match(
    q: Seq<char>,
    cands: Seq<(SheetAddress, String)>,
    k: int,
) -> bool {
    &&& 0 <= k < cands.len()
    &&& lower_of(q) == lower_of(cands[k].1@)
    &&& forall|m: int| 0 <= m < k ==> lower_of(q) != lower_of((#[trigger] cands[m]).1@)
}

/// One candidate paired with its score and its enumeration position,
/// the unit the ranking sort works on.
struct ScoredEntry {
    score: u64,
    idx: usize,
    addr: SheetAddress,
    label: String,
}

/// Entry `e` is candidate `t` scored against query `q`, together with the
/// score facts the exact-match law rests on.
spec fn good_entry(
    q: Seq<char>,
    cands: Seq<(SheetAddress, String)>,
    e: ScoredEntry,
    t: int,
) -> bool {
    &&& 0 <= t < cands.len()
    &&& e.idx == t
    &&& e.addr == cands[t].0
    &&& e.label == cands[t].1
    &&& e.score == cand_score(q, cands[t].1@)
    &&& e.score <= SCORE_ONE
    &&& (e.score == SCORE_ONE <==> lower_of(q) == lower_of(cands[t].1@))
}

/// The sort order of the ranking: by descending score, ties by ascending
/// enumeration position.
spec fn rank_before(a: ScoredEntry, b: ScoredEntry) -> bool {
    lex_before(a.score, a.idx as int, b.score, b.idx as int)
}

/// Removing position `i` of `t` leaves `rest` exactly when `t`'s multiset
/// is `rest`'s with `t[i]` put back.
proof fn lemma_remove_rel<A>(t: Seq<A>, i: int, rest: Seq<A>)
    requires
        0 <= i < t.len(),
        t.remove(i) == rest,
    ensures
        t.to_multiset() == rest.to_multiset().insert(t[i]),
{
    broadcast use group_to_multiset_ensures;
    broadcast use vstd::multiset::group_multiset_axioms;

    assert(t.remove(i).to_multiset() =~= t.to_multiset().remove(t[i]));
    assert(t.contains(t[i]));
    assert(t.to_multiset().count(t[i]) > 0);
    assert(t.to_multiset() =~= rest.to_multiset().insert(t[i]));
}

/// From a strictly rank-sorted permutation of the scored entries, the
/// ranking permutation exists, and an exact match (the earliest, when
/// there are several) stands first.
proof fn lemma_ranking_from_sorted(
    q: Seq<char>,
    cands: Seq<(SheetAddress, String)>,
    e0: Seq<ScoredEntry>,
    r: Seq<ScoredEntry>,
    res: Seq<(SheetAddress, String)>,
)
    requires
        q.len() > 0,
        e0.len() == cands.len(),
        forall|t: int| 0 <= t < e0.len() ==> good_entry(q, cands, #[trigger] e0[t], t),
        forall|i: int, j: int|
            0 <= i < j < r.len() ==> rank_before(#[trigger] r[i], #[trigger] r[j]),
        r.to_multiset() == e0.to_multiset(),
        r.len() == e0.len(),
        res.len() == r.len(),
        forall|t: int|
            0 <= t < r.len() ==> (#[trigger] res[t]).0 == r[t].addr && res[t].1 == r[t].label,
    ensures
        exists|p: Seq<int>| ranking_perm(q, cands, res, p),
        forall|k: int|
            #[trigger] first_exact_match(q, cands, k) ==> res[0].0 == cands[k].0 && res[0].1
                == cands[k].1,
{
    broadcast use group_to_multiset_ensures;

    assert forall|i: int| 0 <= i < r.len() implies (0 <= r[i].idx < cands.len() && e0[r[i].idx
        as int] == r[i]) by {
        assert(r.contains(r[i]));
        assert(r.to_multiset().count(r[i]) > 0);
        assert(e0.to_multiset().count(r[i]) > 0);
        assert(e0.contains(r[i]));
        let t = choose|t: int| 0 <= t < e0.len() && e0[t] == r[i];
        assert(good_entry(q, cands, e0[t], t));
        assert(r[i].idx == t);
    }
    let p = Seq::new(r.len(), |i: int| r[i].idx as int);
    assert forall|i: int| 0 <= i < p.len() implies (#[trigger] res[i]).0 == cands[p[i]].0
        && res[i].1 == cands[p[i]].1 by {
        assert(e0[r[i].idx as int] == r[i]);
        assert(good_entry(q, cands, e0[p[i]], p[i]));
    }
    assert forall|i: int, j: int| 0 <= i < j < p.len() implies lex_before(
        cand_score(q, cands[#[trigger] p[i]].1@),
        p[i],
        cand_score(q, cands[#[trigger] p[j]].1@),
        p[j],
    ) by {
        assert(good_entry(q, cands, e0[p[i]], p[i]));
        assert(good_entry(q, cands, e0[p[j]], p[j]));
        assert(rank_before(r[i], r[j]));
    }
    assert(ranking_perm(q, cands, res, p));
    assert forall|k: int| #[trigger] first_exact_match(q, cands, k) implies res[0].0 == cands[k].0
        && res[0].1 == cands[k].1 by {
        assert(good_entry(q, cands, e0[k], k));
        assert(e0[k].score == SCORE_ONE);
        assert(e0.contains(e0[k]));
        assert(e0.to_multiset().count(e0[k]) > 0);
        assert(r.to_multiset().count(e0[k]) > 0);
        assert(r.contains(e0[k]));
        let i = choose|i: int| 0 <= i < r.len() && r[i] == e0[k];
        if i > 0 {
            assert(rank_before(r[0], r[i]));
            let m = r[0].idx as int;
            assert(good_entry(q, cands, e0[m], m));
            assert(r[0].score == SCORE_ONE);
            assert(lower_of(q) == lower_of(cands[m].1@));
            assert(m < k);
            assert(false);
        }
        assert(r[0] == e0[k]);
    }
}

/// The results field holds a correct ranking of the candidates against
/// the query: the candidates in enumeration order when the query is empty
/// or not rankable, else their stable sort by descending similarity, with
/// the earliest exact (case-folded) match first.
pub open spec fn results_ranked(f: FinderView) -> bool {
    &&& f.results@.len() == f.candidates@.len()
    &&& (f.query@.len() == 0 || !rankable(f.query@, f.candidates@)) ==> f.results@
        == f.candidates@
    &&& rankable(f.query@, f.candidates@) ==> exists|p: Seq<int>|
        ranking_perm(f.query@, f.candidates@, f.results@, p)
    &&& rankable(f.query@, f.candidates@) && f.query@.len() > 0 ==> forall|k: int|
        #[trigger] first_exact_match(f.query@, f.candidates@, k) ==> f.results@[0].0
            == f.candidates@[k].0 && f.results@[0].1 == f.candidates@[k].1
}

/// The finder's state: the live query, the candidate universe snapshot,
/// the current ranking, and which ranked result is selected.
pub struct FinderView {
    pub query: String,
    pub candidates: Vec<(SheetAddress, String)>,
    pub results: Vec<(SheetAddress, String)>,
    pub selected_result: usize,
}

impl FinderView {
    /// The selection stays inside the ranking (at 0 when it is empty).
    pub open spec fn wf(&self) -> bool {
        self.selected_result < self.results@.len() || (self.results@.len() == 0
            && self.selected_result == 0)
    }

    /// Move the result selection one down, wrapping from the last result
    /// to the first; with no results nothing moves.
    pub fn select_next(&mut self)
        requires
            old(self).wf(),
        ensures
            final(self).wf(),
            final(self).query == old(self).query,
            final(self).candidates == old(self).candidates,
            final(self).results == old(self).results,
            final(self).selected_result == if old(self).results@.len() == 0 {
                0int
            } else if old(self).selected_result + 1 < old(self).results@.len() {
                old(self).selected_result + 1
            } else {
                0int
            },
    {
        let n = self.results.len();
        if n == 0 {
            self.selected_result = 0;
        } else if self.selected_result < n - 1 {
            self.selected_result = self.selected_result + 1;
        } else {
            self.selected_result = 0;
        }
    }

    /// Move the result selection one up, wrapping from the first result to
    /// the last; with no results nothing moves.
    pub fn select_previous(&mut self)
        requires
            old(self).wf(),
        ensures
            final(self).wf(),
            final(self).query == old(self).query,
            final(self).candidates == old(self).candidates,
            final(self).results == old(self).results,
            final(self).selected_result == if old(self).results@.len() == 0 {
                0int
            } else if old(self).selected_result > 0 {
                old(self).selected_result - 1
            } else {
                old(self).results@.len() - 1
            },
    {
        let n = self.results.len();
        if n == 0 {
            self.selected_result = 0;
        } else if self.selected_result > 0 {
            self.selected_result = self.selected_result - 1;
        } else {
            self.selected_result = n - 1;
        }
    }

    /// The address of the selected ranked result, or nothing when the
    /// ranking is empty. This is the finder's only channel back to the
    /// navigation controller.
    pub fn get_selected(&self) -> (r: Option<SheetAddress>)
        ensures
            r == if self.selected_result < self.results@.len() {
                Some(self.results@[self.selected_result as int].0)
            } else {
                None::<SheetAddress>
            },
    {
        if self.selected_result < self.results.len() {
            Some(self.results[self.selected_result].0)
        } else {
            None
        }
    }

    /// Open a finder over this candidate universe: an empty query, so the
    /// initial ranking lists the candidates in enumeration order.
    pub fn new(candidates: Vec<(SheetAddress, String)>) -> (r: FinderView)
        ensures
            r.wf(),
            r.query@.len() == 0,
            r.candidates == candidates,
            r.results@ == candidates@,
            r.selected_result == 0,
            results_ranked(r),
    {
        let mut f = FinderView {
            query: String::new(),
            candidates,
            results: Vec::new(),
            selected_result: 0,
        };
        f.update_results();
        f
    }

    /// Edit the query: append one typed character.
    pub fn query_insert(&mut self, c: char)
        ensures
            final(self).query@ == old(self).query@.push(c),
            final(self).candidates == old(self).candidates,
            final(self).results == old(self).results,
            final(self).selected_result == old(self).selected_result,
    {
        push_char(&mut self.query, c);
    }

    /// Recompute the ranking from the candidate snapshot and the current
    /// query, and put the result selection back on the top result.
    ///
    /// An empty query keeps the candidates in their enumeration order, as
    /// does an overlong query or label (see `rankable`). Otherwise the
    /// result is the stable sort of the candidates by descending
    /// similarity (`ranking_perm`), and a candidate whose case-folded
    /// label equals the case-folded query — the earliest one, when there
    /// are duplicates — ranks first.
    pub fn update_results(&mut self)
        ensures
            final(self).wf(),
            final(self).query == old(self).query,
            final(self).candidates == old(self).candidates,
            final(self).selected_result == 0,
            results_ranked(*final(self)),
    {
        let n = self.candidates.len();
        let lq = lowercase(self.query.as_str());
        let mut low: Vec<String> = Vec::new();
        let mut ok: bool = lq.as_str().unicode_len() < LEN_LIMIT;
        let mut i: usize = 0;
        while i < n
            invariant
                n == self.candidates@.len(),
                i <= n,
                low@.len() == i,
                lq@ == lower_of(self.query@),
                forall|t: int|
                    0 <= t < i ==> (#[trigger] low@[t])@ == lower_of(self.candidates@[t].1@),
                ok <==> (lower_of(self.query@).len() < LEN_LIMIT && forall|t: int|
                    0 <= t < i ==> lower_of((#[trigger] self.candidates@[t]).1@).len() < LEN_LIMIT),
            decreases n - i,
        {
            let ll = lowercase(self.candidates[i].1.as_str());
            if ll.as_str().unicode_len() >= LEN_LIMIT {
                ok = false;
            }
            low.push(ll);
            i += 1;
        }
        assert(ok <==> rankable(self.query@, self.candidates@));
        let qempty = self.query.as_str().unicode_len() == 0;
        if qempty || !ok {
            let mut res: Vec<(SheetAddress, String)> = Vec::new();
            let mut i: usize = 0;
            while i < n
                invariant
                    n == self.candidates@.len(),
                    i <= n,
                    res@.len() == i,
                    forall|t: int| 0 <= t < i ==> #[trigger] res@[t] == self.candidates@[t],
                decreases n - i,
            {
                let a = self.candidates[i].0;
                let s = self.candidates[i].1.clone();
                res.push((a, s));
                i += 1;
            }
            assert(res@ =~= self.candidates@);
            self.results = res;
            self.selected_result = 0;
            proof {
                if rankable(self.query@, self.candidates@) {
                    let p = Seq::new(n as nat, |i: int| i);
                    assert(ranking_perm(self.query@, self.candidates@, self.results@, p));
                }
            }
        } else {
            let ghost q = self.query@;
            let ghost cands = self.candidates@;
            let mut entries: Vec<ScoredEntry> = Vec::new();
            let mut i: usize = 0;
            while i < n
                invariant
                    n == self.candidates@.len(),
                    i <= n,
                    entries@.len() == i,
                    q == self.query@,
                    cands == self.candidates@,
                    q.len() > 0,
                    rankable(q, cands),
                    low@.len() == n,
                    lq@ == lower_of(q),
                    forall|t: int| 0 <= t < n ==> (#[trigger] low@[t])@ == lower_of(cands[t].1@),
                    forall|t: int|
                        0 <= t < i ==> good_entry(q, cands, #[trigger] entries@[t], t),
                decreases n - i,
            {
                let s = ratio_bits(lq.as_str(), low[i].as_str());
                let a = self.candidates[i].0;
                let lab = self.candidates[i].1.clone();
                entries.push(ScoredEntry { score: s, idx: i, addr: a, label: lab });
                i += 1;
            }
            let ghost e0 = entries@;
            let mut sorted: Vec<ScoredEntry> = Vec::new();
            proof {
                assert(entries@ =~= e0.take(entries@.len() as int));
                assert(sorted@ =~= e0.skip(entries@.len() as int));
            }
            while entries.len() > 0
                invariant
                    e0.len() == n,
                    n == cands.len(),
                    forall|t: int| 0 <= t < n ==> good_entry(q, cands, #[trigger] e0[t], t),
                    entries@.len() <= n,
                    entries@ == e0.take(entries@.len() as int),
                    sorted@.to_multiset() == e0.skip(entries@.len() as int).to_multiset(),
                    forall|a: int, b: int|
                        0 <= a < b < sorted@.len() ==> rank_before(
                            #[trigger] sorted@[a],
                            #[trigger] sorted@[b],
                        ),
                    forall|t: int|
                        0 <= t < sorted@.len() ==> (#[trigger] sorted@[t]).idx >= entries@.len(),
                decreases entries@.len(),
            {
                let ghost l = entries@.len() as int;
                let e = entries.pop().unwrap();
                proof {
                    assert(entries@ =~= e0.take(l - 1));
                    assert(e == e0[l - 1]);
                    assert(good_entry(q, cands, e0[l - 1], l - 1));
                }
                let mut j: usize = 0;
                while j < sorted.len() && (sorted[j].score > e.score || (sorted[j].score == e.score
                    && sorted[j].idx < e.idx))
                    invariant
                        j <= sorted@.len(),
                        forall|t: int| 0 <= t < j ==> rank_before(#[trigger] sorted@[t], e),
                    decreases sorted@.len() - j,
                {
                    j += 1;
                }
                let ghost old_sorted = sorted@;
                proof {
                    if (j as int) < old_sorted.len() {
                        assert(old_sorted[j as int].idx >= l);
                        assert(e.idx == l - 1);
                        assert(rank_before(e, old_sorted[j as int]));
                    }
                }
                sorted.insert(j, e);
                proof {
                    assert(sorted@ == old_sorted.insert(j as int, e));
                    assert(sorted@.remove(j as int) =~= old_sorted);
                    lemma_remove_rel(sorted@, j as int, old_sorted);
                    assert(e0.skip(l - 1).remove(0) =~= e0.skip(l));
                    lemma_remove_rel(e0.skip(l - 1), 0, e0.skip(l));
                    assert(e0.skip(l - 1)[0] == e0[l - 1]);
                    assert(sorted@.to_multiset() =~= e0.skip(l - 1).to_multiset());
                    assert forall|a: int, b: int| 0 <= a < b < sorted@.len() implies rank_before(
                        sorted@[a],
                        sorted@[b],
                    ) by {
                        if b < j {
                            assert(rank_before(old_sorted[a], old_sorted[b]));
                        } else if a > j {
                            assert(rank_before(old_sorted[a - 1], old_sorted[b - 1]));
                        } else if a < j && b == j {
                            assert(rank_before(old_sorted[a], e));
                        } else if a == j {
                            assert(rank_before(e, old_sorted[b - 1]));
                        } else {
                            assert(rank_before(old_sorted[a], e));
                            assert(rank_before(e, old_sorted[b - 1]));
                        }
                    }
                }
            }
            proof {
                assert(e0.skip(0) =~= e0);
                broadcast use group_to_multiset_ensures;

                assert(sorted@.to_multiset().len() == e0.to_multiset().len());
                assert(sorted@.len() == n);
            }
            let mut res: Vec<(SheetAddress, String)> = Vec::new();
            let mut i: usize = 0;
            while i < n
                invariant
                    i <= n,
                    res@.len() == i,
                    sorted@.len() == n,
                    forall|t: int|
                        0 <= t < i ==> (#[trigger] res@[t]).0 == sorted@[t].addr && res@[t].1
                            == sorted@[t].label,
                decreases n - i,
            {
                let a = sorted[i].addr;
                let s = sorted[i].label.clone();
                res.push((a, s));
                i += 1;
            }
            self.results = res;
            self.selected_result = 0;
            proof {
                lemma_ranking_from_sorted(q, cands, e0, sorted@, self.results@);
            }
        }
    }

    /// Edit the query: erase the last character, if any.
    pub fn query_backspace(&mut self)
        ensures
            old(self).query@.len() == 0 ==> final(self).query@ == old(self).query@,
            old(self).query@.len() > 0 ==> final(self).query@ == old(self).query@.drop_last(),
            final(self).candidates == old(self).candidates,
            final(self).results == old(self).results,
            final(self).selected_result == old(self).selected_result,
    {
        pop_char(&mut self.query);
    }
}

} // verus!
